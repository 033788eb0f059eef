use battleship::{
    BotState, CellState, Difficulty, Direction, Game, GameError, GameStatus, Player, Ship,
};

fn side(id: &str, engine: Option<BotState>) -> Player {
    let mut player = Player {
        id: id.to_string(),
        is_bot: engine.is_some(),
        board: [[CellState::Empty; 10]; 10],
        ships: Vec::new(),
        remaining_health: 17,
        bot_state: engine,
    };
    let fleet = [(5u8, 0usize), (4, 2), (3, 4), (3, 6), (2, 8)];
    for (i, (len, row)) in fleet.iter().enumerate() {
        let ship = Ship {
            id: format!("ship_{}", i),
            len: *len,
            hits: 0,
            coordinates: (*row, 0),
            dir: Direction::Horizontal,
        };
        assert!(player.place_ship(ship).is_ok());
    }
    player
}

fn fleet_cells() -> Vec<(usize, usize)> {
    let mut cells = Vec::new();
    for (len, row) in [(5usize, 0usize), (4, 2), (3, 4), (3, 6), (2, 8)] {
        for col in 0..len {
            cells.push((row, col));
        }
    }
    cells
}

fn playing(difficulty: Difficulty) -> Game {
    let mut game = Game::new(side("User", None));
    assert_eq!(game.join_game(side("Bot", Some(BotState::new(difficulty)))), Ok(()));
    game
}

#[test]
fn new_match_waits() {
    let game = Game::new(side("User", None));
    assert_eq!(game.status, GameStatus::Waiting);
    assert!(game.player_2.is_none());
    assert_eq!(game.current_turn, "User");
    assert_eq!(game.winner, None);
    assert_eq!(game.id.len(), 36);
    assert_eq!(game.id.matches('-').count(), 4);
}

#[test]
fn match_identifiers_differ() {
    let a = Game::new(side("User", None));
    let b = Game::new(side("User", None));
    assert_ne!(a.id, b.id);
}

#[test]
fn join_starts_play_once() {
    let mut game = Game::new(side("User", None));
    assert_eq!(game.join_game(side("Bot", None)), Ok(()));
    assert_eq!(game.status, GameStatus::Playing);
    assert_eq!(game.player_2.as_ref().unwrap().id, "Bot");
    assert_eq!(game.join_game(side("Other", None)), Err(GameError::MatchFull));
    assert_eq!(game.player_2.as_ref().unwrap().id, "Bot");
    assert_eq!(game.status, GameStatus::Playing);
}

#[test]
fn shot_before_join_is_refused() {
    let mut game = Game::new(side("User", None));
    assert_eq!(game.make_move("User".to_string(), (0, 0)), Err(GameError::OpponentMissing));
    assert_eq!(game.submit_shot((0, 0)).unwrap_err(), GameError::OpponentMissing);
    assert_eq!(game.status, GameStatus::Waiting);
}

#[test]
fn other_identifiers_aim_at_the_first_side() {
    let mut game = Game::new(side("User", None));
    assert_eq!(game.make_move("Bot".to_string(), (0, 0)), Ok((CellState::Hit, None)));
    assert_eq!(game.player_1.board[0][0], CellState::Hit);
    assert_eq!(game.player_1.remaining_health, 16);
}

#[test]
fn move_resolves_against_the_opponent() {
    let mut game = playing(Difficulty::Easy);
    assert_eq!(game.make_move("User".to_string(), (0, 0)), Ok((CellState::Hit, None)));
    assert_eq!(game.make_move("User".to_string(), (9, 9)), Ok((CellState::Miss, None)));
    assert_eq!(game.make_move("User".to_string(), (0, 0)), Err(GameError::AlreadyFired));
    assert_eq!(game.make_move("User".to_string(), (10, 0)), Err(GameError::OutOfBounds));
    let bot = game.player_2.as_ref().unwrap();
    assert_eq!(bot.board[0][0], CellState::Hit);
    assert_eq!(bot.board[9][9], CellState::Miss);
    assert_eq!(bot.remaining_health, 16);
    assert_eq!(game.player_1.remaining_health, 17);
    assert_eq!(game.status, GameStatus::Playing);
}

#[test]
fn match_finishes_exactly_at_the_threshold() {
    let mut game = playing(Difficulty::Easy);
    let cells = fleet_cells();
    for (n, cell) in cells.iter().enumerate() {
        let res = game.make_move("User".to_string(), *cell).unwrap();
        assert_eq!(res.0, CellState::Hit);
        if n + 1 < 17 {
            assert_eq!(res.1, None);
            assert_eq!(game.status, GameStatus::Playing);
            assert_eq!(game.winner, None);
        } else {
            assert_eq!(res.1, Some("User".to_string()));
            assert_eq!(game.status, GameStatus::Finished);
            assert_eq!(game.winner, Some("User".to_string()));
        }
    }
}

#[test]
fn seven_hits_do_not_finish_the_match() {
    let mut game = playing(Difficulty::Easy);
    for cell in fleet_cells().iter().take(7) {
        assert_eq!(game.make_move("User".to_string(), *cell), Ok((CellState::Hit, None)));
    }
    assert_eq!(game.status, GameStatus::Playing);
    assert_eq!(game.winner, None);
}

#[test]
fn scripted_side_can_win() {
    let mut game = playing(Difficulty::Easy);
    let cells = fleet_cells();
    for (n, cell) in cells.iter().enumerate() {
        let res = game.make_move("Bot".to_string(), *cell).unwrap();
        if n + 1 < 17 {
            assert_eq!(res, (CellState::Hit, None));
        } else {
            assert_eq!(res, (CellState::Hit, Some("Bot".to_string())));
        }
    }
    assert_eq!(game.status, GameStatus::Finished);
    assert_eq!(game.winner, Some("Bot".to_string()));
}

#[test]
fn exchange_answers_with_a_bot_shot() {
    let mut game = playing(Difficulty::Medium);
    let out = game.submit_shot((9, 9)).unwrap();
    assert_eq!(out.human_result, CellState::Miss);
    assert_eq!(out.winner, None);
    let shot = out.bot_shot.unwrap();
    assert!(shot.row < 10 && shot.col < 10);
    let expected = if fleet_cells().contains(&(shot.row, shot.col)) {
        CellState::Hit
    } else {
        CellState::Miss
    };
    assert_eq!(shot.result, expected);
    assert_eq!(game.player_1.board[shot.row][shot.col], expected);
    let engine = game.player_2.as_ref().unwrap().bot_state.as_ref().unwrap();
    assert!(engine.has_fired((shot.row, shot.col)));
    if expected == CellState::Hit {
        assert_eq!(engine.last_hit, Some((shot.row, shot.col)));
        assert!(!engine.target_queue.is_empty());
    }
}

#[test]
fn refused_exchange_changes_nothing() {
    let mut game = playing(Difficulty::Easy);
    assert!(game.submit_shot((3, 3)).is_ok());
    let human_board = game.player_1.board;
    let fired = game.player_2.as_ref().unwrap().bot_state.as_ref().unwrap().shots_fired.len();
    assert_eq!(game.submit_shot((3, 3)).unwrap_err(), GameError::AlreadyFired);
    assert_eq!(game.submit_shot((10, 3)).unwrap_err(), GameError::OutOfBounds);
    assert_eq!(game.player_1.board, human_board);
    assert_eq!(
        game.player_2.as_ref().unwrap().bot_state.as_ref().unwrap().shots_fired.len(),
        fired
    );
}

#[test]
fn human_win_ends_the_exchange_without_an_answer() {
    let mut game = playing(Difficulty::Easy);
    let cells = fleet_cells();
    for cell in cells.iter().take(16) {
        assert!(game.make_move("User".to_string(), *cell).is_ok());
    }
    let before = game.player_1.board;
    let out = game.submit_shot(cells[16]).unwrap();
    assert_eq!(out.human_result, CellState::Hit);
    assert_eq!(out.bot_shot, None);
    assert_eq!(out.winner, Some("User".to_string()));
    assert_eq!(game.status, GameStatus::Finished);
    assert_eq!(game.player_1.board, before);
}

fn hits_on(board: &[[CellState; 10]; 10]) -> usize {
    board.iter().flatten().filter(|c| **c == CellState::Hit).count()
}

fn exhaust(difficulty: Difficulty) {
    let mut game = Game::create_match(difficulty);
    assert_eq!(game.status, GameStatus::Playing);
    assert!(game.is_ready());
    let mut bot_shots = Vec::new();
    let mut finished = false;
    for row in 0..10 {
        for col in 0..10 {
            if finished {
                let human_board = game.player_1.board;
                let bot_board = game.player_2.as_ref().unwrap().board;
                let winner = game.winner.clone();
                assert_eq!(game.submit_shot((row, col)).unwrap_err(), GameError::MatchFinished);
                assert_eq!(game.submit_shot((0, 0)).unwrap_err(), GameError::AlreadyFired);
                assert_eq!(game.submit_shot((row, 10)).unwrap_err(), GameError::OutOfBounds);
                assert_eq!(game.status, GameStatus::Finished);
                assert_eq!(game.winner, winner);
                assert_eq!(game.player_1.board, human_board);
                assert_eq!(game.player_2.as_ref().unwrap().board, bot_board);
                continue;
            }
            let target_before = game.player_1.board;
            let out = game.submit_shot((row, col)).unwrap();
            if let Some(shot) = out.bot_shot {
                assert!(!bot_shots.contains(&(shot.row, shot.col)));
                assert!(matches!(
                    target_before[shot.row][shot.col],
                    CellState::Empty | CellState::Ship
                ));
                bot_shots.push((shot.row, shot.col));
            }
            let bot = game.player_2.as_ref().unwrap();
            assert_eq!(bot.remaining_health as usize, 17 - hits_on(&bot.board));
            let human = &game.player_1;
            assert_eq!(human.remaining_health as usize, 17 - hits_on(&human.board));
            let over = bot.remaining_health == 0 || human.remaining_health == 0;
            assert_eq!(game.status == GameStatus::Finished, over);
            assert_eq!(out.winner.is_some(), over);
            if over {
                finished = true;
                let name = if bot.remaining_health == 0 { "User" } else { "Bot" };
                assert_eq!(out.winner, Some(name.to_string()));
                assert_eq!(game.winner, Some(name.to_string()));
            } else {
                assert_eq!(
                    game.submit_shot((row, col)).unwrap_err(),
                    GameError::AlreadyFired
                );
            }
        }
    }
    assert!(finished);
    assert_eq!(game.status, GameStatus::Finished);
    assert!(game.winner.is_some());
    assert!(game.is_ready());
}

#[test]
fn exhausting_the_grid_ends_the_match_easy() {
    exhaust(Difficulty::Easy);
}

#[test]
fn exhausting_the_grid_ends_the_match_medium() {
    exhaust(Difficulty::Medium);
}

#[test]
fn exhausting_the_grid_ends_the_match_hard() {
    exhaust(Difficulty::Hard);
}

#[test]
fn finished_match_never_changes() {
    let mut game = playing(Difficulty::Easy);
    for cell in fleet_cells().iter() {
        assert!(game.make_move("Bot".to_string(), *cell).is_ok());
    }
    assert_eq!(game.status, GameStatus::Finished);
    assert_eq!(game.winner, Some("Bot".to_string()));
    let bot_board = game.player_2.as_ref().unwrap().board;
    let human_board = game.player_1.board;
    for cell in fleet_cells().iter() {
        assert_eq!(
            game.make_move("User".to_string(), *cell),
            Err(GameError::MatchFinished)
        );
    }
    assert_eq!(game.make_move("Bot".to_string(), (9, 9)), Err(GameError::MatchFinished));
    assert_eq!(game.make_move("Bot".to_string(), (0, 0)), Err(GameError::AlreadyFired));
    assert_eq!(game.make_move("Bot".to_string(), (0, 10)), Err(GameError::OutOfBounds));
    assert_eq!(game.make_move("User".to_string(), (10, 10)), Err(GameError::OutOfBounds));
    assert_eq!(game.submit_shot((9, 9)).unwrap_err(), GameError::MatchFinished);
    assert_eq!(game.submit_shot((10, 9)).unwrap_err(), GameError::OutOfBounds);
    assert_eq!(game.status, GameStatus::Finished);
    assert_eq!(game.winner, Some("Bot".to_string()));
    assert_eq!(game.player_2.as_ref().unwrap().board, bot_board);
    assert_eq!(game.player_2.as_ref().unwrap().remaining_health, 17);
    assert_eq!(game.player_1.board, human_board);
    assert_eq!(game.player_1.remaining_health, 0);
    let fired = game.player_2.as_ref().unwrap().bot_state.as_ref().unwrap();
    assert!(fired.shots_fired.is_empty());
}

#[test]
fn finished_match_takes_no_second_side() {
    let mut game = Game::new(side("User", None));
    for cell in fleet_cells().iter() {
        assert!(game.make_move("Stranger".to_string(), *cell).is_ok());
    }
    assert_eq!(game.status, GameStatus::Finished);
    assert_eq!(game.winner, Some("Stranger".to_string()));
    assert_eq!(game.join_game(side("Bot", None)), Err(GameError::MatchFinished));
    assert_eq!(game.status, GameStatus::Finished);
    assert!(game.player_2.is_none());
    assert_eq!(game.make_move("User".to_string(), (0, 0)), Err(GameError::OpponentMissing));
    assert_eq!(game.make_move("Stranger".to_string(), (0, 0)), Err(GameError::AlreadyFired));
    assert_eq!(game.make_move("Stranger".to_string(), (9, 9)), Err(GameError::MatchFinished));
    assert_eq!(game.make_move("Stranger".to_string(), (9, 10)), Err(GameError::OutOfBounds));
}

#[test]
fn exhausted_grid_rejects_the_next_shot() {
    let mut game = playing(Difficulty::Easy);
    let fleet = fleet_cells();
    let last = fleet[16];
    let mut shots = 0;
    for row in 0..10 {
        for col in 0..10 {
            if (row, col) != last {
                let res = game.make_move("User".to_string(), (row, col)).unwrap();
                assert_eq!(res.1, None);
                shots += 1;
            }
        }
    }
    assert_eq!(shots, 99);
    assert_eq!(game.status, GameStatus::Playing);
    let res = game.make_move("User".to_string(), last);
    assert_eq!(res, Ok((CellState::Hit, Some("User".to_string()))));
    assert_eq!(game.status, GameStatus::Finished);
    assert_eq!(game.winner, Some("User".to_string()));
    let bot_board = game.player_2.as_ref().unwrap().board;
    for row in 0..10 {
        for col in 0..10 {
            assert_eq!(
                game.make_move("User".to_string(), (row, col)),
                Err(GameError::AlreadyFired)
            );
            assert_eq!(game.submit_shot((row, col)).unwrap_err(), GameError::AlreadyFired);
        }
    }
    assert_eq!(game.player_2.as_ref().unwrap().board, bot_board);
    assert_eq!(game.player_2.as_ref().unwrap().remaining_health, 0);
    assert_eq!(game.player_1.remaining_health, 17);
    assert_eq!(game.winner, Some("User".to_string()));
}

#[test]
fn clones_are_equal_and_independent() {
    let mut game = playing(Difficulty::Medium);
    assert!(game.submit_shot((0, 0)).is_ok());
    assert!(game.submit_shot((5, 5)).is_ok());
    let copy = game.clone();
    assert_eq!(copy.id, game.id);
    assert_eq!(copy.status, game.status);
    assert_eq!(copy.winner, game.winner);
    assert_eq!(copy.current_turn, game.current_turn);
    assert_eq!(copy.player_1.board, game.player_1.board);
    assert_eq!(copy.player_1.remaining_health, game.player_1.remaining_health);
    assert_eq!(copy.player_1.ships.len(), 5);
    let twin = copy.player_2.as_ref().unwrap();
    let bot = game.player_2.as_ref().unwrap();
    assert_eq!(twin.board, bot.board);
    assert_eq!(twin.id, bot.id);
    let twin_engine = twin.bot_state.as_ref().unwrap();
    let engine = bot.bot_state.as_ref().unwrap();
    assert_eq!(twin_engine.shots_fired, engine.shots_fired);
    assert_eq!(twin_engine.shots_fired.len(), 2);
    assert_eq!(twin_engine.target_queue, engine.target_queue);
    assert_eq!(twin_engine.last_hit, engine.last_hit);
    assert_eq!(twin_engine.difficulty, engine.difficulty);
    assert!(game.submit_shot((9, 9)).is_ok());
    assert_eq!(copy.player_2.as_ref().unwrap().board[9][9], CellState::Empty);
    assert_eq!(copy.player_2.as_ref().unwrap().bot_state.as_ref().unwrap().shots_fired.len(), 2);
    assert!(copy.is_ready());
}

#[test]
fn full_match_refuses_a_join_even_when_finished() {
    let mut game = playing(Difficulty::Easy);
    for cell in fleet_cells().iter() {
        assert!(game.make_move("User".to_string(), *cell).is_ok());
    }
    assert_eq!(game.status, GameStatus::Finished);
    assert_eq!(game.join_game(side("Other", None)), Err(GameError::MatchFull));
    assert_eq!(game.status, GameStatus::Finished);
    assert_eq!(game.winner, Some("User".to_string()));
}

#[test]
fn readiness_is_checked_by_counting() {
    let mut game = playing(Difficulty::Medium);
    assert!(game.is_ready());
    assert!(game.submit_shot((0, 0)).is_ok());
    assert!(game.is_ready());
    game.player_1.remaining_health = 3;
    assert!(!game.is_ready());
    game.player_1.remaining_health = 17 - hits_on(&game.player_1.board) as u8;
    assert!(game.is_ready());
    game.player_2.as_mut().unwrap().board[9][9] = CellState::Ship;
    assert!(!game.is_ready());
    game.player_2.as_mut().unwrap().board[9][9] = CellState::Empty;
    assert!(game.is_ready());
    let engine = game.player_2.as_mut().unwrap().bot_state.as_mut().unwrap();
    engine.target_queue.push_back((10, 0));
    assert!(!engine.is_wf());
    assert!(!game.is_ready());
}

#[test]
fn created_match_is_ready() {
    let game = Game::create_match(Difficulty::Hard);
    assert_eq!(game.status, GameStatus::Playing);
    assert_eq!(game.player_1.id, "User");
    assert_eq!(game.current_turn, "User");
    let bot = game.player_2.as_ref().unwrap();
    assert_eq!(bot.id, "Bot");
    assert!(bot.is_bot);
    assert_eq!(bot.bot_state.as_ref().unwrap().difficulty, Difficulty::Hard);
    assert_eq!(game.initial_view(), game.player_1.board);
    assert_eq!(
        game.initial_view().iter().flatten().filter(|c| **c == CellState::Ship).count(),
        17
    );
}
