use battleship::{
    parse_shot, CellState, Direction, GameError, PlacementError, Player, Ship, FLEET_CELLS,
};

fn blank_side() -> Player {
    Player {
        id: "side".to_string(),
        is_bot: false,
        board: [[CellState::Empty; 10]; 10],
        ships: Vec::new(),
        remaining_health: FLEET_CELLS,
        bot_state: None,
    }
}

fn ship(id: &str, len: u8, row: usize, col: usize, dir: Direction) -> Ship {
    Ship { id: id.to_string(), len, hits: 0, coordinates: (row, col), dir }
}

fn count(side: &Player, state: CellState) -> usize {
    side.board.iter().flatten().filter(|cell| **cell == state).count()
}

fn standard_side() -> Player {
    let mut side = blank_side();
    assert_eq!(side.place_ship(ship("a", 5, 0, 0, Direction::Horizontal)), Ok(()));
    assert_eq!(side.place_ship(ship("b", 4, 2, 0, Direction::Horizontal)), Ok(()));
    assert_eq!(side.place_ship(ship("c", 3, 4, 0, Direction::Horizontal)), Ok(()));
    assert_eq!(side.place_ship(ship("d", 3, 6, 0, Direction::Horizontal)), Ok(()));
    assert_eq!(side.place_ship(ship("e", 2, 8, 0, Direction::Vertical)), Ok(()));
    side
}

#[test]
fn place_marks_exactly_the_cells_of_the_ship() {
    let mut side = blank_side();
    assert_eq!(side.place_ship(ship("a", 3, 2, 4, Direction::Horizontal)), Ok(()));
    for row in 0..10 {
        for col in 0..10 {
            let expected = if row == 2 && (4..7).contains(&col) {
                CellState::Ship
            } else {
                CellState::Empty
            };
            assert_eq!(side.board[row][col], expected);
        }
    }
    assert_eq!(side.ships.len(), 1);
    assert_eq!(side.ships[0].coordinates, (2, 4));
    assert_eq!(side.remaining_health, 17);
}

#[test]
fn place_vertical_grows_the_row() {
    let mut side = blank_side();
    assert_eq!(side.place_ship(ship("a", 4, 6, 9, Direction::Vertical)), Ok(()));
    for row in 6..10 {
        assert_eq!(side.board[row][9], CellState::Ship);
    }
    assert_eq!(count(&side, CellState::Ship), 4);
}

#[test]
fn place_out_of_bounds_changes_nothing() {
    let mut side = blank_side();
    let res = side.place_ship(ship("a", 5, 0, 6, Direction::Horizontal));
    assert_eq!(res, Err(PlacementError::OutOfBounds));
    assert_eq!(count(&side, CellState::Empty), 100);
    assert!(side.ships.is_empty());
    let res = side.place_ship(ship("a", 2, 9, 0, Direction::Vertical));
    assert_eq!(res, Err(PlacementError::OutOfBounds));
    let res = side.place_ship(ship("a", 2, 10, 0, Direction::Horizontal));
    assert_eq!(res, Err(PlacementError::OutOfBounds));
    let res = side.place_ship(ship("a", 2, 0, usize::MAX, Direction::Horizontal));
    assert_eq!(res, Err(PlacementError::OutOfBounds));
    assert_eq!(count(&side, CellState::Empty), 100);
}

#[test]
fn place_collision_names_the_first_taken_cell() {
    let mut side = blank_side();
    assert_eq!(side.place_ship(ship("a", 3, 2, 4, Direction::Horizontal)), Ok(()));
    let res = side.place_ship(ship("b", 4, 0, 5, Direction::Vertical));
    assert_eq!(res, Err(PlacementError::Collision { row: 2, col: 5 }));
    assert_eq!(count(&side, CellState::Ship), 3);
    assert_eq!(side.ships.len(), 1);
}

#[test]
fn place_reports_the_first_obstacle_from_the_anchor() {
    let mut side = blank_side();
    assert_eq!(side.place_ship(ship("a", 2, 0, 8, Direction::Vertical)), Ok(()));
    // the taken cell (0, 8) comes before the cell off the grid
    let res = side.place_ship(ship("b", 5, 0, 7, Direction::Horizontal));
    assert_eq!(res, Err(PlacementError::Collision { row: 0, col: 8 }));
}

#[test]
fn place_ship_of_length_zero_takes_no_cell() {
    let mut side = blank_side();
    assert_eq!(side.place_ship(ship("a", 0, 50, 50, Direction::Horizontal)), Ok(()));
    assert_eq!(count(&side, CellState::Empty), 100);
    assert_eq!(side.ships.len(), 1);
}

#[test]
fn probe_agrees_with_place() {
    let mut side = blank_side();
    assert_eq!(side.probe((3, 3), Direction::Horizontal, 4), Ok(()));
    assert_eq!(side.place_ship(ship("a", 4, 3, 3, Direction::Horizontal)), Ok(()));
    assert_eq!(
        side.probe((1, 4), Direction::Vertical, 3),
        Err(PlacementError::Collision { row: 3, col: 4 })
    );
    assert_eq!(side.probe((8, 0), Direction::Vertical, 3), Err(PlacementError::OutOfBounds));
}

#[test]
fn first_fit_takes_the_first_free_position() {
    let mut side = blank_side();
    assert_eq!(side.first_fit(5), Some(((0, 0), Direction::Horizontal)));
    assert_eq!(side.place_ship(ship("a", 5, 0, 0, Direction::Horizontal)), Ok(()));
    assert_eq!(side.first_fit(5), Some(((0, 5), Direction::Horizontal)));
    assert_eq!(side.place_ship(ship("b", 5, 0, 5, Direction::Horizontal)), Ok(()));
    assert_eq!(side.first_fit(2), Some(((1, 0), Direction::Horizontal)));
    for row in 0..10 {
        for col in 0..10 {
            side.board[row][col] = CellState::Miss;
        }
    }
    assert_eq!(side.first_fit(1), None);
}

#[test]
fn shot_on_empty_cell_is_a_miss() {
    let mut side = standard_side();
    assert_eq!(side.receive_shot((9, 9)), Ok(CellState::Miss));
    assert_eq!(side.board[9][9], CellState::Miss);
    assert_eq!(side.remaining_health, 17);
}

#[test]
fn shot_on_ship_cell_is_a_hit_and_costs_health() {
    let mut side = standard_side();
    assert_eq!(side.receive_shot((0, 2)), Ok(CellState::Hit));
    assert_eq!(side.board[0][2], CellState::Hit);
    assert_eq!(side.remaining_health, 16);
    assert_eq!(count(&side, CellState::Ship), 16);
}

#[test]
fn shot_out_of_bounds_is_refused() {
    let mut side = standard_side();
    assert_eq!(side.receive_shot((10, 0)), Err(GameError::OutOfBounds));
    assert_eq!(side.receive_shot((0, 10)), Err(GameError::OutOfBounds));
    assert_eq!(side.receive_shot((usize::MAX, usize::MAX)), Err(GameError::OutOfBounds));
    assert_eq!(side.remaining_health, 17);
    assert_eq!(count(&side, CellState::Ship), 17);
    assert_eq!(count(&side, CellState::Empty), 83);
}

#[test]
fn second_shot_at_a_resolved_cell_is_refused() {
    let mut side = standard_side();
    assert_eq!(side.receive_shot((0, 0)), Ok(CellState::Hit));
    assert_eq!(side.receive_shot((5, 5)), Ok(CellState::Miss));
    let health = side.remaining_health;
    assert_eq!(side.receive_shot((0, 0)), Err(GameError::AlreadyFired));
    assert_eq!(side.receive_shot((5, 5)), Err(GameError::AlreadyFired));
    assert_eq!(side.remaining_health, health);
    assert_eq!(side.board[0][0], CellState::Hit);
    assert_eq!(side.board[5][5], CellState::Miss);
}

#[test]
fn health_is_fleet_total_less_hits_after_any_shots() {
    let mut side = standard_side();
    let mut step: usize = 7;
    for _ in 0..300 {
        step = (step * 31 + 11) % 101;
        let coord = (step / 10, step % 10);
        let _ = side.receive_shot(coord);
        let hits = count(&side, CellState::Hit);
        assert_eq!(side.remaining_health as usize, 17 - hits);
        assert!(side.remaining_health <= 17);
    }
}

#[test]
fn sinking_the_whole_fleet_brings_health_to_zero() {
    let mut side = standard_side();
    for row in 0..10 {
        for col in 0..10 {
            assert!(side.receive_shot((row, col)).is_ok());
        }
    }
    assert_eq!(side.remaining_health, 0);
    assert_eq!(count(&side, CellState::Hit), 17);
    assert_eq!(count(&side, CellState::Miss), 83);
}

#[test]
fn error_messages() {
    assert_eq!(GameError::OutOfBounds.message(), "shot out of bounds");
    assert_eq!(GameError::AlreadyFired.message(), "already fired here!");
    assert_eq!(GameError::MatchNotFound.message(), "Game not found");
    assert_eq!(GameError::OpponentMissing.message(), "Player 2 missing");
    assert_eq!(GameError::MatchFull.message(), "game full");
    assert_eq!(GameError::MatchFinished.message(), "game finished");
}

#[test]
fn parse_shot_reads_row_and_column() {
    assert_eq!(parse_shot(b"3,4"), Some((3, 4)));
    assert_eq!(parse_shot(b"0,0"), Some((0, 0)));
    assert_eq!(parse_shot(b"12,007"), Some((12, 7)));
    assert_eq!(parse_shot(b"+5,+6"), Some((5, 6)));
}

#[test]
fn parse_shot_needs_exactly_one_comma() {
    assert_eq!(parse_shot(b""), None);
    assert_eq!(parse_shot(b"34"), None);
    assert_eq!(parse_shot(b"1,2,3"), None);
    assert_eq!(parse_shot(b",,"), None);
}

#[test]
fn parse_shot_counts_bad_numbers_as_zero() {
    assert_eq!(parse_shot(b","), Some((0, 0)));
    assert_eq!(parse_shot(b"a,b"), Some((0, 0)));
    assert_eq!(parse_shot(b"7,"), Some((7, 0)));
    assert_eq!(parse_shot(b" 7,8"), Some((0, 8)));
    assert_eq!(parse_shot(b"-1,2"), Some((0, 2)));
    assert_eq!(parse_shot(b"+,2"), Some((0, 2)));
    assert_eq!(parse_shot(b"++1,2"), Some((0, 2)));
    assert_eq!(parse_shot(b"1.5,2"), Some((0, 2)));
    assert_eq!(parse_shot(b"99999999999999999999999999,2"), Some((0, 2)));
    let max = format!("{},{}", usize::MAX, usize::MAX);
    assert_eq!(parse_shot(max.as_bytes()), Some((usize::MAX, usize::MAX)));
    let text = "18446744073709551616,1";
    let expected = text.split(',').next().unwrap().parse::<usize>().unwrap_or(0);
    assert_eq!(parse_shot(text.as_bytes()), Some((expected, 1)));
}

#[test]
fn parse_shot_agrees_with_the_standard_parser() {
    for text in ["5,5", "05,+3", "x,1", "1,x", "+,+", "1 ,2", "10,10", "255,65536"] {
        let parts: Vec<&str> = text.split(',').collect();
        let expected = if parts.len() == 2 {
            Some((parts[0].parse().unwrap_or(0), parts[1].parse().unwrap_or(0)))
        } else {
            None
        };
        assert_eq!(parse_shot(text.as_bytes()), expected);
    }
}
