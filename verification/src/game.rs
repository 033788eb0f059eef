//! The match state machine: creation, joining, the resolution of one shot
//! and the exchange of a human shot with the scripted side's answer.
//!
//! A match is won by the side whose shots have hit every cell of the
//! opposing fleet: the destruction threshold is the fleet total, 17. A
//! finished match never changes again. The struck side still answers for
//! itself first, so a missing side, a coordinate off the grid and a
//! resolved cell are reported as ever; only a shot that the board would
//! accept is refused as `MatchFinished`.

use crate::board::{Player, FLEET_CELLS};
use crate::bot::{BotState, BotView, Difficulty};
use crate::entropy::fresh_match_id;
use crate::error::GameError;
use crate::fleet::unshot;
use crate::grid::{cell_at, in_bounds, CellState, GRID_SIZE};
use vstd::prelude::*;

verus! {

/// Hits that a side must land to win: every cell of the opposing fleet.
pub const WIN_THRESHOLD: u8 = 17;

/// Lifecycle of a match. It only moves forward.
#[derive(Debug, Clone, Copy, PartialEq, Eq, Structural)]
pub enum GameStatus {
    Waiting,
    Playing,
    Finished,
}

/// A match between the side that created it and the side that joined.
#[derive(Debug)]
pub struct Game {
    pub id: String,
    pub status: GameStatus,
    pub player_1: Player,
    pub player_2: Option<Player>,
    pub current_turn: String,
    pub winner: Option<String>,
}

impl Clone for Game {
    fn clone(&self) -> (copy: Game)
        ensures
            copy.id@ == self.id@,
            copy.status == self.status,
            copy.current_turn@ == self.current_turn@,
            match self.winner {
                Some(name) => copy.winner matches Some(twin) && twin@ == name@,
                None => copy.winner.is_none(),
            },
            copy.player_1.board == self.player_1.board,
            copy.player_1.remaining_health == self.player_1.remaining_health,
            copy.player_1.id@ == self.player_1.id@,
            copy.player_1.ships@ == self.player_1.ships@,
            match self.player_2 {
                Some(second) => copy.player_2 matches Some(twin) && twin.board == second.board
                    && twin.remaining_health == second.remaining_health && twin.id@ == second.id@
                    && twin.ships@ == second.ships@,
                None => copy.player_2.is_none(),
            },
            copy.ready() == self.ready(),
            copy.settled() == self.settled(),
    {
        let player_2: Option<Player> = match &self.player_2 {
            Some(second) => Some(second.clone()),
            None => None,
        };
        let winner: Option<String> = match &self.winner {
            Some(name) => Some(name.clone()),
            None => None,
        };
        Game {
            id: self.id.clone(),
            status: self.status,
            player_1: self.player_1.clone(),
            player_2,
            current_turn: self.current_turn.clone(),
            winner,
        }
    }
}

/// The answering shot of the scripted side.
#[derive(Debug, Clone, Copy, PartialEq, Eq, Structural)]
pub struct BotShot {
    pub row: usize,
    pub col: usize,
    pub result: CellState,
}

/// What one exchange produced: the outcome of the human shot, the answer
/// of the scripted side if it fired, and the winner if the exchange ended
/// the match.
#[derive(Debug)]
pub struct TurnOutcome {
    pub human_result: CellState,
    pub bot_shot: Option<BotShot>,
    pub winner: Option<String>,
}

/// Whether a side with `remaining_health` left has lost its fleet.
pub open spec fn destroyed(remaining_health: u8) -> bool {
    FLEET_CELLS - remaining_health >= WIN_THRESHOLD
}

impl Game {
    /// Well-formedness: both sides are well-formed.
    pub open spec fn wf(&self) -> bool {
        &&& self.player_1.wf()
        &&& self.player_2 matches Some(second) ==> second.wf()
    }

    /// Both sides are ready to take shots; see [`Player::ready`].
    pub open spec fn ready(&self) -> bool {
        &&& self.player_1.ready()
        &&& self.player_2 matches Some(second) ==> second.ready()
    }

    /// The side that a shot against the second side (`at_second`) or the
    /// first would strike, if it is present.
    pub open spec fn struck_side(&self, at_second: bool) -> Option<Player> {
        if at_second {
            self.player_2
        } else {
            Some(self.player_1)
        }
    }

    /// What a shot against the second side (`at_second`) or the first
    /// returns, winner aside. The struck side decides first: a missing
    /// side gives `OpponentMissing`, and an error of its board is passed
    /// on as it is, whatever the status. A shot that the board would
    /// accept is refused as `MatchFinished` on a finished match.
    pub open spec fn aimed_verdict(&self, at_second: bool, target: (usize, usize)) -> Result<
        CellState,
        GameError,
    > {
        match self.struck_side(at_second) {
            Some(opponent) => match opponent.shot_verdict(target) {
                Ok(outcome) => if self.status == GameStatus::Finished {
                    Err(GameError::MatchFinished)
                } else {
                    Ok(outcome)
                },
                Err(error) => Err(error),
            },
            None => Err(GameError::OpponentMissing),
        }
    }

    /// What a request to join returns: `MatchFull` when a second side is
    /// present, `MatchFinished` when the match is finished, and success
    /// otherwise.
    pub open spec fn join_verdict(&self) -> Result<(), GameError> {
        if self.player_2.is_some() {
            Err(GameError::MatchFull)
        } else if self.status == GameStatus::Finished {
            Err(GameError::MatchFinished)
        } else {
            Ok(())
        }
    }

    /// The side that a shot by `player_id` is aimed at: the second side
    /// for the first side's identifier, the first side for any other.
    pub open spec fn target_of(&self, player_id: Seq<char>) -> Option<Player> {
        if player_id == self.player_1.id@ {
            self.player_2
        } else {
            Some(self.player_1)
        }
    }

    /// What a shot by `player_id` at `target` returns, winner aside.
    pub open spec fn move_verdict(&self, player_id: Seq<char>, target: (usize, usize)) -> Result<
        CellState,
        GameError,
    > {
        self.aimed_verdict(player_id == self.player_1.id@, target)
    }

    /// The status has kept up with the boards: a match in which a side is
    /// destroyed is finished, and a finished match has a winner.
    pub open spec fn settled(&self) -> bool {
        &&& destroyed(self.player_1.remaining_health) ==> self.status == GameStatus::Finished
        &&& self.player_2 matches Some(second) ==> (destroyed(second.remaining_health)
            ==> self.status == GameStatus::Finished)
        &&& self.status == GameStatus::Finished ==> self.winner.is_some()
    }

    /// The scripted side has been told of every cell that is resolved on
    /// the first side's board: its engine never fires at such a cell.
    pub open spec fn bot_in_step(&self) -> bool {
        self.player_2 matches Some(second) ==> (second.bot_state matches Some(engine)
            ==> forall|row: int, col: int|
            0 <= row < GRID_SIZE && 0 <= col < GRID_SIZE && (#[trigger] cell_at(
                self.player_1.board,
                row,
                col,
            )).resolved() ==> engine@.fired.contains((row as usize, col as usize)))
    }

    /// `after` is `self` after an accepted shot by `shooter` at `target`
    /// against the second side (`at_second`) or the first: the match was
    /// not finished, the shot has landed on that side and nothing else of
    /// the two sides differs; if the side is thereby destroyed the match
    /// is finished and `shooter` has won, and otherwise status and winner
    /// are as before.
    pub open spec fn shot_resolved(
        &self,
        after: Game,
        at_second: bool,
        shooter: Seq<char>,
        target: (usize, usize),
    ) -> bool {
        &&& self.status != GameStatus::Finished
        &&& after.id == self.id
        &&& after.current_turn == self.current_turn
        &&& if at_second {
            &&& after.player_1 == self.player_1
            &&& self.player_2 matches Some(before)
            &&& after.player_2 matches Some(struck)
            &&& before.shot_applied(struck, target)
            &&& self.verdict_recorded(after, struck.remaining_health, shooter)
        } else {
            &&& after.player_2 == self.player_2
            &&& self.player_1.shot_applied(after.player_1, target)
            &&& self.verdict_recorded(after, after.player_1.remaining_health, shooter)
        }
    }

    /// Status and winner of `after`, given the health that the struck side
    /// has left.
    pub open spec fn verdict_recorded(
        &self,
        after: Game,
        remaining_health: u8,
        shooter: Seq<char>,
    ) -> bool {
        if destroyed(remaining_health) {
            &&& after.status == GameStatus::Finished
            &&& after.winner matches Some(name)
            &&& name@ == shooter
        } else {
            &&& after.status == self.status
            &&& after.winner == self.winner
        }
    }

    /// Tells whether both sides are ready; see [`Player::is_ready`].
    pub fn is_ready(&self) -> (ok: bool)
        ensures
            ok == self.ready(),
    {
        if !self.player_1.is_ready() {
            return false;
        }
        match &self.player_2 {
            Some(second) => second.is_ready(),
            None => true,
        }
    }

    /// Creates a match against the scripted side: a human side `"User"`
    /// and a scripted side `"Bot"` of the given tier, each with a random
    /// fleet, joined and ready to play.
    pub fn create_match(difficulty: Difficulty) -> (game: Game)
        ensures
            game.wf(),
            game.bot_in_step(),
            game.settled(),
            game.status == GameStatus::Playing,
            game.winner.is_none(),
            game.id@.len() == 36,
            game.current_turn@ == "User"@,
            game.player_1.id@ == "User"@,
            !game.player_1.is_bot,
            game.player_1.bot_state.is_none(),
            game.player_1.remaining_health == FLEET_CELLS,
            game.player_1.intact_cells() == FLEET_CELLS,
            unshot(game.player_1.board),
            game.player_2 matches Some(second) && {
                &&& second.id@ == "Bot"@
                &&& second.is_bot
                &&& second.bot_state matches Some(engine) && engine@ == BotView::fresh(difficulty)
                &&& second.remaining_health == FLEET_CELLS
                &&& second.intact_cells() == FLEET_CELLS
                &&& unshot(second.board)
            },
    {
        let human = Player::new("User".to_string(), false, Difficulty::Easy);
        let bot = Player::new("Bot".to_string(), true, difficulty);
        let mut game = Game::new(human);
        let joined = game.join_game(bot);
        assert(joined.is_ok());
        game
    }

    /// The first side's grid, its own ships included, as shown to the
    /// human player when play begins.
    pub fn initial_view(&self) -> (board: crate::grid::Board)
        ensures
            board == self.player_1.board,
    {
        self.player_1.board
    }

    /// A new match that waits for its second side. The identifier is
    /// random; the first side holds the turn.
    pub fn new(player_1: Player) -> (game: Game)
        ensures
            game.status == GameStatus::Waiting,
            game.player_1 == player_1,
            game.player_2.is_none(),
            game.current_turn@ == player_1.id@,
            game.winner.is_none(),
            game.id@.len() == 36,
            !destroyed(player_1.remaining_health) ==> game.settled(),
    {
        let first_turn = player_1.id.clone();
        Game {
            id: fresh_match_id(),
            status: GameStatus::Waiting,
            player_1,
            player_2: None,
            current_turn: first_turn,
            winner: None,
        }
    }

    /// Attaches the second side and starts play. Refused, with nothing
    /// changed, as `MatchFull` when a second side is present and as
    /// `MatchFinished` when the match is finished.
    pub fn join_game(&mut self, player_2: Player) -> (res: Result<(), GameError>)
        ensures
            res.is_ok() == old(self).join_verdict().is_ok(),
            old(self).status == GameStatus::Finished ==> *final(self) == *old(self),
            old(self).settled() && !destroyed(player_2.remaining_health)
                ==> final(self).settled(),
            match res {
                Ok(_) => {
                    &&& old(self).player_2.is_none()
                    &&& old(self).status != GameStatus::Finished
                    &&& final(self).player_2 == Some(player_2)
                    &&& final(self).status == GameStatus::Playing
                    &&& final(self).id == old(self).id
                    &&& final(self).player_1 == old(self).player_1
                    &&& final(self).current_turn == old(self).current_turn
                    &&& final(self).winner == old(self).winner
                },
                Err(error) => {
                    &&& old(self).join_verdict() == Err::<(), GameError>(error)
                    &&& *final(self) == *old(self)
                },
            },
    {
        if self.player_2.is_some() {
            Err(GameError::MatchFull)
        } else if self.status == GameStatus::Finished {
            Err(GameError::MatchFinished)
        } else {
            self.player_2 = Some(player_2);
            self.status = GameStatus::Playing;
            Ok(())
        }
    }

    /// Resolves one shot against the second side (`at_second`) or the
    /// first, on behalf of `shooter`.
    fn resolve(&mut self, at_second: bool, shooter: String, target: (usize, usize)) -> (res: Result<
        (CellState, Option<String>),
        GameError,
    >)
        requires
            old(self).ready(),
        ensures
            final(self).ready(),
            old(self).wf() ==> final(self).wf(),
            old(self).status == GameStatus::Finished ==> *final(self) == *old(self),
            old(self).settled() ==> final(self).settled(),
            match res {
                Ok((outcome, winner)) => {
                    &&& old(self).shot_resolved(*final(self), at_second, shooter@, target)
                    &&& old(self).aimed_verdict(at_second, target) == Ok::<CellState, GameError>(
                        outcome,
                    )
                    &&& winner.is_some() == destroyed(
                        (if at_second {
                            final(self).player_2.unwrap()
                        } else {
                            final(self).player_1
                        }).remaining_health,
                    )
                    &&& match winner {
                        Some(name) => name@ == shooter@ && final(self).status
                            == GameStatus::Finished,
                        None => final(self).status == old(self).status && final(self).winner
                            == old(self).winner,
                    }
                },
                Err(error) => {
                    &&& *final(self) == *old(self)
                    &&& old(self).aimed_verdict(at_second, target) == Err::<
                        CellState,
                        GameError,
                    >(error)
                },
            },
    {
        if self.status == GameStatus::Finished {
            let verdict = if at_second {
                match &self.player_2 {
                    Some(opponent) => opponent.shot_verdict_of(target),
                    None => Err(GameError::OpponentMissing),
                }
            } else {
                self.player_1.shot_verdict_of(target)
            };
            return match verdict {
                Ok(_) => Err(GameError::MatchFinished),
                Err(error) => Err(error),
            };
        }
        let outcome: CellState;
        let remaining: u8;
        if at_second {
            match &mut self.player_2 {
                Some(opponent) => {
                    match opponent.receive_shot(target) {
                        Ok(cell) => {
                            outcome = cell;
                            remaining = opponent.remaining_health;
                        },
                        Err(error) => {
                            return Err(error);
                        },
                    }
                },
                None => {
                    return Err(GameError::OpponentMissing);
                },
            }
        } else {
            match self.player_1.receive_shot(target) {
                Ok(cell) => {
                    outcome = cell;
                    remaining = self.player_1.remaining_health;
                },
                Err(error) => {
                    return Err(error);
                },
            }
        }
        let hits_made: u8 = FLEET_CELLS - remaining;
        if hits_made >= WIN_THRESHOLD {
            self.status = GameStatus::Finished;
            self.winner = Some(shooter.clone());
            return Ok((outcome, Some(shooter)));
        }
        Ok((outcome, None))
    }

    /// Resolves a shot by `player_id` at `target`.
    ///
    /// The first side's identifier aims at the second side and is refused
    /// as `OpponentMissing` while there is none; any other identifier aims
    /// at the first side. A refusal by the board is passed on unchanged,
    /// whatever the status; a shot that the board would accept is refused
    /// as `MatchFinished` on a finished match. A refused shot changes
    /// nothing, and a finished match never changes. An accepted shot that
    /// brings
    /// the hits on the struck side to the threshold finishes the match
    /// with `player_id` as its winner, who is then also returned.
    pub fn make_move(&mut self, player_id: String, target: (usize, usize)) -> (res: Result<
        (CellState, Option<String>),
        GameError,
    >)
        requires
            old(self).ready(),
        ensures
            final(self).ready(),
            old(self).wf() ==> final(self).wf(),
            old(self).status == GameStatus::Finished ==> *final(self) == *old(self),
            old(self).settled() ==> final(self).settled(),
            match res {
                Ok((outcome, winner)) => {
                    &&& old(self).move_verdict(player_id@, target) == Ok::<CellState, GameError>(
                        outcome,
                    )
                    &&& old(self).shot_resolved(
                        *final(self),
                        player_id@ == old(self).player_1.id@,
                        player_id@,
                        target,
                    )
                    &&& winner.is_some() == destroyed(
                        final(self).target_of(player_id@).unwrap().remaining_health,
                    )
                    &&& match winner {
                        Some(name) => name@ == player_id@ && final(self).status
                            == GameStatus::Finished,
                        None => final(self).status == old(self).status && final(self).winner
                            == old(self).winner,
                    }
                },
                Err(error) => {
                    &&& old(self).move_verdict(player_id@, target) == Err::<CellState, GameError>(
                        error,
                    )
                    &&& *final(self) == *old(self)
                },
            },
    {
        let at_second: bool = player_id == self.player_1.id;
        self.resolve(at_second, player_id, target)
    }
}

/// The engine `before` handed out `coord`, was told `result` and is now
/// `after`. A side without an engine always aims at `(0, 0)`.
pub open spec fn engine_fired(
    before: Option<BotState>,
    after: Option<BotState>,
    coord: (usize, usize),
    result: CellState,
) -> bool {
    match before {
        Some(engine) => {
            &&& after matches Some(next)
            &&& exists|mid: BotView| #[trigger]
                engine@.hands_out(mid, Some(coord)) && next@ == mid.after_result(coord, result)
            &&& next.shots_fired@ == engine.keys_after(Some(coord))
        },
        None => after.is_none() && coord == (0usize, 0usize),
    }
}

/// The engine `before` is now `after` and no shot of it landed on
/// `target`: it had no cell to hand out, or the cell it handed out was
/// refused by the board.
pub open spec fn engine_idle(
    before: Option<BotState>,
    after: Option<BotState>,
    target: Player,
) -> bool {
    match before {
        Some(engine) => after matches Some(next) && {
            ||| engine@.hands_out(next@, None) && next.shots_fired@ == engine.shots_fired@
            ||| exists|coord: (usize, usize)|
                {
                    &&& #[trigger] engine@.hands_out(next@, Some(coord))
                    &&& next.shots_fired@ == engine.keys_after(Some(coord))
                    &&& target.shot_verdict(coord).is_err()
                }
        },
        None => after.is_none() && target.shot_verdict((0usize, 0usize)).is_err(),
    }
}

impl Game {
    /// `after` and `out` are what one exchange makes of `self`.
    ///
    /// The human shot lands on the second side. If it destroys that side
    /// the human has won and nothing else happens. Otherwise the scripted
    /// side is asked for a coordinate; its shot, if the first side's board
    /// accepts it, lands there, is fed back to the engine and may win the
    /// match for the scripted side.
    pub open spec fn turn_played(
        &self,
        after: Game,
        target: (usize, usize),
        out: TurnOutcome,
    ) -> bool {
        &&& self.status != GameStatus::Finished
        &&& after.id == self.id
        &&& after.current_turn == self.current_turn
        &&& self.player_2 matches Some(before)
        &&& after.player_2 matches Some(second)
        &&& before.shot_lands(second, target)
        &&& Ok::<CellState, GameError>(out.human_result) == before.shot_verdict(target)
        &&& if destroyed(second.remaining_health) {
            &&& after.player_1 == self.player_1
            &&& second.bot_state == before.bot_state
            &&& out.bot_shot.is_none()
            &&& after.status == GameStatus::Finished
            &&& after.winner matches Some(name) && name@ == self.player_1.id@
            &&& out.winner matches Some(name) && name@ == self.player_1.id@
        } else {
            match out.bot_shot {
                Some(shot) => {
                    &&& self.player_1.shot_applied(after.player_1, (shot.row, shot.col))
                    &&& Ok::<CellState, GameError>(shot.result) == self.player_1.shot_verdict(
                        (shot.row, shot.col),
                    )
                    &&& engine_fired(
                        before.bot_state,
                        second.bot_state,
                        (shot.row, shot.col),
                        shot.result,
                    )
                    &&& if destroyed(after.player_1.remaining_health) {
                        &&& after.status == GameStatus::Finished
                        &&& after.winner matches Some(name) && name@ == before.id@
                        &&& out.winner matches Some(name) && name@ == before.id@
                    } else {
                        &&& after.status == self.status
                        &&& after.winner == self.winner
                        &&& out.winner.is_none()
                    }
                },
                None => {
                    &&& after.player_1 == self.player_1
                    &&& engine_idle(before.bot_state, second.bot_state, self.player_1)
                    &&& after.status == self.status
                    &&& after.winner == self.winner
                    &&& out.winner.is_none()
                },
            }
        }
    }

    /// Plays one exchange: the human side fires at `target`, and unless
    /// that ends the match the scripted side answers.
    ///
    /// A refused human shot changes nothing and is reported with
    /// `OpponentMissing` while no second side has joined, with the board's
    /// error, or, for a shot that the board would accept, with
    /// `MatchFinished` once the match is finished. The scripted side never
    /// fires at a coordinate it has fired
    /// at before, and as long as it has been told of every shot on the
    /// first side's board its shot is never refused.
    pub fn submit_shot(&mut self, target: (usize, usize)) -> (res: Result<TurnOutcome, GameError>)
        requires
            old(self).ready(),
        ensures
            final(self).ready(),
            old(self).wf() ==> final(self).wf(),
            old(self).status == GameStatus::Finished ==> *final(self) == *old(self),
            old(self).settled() ==> final(self).settled(),
            res.is_ok() == old(self).aimed_verdict(true, target).is_ok(),
            match res {
                Ok(out) => old(self).turn_played(*final(self), target, out),
                Err(error) => {
                    &&& *final(self) == *old(self)
                    &&& old(self).aimed_verdict(true, target) == Err::<CellState, GameError>(
                        error,
                    )
                },
            },
            old(self).bot_in_step() ==> final(self).bot_in_step(),
            old(self).bot_in_step() ==> (res matches Ok(out) ==> (out.bot_shot.is_none()
                && out.winner.is_none() ==> (old(self).player_2.unwrap().bot_state matches Some(
                engine,
            ) ==> engine@.hands_out(final(self).player_2.unwrap().bot_state.unwrap()@, None)))),
    {
        let human_id = self.player_1.id.clone();
        let (human_result, human_win) = match self.resolve(true, human_id, target) {
            Ok(pair) => pair,
            Err(error) => {
                return Err(error);
            },
        };
        let ghost aimed = *self;
        if human_win.is_some() {
            return Ok(TurnOutcome { human_result, bot_shot: None, winner: human_win });
        }
        assert(aimed.status == old(self).status && aimed.winner == old(self).winner);
        let (shot, bot_id) = match &mut self.player_2 {
            Some(bot) => {
                let shot = bot.get_bot_move();
                (shot, bot.id.clone())
            },
            None => {
                return Ok(TurnOutcome { human_result, bot_shot: None, winner: None });
            },
        };
        let ghost asked = *self;
        let ghost engine_before = aimed.player_2.unwrap().bot_state;
        let ghost engine_asked = asked.player_2.unwrap().bot_state;
        let coord = match shot {
            Some(coord) => coord,
            None => {
                return Ok(TurnOutcome { human_result, bot_shot: None, winner: None });
            },
        };
        match self.resolve(false, bot_id, coord) {
            Ok((result, bot_win)) => {
                match &mut self.player_2 {
                    Some(bot) => {
                        bot.process_bot_move_result(coord, result);
                    },
                    None => {},
                }
                proof {
                    if let Some(engine) = engine_before {
                        assert(engine@.hands_out(engine_asked.unwrap()@, Some(coord)));
                    }
                    assert(engine_fired(
                        engine_before,
                        self.player_2.unwrap().bot_state,
                        coord,
                        result,
                    ));
                }
                Ok(
                    TurnOutcome {
                        human_result,
                        bot_shot: Some(BotShot { row: coord.0, col: coord.1, result }),
                        winner: bot_win,
                    },
                )
            },
            Err(_) => {
                proof {
                    if let Some(engine) = engine_before {
                        assert(engine@.hands_out(engine_asked.unwrap()@, Some(coord)));
                    }
                }
                Ok(TurnOutcome { human_result, bot_shot: None, winner: None })
            },
        }
    }
}

/// Win threshold: a resolved shot finishes a match that was not finished
/// exactly when it brings the hits on the struck side to the threshold,
/// and the shooter of that shot is recorded as the winner.
pub proof fn lemma_finished_exactly_at_threshold(
    before: Game,
    after: Game,
    at_second: bool,
    shooter: Seq<char>,
    target: (usize, usize),
)
    requires
        before.shot_resolved(after, at_second, shooter, target),
    ensures
        ({
            let struck = if at_second {
                after.player_2.unwrap()
            } else {
                after.player_1
            };
            &&& (after.status == GameStatus::Finished) == (FLEET_CELLS - struck.remaining_health
                >= WIN_THRESHOLD)
            &&& after.status == GameStatus::Finished ==> after.winner.unwrap()@ == shooter
            &&& after.status != GameStatus::Finished ==> after.status == before.status
                && after.winner == before.winner
        }),
{
}

/// A finished match is final: it resolves no shot and plays no exchange,
/// so its status, its winner and both boards stay as they are. What it
/// answers is the error of the struck side where there is one, and
/// `MatchFinished` otherwise.
pub proof fn lemma_finished_is_final(
    before: Game,
    after: Game,
    at_second: bool,
    shooter: Seq<char>,
    target: (usize, usize),
    out: TurnOutcome,
)
    requires
        before.status == GameStatus::Finished,
    ensures
        !before.shot_resolved(after, at_second, shooter, target),
        !before.turn_played(after, target, out),
        before.aimed_verdict(at_second, target).is_err(),
        before.move_verdict(shooter, target).is_err(),
        before.struck_side(at_second) matches Some(side) ==> before.aimed_verdict(
            at_second,
            target,
        ) == match side.shot_verdict(target) {
            Ok(_) => Err::<CellState, GameError>(GameError::MatchFinished),
            Err(error) => Err::<CellState, GameError>(error),
        },
        before.join_verdict().is_err(),
{
}

/// The exhausted grid: once every cell of the second side's board has
/// been resolved, the match is finished with a winner set, and every
/// further shot of the first side on the grid is refused as
/// `AlreadyFired`.
pub proof fn lemma_exhausted_grid_is_finished(game: Game, target: (usize, usize))
    requires
        game.settled(),
        game.player_2 matches Some(second) && second.health_sound() && second.full_fleet()
            && second.exhausted(),
    ensures
        game.status == GameStatus::Finished,
        game.winner.is_some(),
        in_bounds(target) ==> game.move_verdict(game.player_1.id@, target) == Err::<
            CellState,
            GameError,
        >(GameError::AlreadyFired),
        in_bounds(target) ==> game.aimed_verdict(true, target) == Err::<CellState, GameError>(
            GameError::AlreadyFired,
        ),
{
    let second = game.player_2.unwrap();
    crate::board::lemma_exhausted_side_is_destroyed(second);
    if in_bounds(target) {
        assert(second.shot_verdict(target) == Err::<CellState, GameError>(
            GameError::AlreadyFired,
        ));
    }
}

/// The scripted side never fires twice at a coordinate, and never at a
/// cell that is already resolved on the board it fires at.
pub proof fn lemma_bot_shot_is_fresh(
    before: Game,
    after: Game,
    target: (usize, usize),
    out: TurnOutcome,
)
    requires
        before.turn_played(after, target, out),
        out.bot_shot.is_some(),
    ensures
        in_bounds((out.bot_shot.unwrap().row, out.bot_shot.unwrap().col)),
        !cell_at(
            before.player_1.board,
            out.bot_shot.unwrap().row as int,
            out.bot_shot.unwrap().col as int,
        ).resolved(),
        before.player_2.unwrap().bot_state matches Some(engine) ==> !engine@.fired.contains(
            (out.bot_shot.unwrap().row, out.bot_shot.unwrap().col),
        ),
{
}

} // verus!
