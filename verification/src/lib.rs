//! Authoritative rules of a Battleship match against a scripted opponent:
//! the board model, randomized fleet placement, the hunt-then-target
//! engine of the scripted side, and the match state machine.

pub mod board;
pub mod bot;
pub mod entropy;
pub mod error;
pub mod fleet;
pub mod game;
pub mod grid;
pub mod wire;

pub use board::{Player, Ship, FLEET_CELLS};
pub use bot::{AxisLock, BotState, BotView, Difficulty, Heading};
pub use error::{GameError, PlacementError};
pub use game::{BotShot, Game, GameStatus, TurnOutcome, WIN_THRESHOLD};
pub use grid::{Board, CellState, Direction, GRID_SIZE};
pub use wire::parse_shot;
