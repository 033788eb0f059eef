//! The conditions that the library reports to its callers. All of them are
//! recoverable: a rejected request leaves every state as it was.

use vstd::prelude::*;

verus! {

/// Why a shot, a join or a lookup was refused.
#[derive(Debug, Clone, Copy, PartialEq, Eq, Structural)]
pub enum GameError {
    /// The coordinate is outside the 10×10 grid.
    OutOfBounds,
    /// The cell has already been resolved to a hit or a miss.
    AlreadyFired,
    /// No match is known under the identifier.
    MatchNotFound,
    /// The first side fired before a second side had joined.
    OpponentMissing,
    /// A second side tried to join a match that has one.
    MatchFull,
    /// The match is finished: a shot that the board would accept, and a
    /// side that could join, are refused.
    MatchFinished,
}

/// Why a ship could not be placed.
#[derive(Debug, Clone, Copy, PartialEq, Eq, Structural)]
pub enum PlacementError {
    /// A cell of the ship would lie outside the grid.
    OutOfBounds,
    /// The first cell of the ship that is already taken.
    Collision { row: usize, col: usize },
}

impl GameError {
    /// The text shown to a player for this error.
    pub open spec fn text(self) -> Seq<char> {
        match self {
            GameError::OutOfBounds => "shot out of bounds"@,
            GameError::AlreadyFired => "already fired here!"@,
            GameError::MatchNotFound => "Game not found"@,
            GameError::OpponentMissing => "Player 2 missing"@,
            GameError::MatchFull => "game full"@,
            GameError::MatchFinished => "game finished"@,
        }
    }

    /// The text shown to a player for this error.
    pub fn message(&self) -> (text: String)
        ensures
            text@ == self.text(),
    {
        match self {
            GameError::OutOfBounds => "shot out of bounds".to_string(),
            GameError::AlreadyFired => "already fired here!".to_string(),
            GameError::MatchNotFound => "Game not found".to_string(),
            GameError::OpponentMissing => "Player 2 missing".to_string(),
            GameError::MatchFull => "game full".to_string(),
            GameError::MatchFinished => "game finished".to_string(),
        }
    }
}

} // verus!
