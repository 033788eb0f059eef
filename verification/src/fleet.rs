//! Randomized placement of the standard fleet.
//!
//! Each ship is placed by rejection sampling: an orientation and an anchor
//! are drawn uniformly and tried until one fits. Sampling is bounded, so
//! that placement always returns: should every sample be rejected, the ship
//! takes the first free position in row-major order, which a board holding
//! only part of the fleet always has.

use crate::board::{
    lemma_span_free_shrinks, span_covers, span_free, span_on_grid, Player, Ship, FLEET_CELLS,
};
use crate::bot::{BotState, BotView, Difficulty};
use crate::entropy::{coin_flip, random_below};
use crate::grid::{
    cell_at, count_cells, in_bounds, is_blank, lemma_count_blank, Board, CellState, Direction,
    GRID_SIZE,
};
use vstd::prelude::*;

verus! {

/// Number of ships of the standard fleet.
pub const FLEET_SHIPS: usize = 5;

/// Samples drawn for one ship before the first free position is taken.
pub const PLACEMENT_SAMPLES: usize = 1000;

/// Lengths of the standard fleet, in placement order.
pub open spec fn fleet_lengths() -> Seq<u8> {
    seq![5u8, 4u8, 3u8, 3u8, 2u8]
}

/// Total length of the first `n` ships of the fleet.
pub open spec fn fleet_prefix_cells(n: int) -> int {
    if n <= 0 {
        0
    } else if n == 1 {
        5
    } else if n == 2 {
        9
    } else if n == 3 {
        12
    } else if n == 4 {
        15
    } else {
        17
    }
}

/// Identifier of the ship placed at position `index`.
pub open spec fn ship_label(index: int) -> Seq<char> {
    if index == 0 {
        "ship_0"@
    } else if index == 1 {
        "ship_1"@
    } else if index == 2 {
        "ship_2"@
    } else if index == 3 {
        "ship_3"@
    } else {
        "ship_4"@
    }
}

/// Anchor of the horizontal block of five cells numbered `block`: blocks
/// `2r` and `2r + 1` are the left and the right half of row `r`.
pub open spec fn block_anchor(block: int) -> (usize, usize) {
    ((block / 2) as usize, (5 * (block % 2)) as usize)
}

/// Whether the first `len` cells of the block numbered `block` are free.
pub open spec fn block_free(board: Board, block: int, len: int) -> bool {
    span_free(board, block_anchor(block), Direction::Horizontal, len)
}

/// Whether the position `(first, first_dir)` is tried before
/// `(second, second_dir)`: anchors go in row-major order, and at one
/// anchor the horizontal orientation goes first.
pub open spec fn tried_before(
    first: (usize, usize),
    first_dir: Direction,
    second: (usize, usize),
    second_dir: Direction,
) -> bool {
    ||| first.0 * GRID_SIZE + first.1 < second.0 * GRID_SIZE + second.1
    ||| first == second && first_dir == Direction::Horizontal && second_dir
        == Direction::Vertical
}

/// Whether no shot has been resolved on the board.
pub open spec fn unshot(board: Board) -> bool {
    forall|row: int, col: int|
        0 <= row < GRID_SIZE && 0 <= col < GRID_SIZE ==> !(#[trigger] cell_at(
            board,
            row,
            col,
        )).resolved()
}

/// A cell in `state` between two prefixes of the board raises the count.
proof fn lemma_count_gains(board: Board, state: CellState, lo: nat, hi: nat, index: int)
    requires
        lo <= index < hi,
        cell_at(board, index / 10, index % 10) == state,
    ensures
        count_cells(board, state, hi) >= count_cells(board, state, lo) + 1,
    decreases hi,
{
    if index < hi - 1 {
        lemma_count_gains(board, state, lo, (hi - 1) as nat, index);
    } else {
        lemma_count_grows(board, state, lo, (hi - 1) as nat);
    }
}

/// A longer prefix of the board counts no fewer cells.
proof fn lemma_count_grows(board: Board, state: CellState, lo: nat, hi: nat)
    requires
        lo <= hi,
    ensures
        count_cells(board, state, hi) >= count_cells(board, state, lo),
    decreases hi,
{
    if lo < hi {
        lemma_count_grows(board, state, lo, (hi - 1) as nat);
    }
}

/// If none of the first `blocks` blocks is free, each of them holds a ship
/// cell of its own.
proof fn lemma_busy_blocks(board: Board, blocks: nat)
    requires
        blocks <= 20,
        unshot(board),
        forall|b: int| 0 <= b < blocks ==> !#[trigger] block_free(board, b, 5),
    ensures
        count_cells(board, CellState::Ship, 5 * blocks) >= blocks,
    decreases blocks,
{
    if blocks > 0 {
        let b = blocks - 1;
        lemma_busy_blocks(board, b as nat);
        let anchor = block_anchor(b);
        assert(!block_free(board, b, 5));
        assert(span_on_grid(anchor, Direction::Horizontal, 5));
        let (row, col) = choose|row: int, col: int|
            0 <= row < GRID_SIZE && 0 <= col < GRID_SIZE && span_covers(
                anchor,
                Direction::Horizontal,
                5,
                row,
                col,
            ) && #[trigger] cell_at(board, row, col) != CellState::Empty;
        assert(!cell_at(board, row, col).resolved());
        let index = row * 10 + col;
        assert(index / 10 == row && index % 10 == col);
        assert(5 * b <= index < 5 * b + 5);
        lemma_count_gains(board, CellState::Ship, (5 * b) as nat, (5 * blocks) as nat, index);
    }
}

/// A board without shots that holds fewer than twenty ship cells has a
/// free horizontal block of five, and so room for any ship of the fleet.
pub proof fn lemma_room_left(board: Board, len: int)
    requires
        unshot(board),
        count_cells(board, CellState::Ship, 100) < 20,
        0 <= len <= 5,
    ensures
        exists|b: int| 0 <= b < 20 && #[trigger] block_free(board, b, len),
{
    if forall|b: int| 0 <= b < 20 ==> !#[trigger] block_free(board, b, 5) {
        lemma_busy_blocks(board, 20);
    } else {
        let b = choose|b: int| 0 <= b < 20 && #[trigger] block_free(board, b, 5);
        if !block_free(board, b, len) {
            lemma_span_free_shrinks(board, block_anchor(b), Direction::Horizontal, len, 5);
        }
    }
}

/// Length of the ship placed at position `index`.
fn fleet_length(index: usize) -> (len: u8)
    requires
        index < FLEET_SHIPS,
    ensures
        len == fleet_lengths()[index as int],
        fleet_prefix_cells(index + 1) == fleet_prefix_cells(index as int) + len,
        2 <= len <= 5,
{
    if index == 0 {
        5
    } else if index == 1 {
        4
    } else if index == 4 {
        2
    } else {
        3
    }
}

/// Identifier of the ship placed at position `index`.
fn ship_name(index: usize) -> (name: String)
    requires
        index < FLEET_SHIPS,
    ensures
        name@ == ship_label(index as int),
{
    if index == 0 {
        "ship_0".to_string()
    } else if index == 1 {
        "ship_1".to_string()
    } else if index == 2 {
        "ship_2".to_string()
    } else if index == 3 {
        "ship_3".to_string()
    } else {
        "ship_4".to_string()
    }
}

impl Player {
    /// The first `n` ships of the standard fleet, and nothing else, stand
    /// on the board of `self`, which has taken no shot; everything but the
    /// board and the ships is as in `start`.
    pub open spec fn holds_fleet_prefix(&self, start: Player, n: int) -> bool {
        &&& self.placement_sound()
        &&& unshot(self.board)
        &&& self.ships@.len() == n
        &&& forall|i: int|
            0 <= i < n ==> {
                &&& (#[trigger] self.ships@[i]).len == fleet_lengths()[i]
                &&& self.ships@[i].hits == 0
                &&& self.ships@[i].id@ == ship_label(i)
            }
        &&& self.intact_cells() == fleet_prefix_cells(n)
        &&& self.hits_taken() == 0
        &&& self.id == start.id
        &&& self.is_bot == start.is_bot
        &&& self.remaining_health == start.remaining_health
        &&& self.bot_state == start.bot_state
    }

    /// The first position, in row-major order and with the horizontal
    /// orientation tried first, at which a ship of length `len` fits:
    /// the ship fits there and at no position tried before it. `None`
    /// means that it fits nowhere on the grid.
    pub fn first_fit(&self, len: u8) -> (slot: Option<((usize, usize), Direction)>)
        ensures
            match slot {
                Some((anchor, dir)) => {
                    &&& in_bounds(anchor)
                    &&& span_free(self.board, anchor, dir, len as int)
                    &&& forall|other: (usize, usize), other_dir: Direction|
                        in_bounds(other) && tried_before(other, other_dir, anchor, dir)
                            ==> !#[trigger] span_free(self.board, other, other_dir, len as int)
                },
                None => forall|anchor: (usize, usize), dir: Direction|
                    in_bounds(anchor) ==> !#[trigger] span_free(
                        self.board,
                        anchor,
                        dir,
                        len as int,
                    ),
            },
    {
        let mut index: usize = 0;
        while index < GRID_SIZE * GRID_SIZE
            invariant
                index <= GRID_SIZE * GRID_SIZE,
                forall|anchor: (usize, usize), dir: Direction|
                    in_bounds(anchor) && anchor.0 * GRID_SIZE + anchor.1 < index
                        ==> !#[trigger] span_free(self.board, anchor, dir, len as int),
            decreases GRID_SIZE * GRID_SIZE - index,
        {
            let anchor: (usize, usize) = (index / GRID_SIZE, index % GRID_SIZE);
            if self.probe(anchor, Direction::Horizontal, len).is_ok() {
                return Some((anchor, Direction::Horizontal));
            }
            if self.probe(anchor, Direction::Vertical, len).is_ok() {
                return Some((anchor, Direction::Vertical));
            }
            assert forall|other: (usize, usize), dir: Direction|
                in_bounds(other) && other.0 * GRID_SIZE + other.1 < index + 1 implies !(
            #[trigger] span_free(self.board, other, dir, len as int)) by {
                if other.0 * GRID_SIZE + other.1 == index {
                    assert(other == anchor);
                }
            }
            index = index + 1;
        }
        None
    }

    /// Places the standard fleet, lengths 5, 4, 3, 3 and 2 in this order,
    /// on a blank board without ships.
    ///
    /// Whatever the samples, the five ships end up on the grid without
    /// sharing a cell, the cells they occupy are marked `Ship` and no
    /// other cell is touched.
    pub fn place_random_ships(&mut self)
        requires
            is_blank(old(self).board),
            old(self).ships@.len() == 0,
        ensures
            final(self).holds_fleet_prefix(*old(self), FLEET_SHIPS as int),
    {
        proof {
            lemma_count_blank(self.board, CellState::Ship, 100);
            lemma_count_blank(self.board, CellState::Hit, 100);
            assert forall|row: int, col: int|
                0 <= row < GRID_SIZE && 0 <= col < GRID_SIZE implies (#[trigger] cell_at(
                self.board,
                row,
                col,
            )).occupied() == self.covered(row, col) by {}
        }
        let mut index: usize = 0;
        while index < FLEET_SHIPS
            invariant
                index <= FLEET_SHIPS,
                self.holds_fleet_prefix(*old(self), index as int),
            decreases FLEET_SHIPS - index,
        {
            let len: u8 = fleet_length(index);
            let mut placed: bool = false;
            let mut draws: usize = 0;
            while !placed && draws < PLACEMENT_SAMPLES
                invariant
                    index < FLEET_SHIPS,
                    len == fleet_lengths()[index as int],
                    fleet_prefix_cells(index + 1) == fleet_prefix_cells(index as int) + len,
                    self.holds_fleet_prefix(
                        *old(self),
                        if placed {
                            index + 1
                        } else {
                            index as int
                        },
                    ),
                decreases PLACEMENT_SAMPLES - draws,
            {
                let dir: Direction = if coin_flip() {
                    Direction::Horizontal
                } else {
                    Direction::Vertical
                };
                let row: usize = random_below(GRID_SIZE);
                let col: usize = random_below(GRID_SIZE);
                placed = self.try_anchor(index, len, (row, col), dir, Ghost(*old(self)));
                draws = draws + 1;
            }
            if !placed {
                match self.first_fit(len) {
                    Some((anchor, dir)) => {
                        let done: bool = self.try_anchor(
                            index,
                            len,
                            anchor,
                            dir,
                            Ghost(*old(self)),
                        );
                        assert(done);
                    },
                    None => {
                        proof {
                            lemma_room_left(self.board, len as int);
                            let b = choose|b: int|
                                0 <= b < 20 && #[trigger] block_free(self.board, b, len as int);
                            assert(in_bounds(block_anchor(b)));
                            assert(false);
                        }
                    },
                }
            }
            index = index + 1;
        }
    }

    /// Tries to place ship number `index` of the fleet at `anchor` along
    /// `dir`, and tells whether it fitted.
    fn try_anchor(
        &mut self,
        index: usize,
        len: u8,
        anchor: (usize, usize),
        dir: Direction,
        Ghost(start): Ghost<Player>,
    ) -> (placed: bool)
        requires
            index < FLEET_SHIPS,
            len == fleet_lengths()[index as int],
            fleet_prefix_cells(index + 1) == fleet_prefix_cells(index as int) + len,
            old(self).holds_fleet_prefix(start, index as int),
        ensures
            placed == span_free(old(self).board, anchor, dir, len as int),
            final(self).holds_fleet_prefix(
                start,
                if placed {
                    index + 1
                } else {
                    index as int
                },
            ),
    {
        let ship = Ship { id: ship_name(index), len, hits: 0, coordinates: anchor, dir };
        match self.place_ship(ship) {
            Ok(_) => {
                assert forall|i: int| 0 <= i < index + 1 implies {
                    &&& (#[trigger] self.ships@[i]).len == fleet_lengths()[i]
                    &&& self.ships@[i].hits == 0
                    &&& self.ships@[i].id@ == ship_label(i)
                } by {
                    if i < index {
                        assert(self.ships@[i] == old(self).ships@[i]);
                    }
                }
                true
            },
            Err(_) => false,
        }
    }

    /// A new side with the standard fleet placed at random and full
    /// health. A scripted side gets a fresh targeting engine of the given
    /// tier; for any other side the tier is ignored.
    pub fn new(id: String, is_bot: bool, difficulty: Difficulty) -> (player: Player)
        ensures
            player.wf(),
            player.id == id,
            player.is_bot == is_bot,
            player.remaining_health == FLEET_CELLS,
            player.hits_taken() == 0,
            player.intact_cells() == FLEET_CELLS,
            unshot(player.board),
            player.ships@.len() == FLEET_SHIPS,
            forall|i: int|
                0 <= i < FLEET_SHIPS ==> {
                    &&& (#[trigger] player.ships@[i]).len == fleet_lengths()[i]
                    &&& player.ships@[i].hits == 0
                    &&& player.ships@[i].id@ == ship_label(i)
                },
            match player.bot_state {
                Some(state) => is_bot && state@ == BotView::fresh(difficulty),
                None => !is_bot,
            },
    {
        let bot_state: Option<BotState> = if is_bot {
            Some(BotState::new(difficulty))
        } else {
            None
        };
        let mut player = Player {
            id,
            is_bot,
            board: [[CellState::Empty; 10]; 10],
            ships: Vec::new(),
            remaining_health: FLEET_CELLS,
            bot_state,
        };
        assert(is_blank(player.board));
        player.place_random_ships();
        player
    }
}

} // verus!
