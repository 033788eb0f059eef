//! The 10×10 grid: cell states, ship orientation and coordinates.

use vstd::prelude::*;

verus! {

/// Number of rows, and of columns, of every board.
pub const GRID_SIZE: usize = 10;

/// Orientation of a ship: its cells run from the anchor along a row
/// (`Horizontal`, the column grows) or along a column (`Vertical`, the row
/// grows).
#[derive(Debug, Clone, Copy, PartialEq, Eq, Structural)]
pub enum Direction {
    Horizontal,
    Vertical,
}

/// State of one cell. Placement turns `Empty` into `Ship`; a shot turns
/// `Ship` into `Hit` and `Empty` into `Miss`; `Hit` and `Miss` are final.
#[derive(Debug, Clone, Copy, PartialEq, Eq, Structural)]
pub enum CellState {
    Empty,
    Hit,
    Miss,
    Ship,
}

/// The cells of one side, by row and column.
pub type Board = [[CellState; 10]; 10];

/// Whether `(row, col)` names a cell of the grid.
pub open spec fn in_bounds(coord: (usize, usize)) -> bool {
    coord.0 < GRID_SIZE && coord.1 < GRID_SIZE
}

impl CellState {
    /// A cell that a shot has already resolved.
    pub open spec fn resolved(self) -> bool {
        self == CellState::Hit || self == CellState::Miss
    }

    /// A cell that belongs to a ship, intact or hit.
    pub open spec fn occupied(self) -> bool {
        self == CellState::Ship || self == CellState::Hit
    }
}

/// The state of the cell at `(row, col)`.
pub open spec fn cell_at(board: Board, row: int, col: int) -> CellState {
    board[row][col]
}

/// Whether every cell of the board is `Empty`.
pub open spec fn is_blank(board: Board) -> bool {
    forall|row: int, col: int|
        0 <= row < GRID_SIZE && 0 <= col < GRID_SIZE ==> #[trigger] cell_at(board, row, col)
            == CellState::Empty
}

/// How many of the first `upto` cells, in row-major order, are in `state`.
pub open spec fn count_cells(board: Board, state: CellState, upto: nat) -> nat
    decreases upto,
{
    if upto == 0 {
        0
    } else {
        let k = upto - 1;
        count_cells(board, state, k as nat) + if cell_at(board, k / 10, k % 10) == state {
            1nat
        } else {
            0nat
        }
    }
}

/// How many cells of the board are in `state`.
pub open spec fn count_state(board: Board, state: CellState) -> nat {
    count_cells(board, state, 100)
}

/// Counts the cells of the board that are in `state`.
pub fn count_in_state(board: &Board, state: CellState) -> (count: usize)
    ensures
        count == count_state(*board, state),
        count <= 100,
{
    let mut count: usize = 0;
    let mut index: usize = 0;
    while index < 100
        invariant
            index <= 100,
            count <= index,
            count == count_cells(*board, state, index as nat),
        decreases 100 - index,
    {
        let cell: CellState = board[index / 10][index % 10];
        assert(cell == cell_at(*board, index as int / 10, index as int % 10));
        if cell == state {
            count = count + 1;
        }
        index = index + 1;
    }
    count
}

/// Two boards that differ at most in the cell at `(row, col)`.
pub open spec fn same_but(before: Board, after: Board, row: int, col: int) -> bool {
    forall|r: int, c: int|
        0 <= r < GRID_SIZE && 0 <= c < GRID_SIZE && !(r == row && c == col) ==> #[trigger] cell_at(
            after,
            r,
            c,
        ) == cell_at(before, r, c)
}

/// Writing one cell moves one unit of count from its old state to its new
/// one and leaves every other count alone.
pub proof fn lemma_count_after_write(
    before: Board,
    after: Board,
    row: int,
    col: int,
    state: CellState,
    upto: nat,
)
    requires
        0 <= row < GRID_SIZE,
        0 <= col < GRID_SIZE,
        upto <= 100,
        same_but(before, after, row, col),
    ensures
        count_cells(after, state, upto) == count_cells(before, state, upto) + (if row * 10 + col
            < upto && cell_at(after, row, col) == state {
            1int
        } else {
            0int
        }) - (if row * 10 + col < upto && cell_at(before, row, col) == state {
            1int
        } else {
            0int
        }),
    decreases upto,
{
    if upto > 0 {
        let k = upto - 1;
        lemma_count_after_write(before, after, row, col, state, k as nat);
        if k != row * 10 + col {
            assert(!(k / 10 == row && k % 10 == col));
            assert(cell_at(after, k / 10, k % 10) == cell_at(before, k / 10, k % 10));
        } else {
            assert(k / 10 == row && k % 10 == col);
        }
    }
}

/// A blank board counts every cell as `Empty` and none as anything else.
pub proof fn lemma_count_blank(board: Board, state: CellState, upto: nat)
    requires
        is_blank(board),
        upto <= 100,
    ensures
        count_cells(board, state, upto) == if state == CellState::Empty {
            upto
        } else {
            0
        },
    decreases upto,
{
    if upto > 0 {
        let k = upto - 1;
        lemma_count_blank(board, state, k as nat);
        assert(cell_at(board, k / 10, k % 10) == CellState::Empty);
    }
}

} // verus!
