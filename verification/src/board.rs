//! One side of a match: its grid, its ships and its remaining health.

use crate::bot::BotState;
use crate::error::{GameError, PlacementError};
use crate::grid::{
    cell_at, count_in_state, count_state, in_bounds, lemma_count_after_write, same_but, Board,
    CellState, Direction, GRID_SIZE,
};
use vstd::prelude::*;

verus! {

/// Total length of the standard fleet, and the health of a side that has
/// taken no hit.
pub const FLEET_CELLS: u8 = 17;

/// A ship: `len` contiguous cells from the anchor `coordinates`, along
/// `dir`.
#[derive(Debug)]
pub struct Ship {
    pub id: String,
    pub len: u8,
    pub hits: u8,
    pub coordinates: (usize, usize),
    pub dir: Direction,
}

/// One side of a match.
#[derive(Debug)]
pub struct Player {
    pub id: String,
    pub is_bot: bool,
    pub board: Board,
    pub ships: Vec<Ship>,
    pub remaining_health: u8,
    pub bot_state: Option<BotState>,
}

/// Whether `(row, col)` is one of the `len` cells that run from `anchor`
/// along `dir`.
pub open spec fn span_covers(
    anchor: (usize, usize),
    dir: Direction,
    len: int,
    row: int,
    col: int,
) -> bool {
    match dir {
        Direction::Horizontal => row == anchor.0 && anchor.1 <= col < anchor.1 + len,
        Direction::Vertical => col == anchor.1 && anchor.0 <= row < anchor.0 + len,
    }
}

/// The cell at distance `k` from `anchor` along `dir`.
pub open spec fn span_cell(anchor: (usize, usize), dir: Direction, k: int) -> (int, int) {
    match dir {
        Direction::Horizontal => (anchor.0 as int, anchor.1 + k),
        Direction::Vertical => (anchor.0 + k, anchor.1 as int),
    }
}

/// Whether the `len` cells from `anchor` along `dir` all lie on the grid.
pub open spec fn span_on_grid(anchor: (usize, usize), dir: Direction, len: int) -> bool {
    len > 0 ==> match dir {
        Direction::Horizontal => anchor.0 < GRID_SIZE && anchor.1 + len <= GRID_SIZE,
        Direction::Vertical => anchor.1 < GRID_SIZE && anchor.0 + len <= GRID_SIZE,
    }
}

/// Whether the `len` cells from `anchor` along `dir` all lie on the grid
/// and are `Empty`.
pub open spec fn span_free(board: Board, anchor: (usize, usize), dir: Direction, len: int) -> bool {
    &&& span_on_grid(anchor, dir, len)
    &&& forall|row: int, col: int|
        0 <= row < GRID_SIZE && 0 <= col < GRID_SIZE && span_covers(anchor, dir, len, row, col)
            ==> #[trigger] cell_at(board, row, col) == CellState::Empty
}

/// Whether the cell at distance `k` is the first of the span that is off
/// the grid or taken.
pub open spec fn blocked_at(board: Board, anchor: (usize, usize), dir: Direction, k: int) -> bool {
    &&& 0 <= k
    &&& span_free(board, anchor, dir, k)
    &&& !span_free(board, anchor, dir, k + 1)
}

/// The error that the blocking cell at distance `k` gives.
pub open spec fn obstacle(anchor: (usize, usize), dir: Direction, k: int) -> PlacementError {
    let cell = span_cell(anchor, dir, k);
    if 0 <= cell.0 < GRID_SIZE && 0 <= cell.1 < GRID_SIZE {
        PlacementError::Collision { row: cell.0 as usize, col: cell.1 as usize }
    } else {
        PlacementError::OutOfBounds
    }
}

impl Clone for Ship {
    fn clone(&self) -> (copy: Ship)
        ensures
            copy == *self,
    {
        Ship {
            id: self.id.clone(),
            len: self.len,
            hits: self.hits,
            coordinates: self.coordinates,
            dir: self.dir,
        }
    }
}

impl Clone for Player {
    fn clone(&self) -> (copy: Player)
        ensures
            copy.id@ == self.id@,
            copy.is_bot == self.is_bot,
            copy.board == self.board,
            copy.ships@ == self.ships@,
            copy.remaining_health == self.remaining_health,
            match self.bot_state {
                Some(engine) => copy.bot_state matches Some(twin) && twin@ == engine@
                    && twin.shots_fired@ == engine.shots_fired@ && twin.wf() == engine.wf(),
                None => copy.bot_state.is_none(),
            },
            copy.ready() == self.ready(),
            copy.placement_sound() == self.placement_sound(),
    {
        let count: usize = self.ships.len();
        let mut ships: Vec<Ship> = Vec::new();
        let mut i: usize = 0;
        while i < count
            invariant
                i <= count,
                count == self.ships@.len(),
                ships@ == self.ships@.take(i as int),
            decreases count - i,
        {
            let ship = self.ships[i].clone();
            ships.push(ship);
            assert(self.ships@.take(i + 1) =~= self.ships@.take(i as int).push(
                self.ships@[i as int],
            ));
            i = i + 1;
        }
        assert(self.ships@.take(count as int) =~= self.ships@);
        let bot_state: Option<BotState> = match &self.bot_state {
            Some(engine) => Some(engine.clone()),
            None => None,
        };
        Player {
            id: self.id.clone(),
            is_bot: self.is_bot,
            board: self.board,
            ships,
            remaining_health: self.remaining_health,
            bot_state,
        }
    }
}

impl Ship {
    /// Whether the ship occupies `(row, col)`.
    pub open spec fn covers(&self, row: int, col: int) -> bool {
        span_covers(self.coordinates, self.dir, self.len as int, row, col)
    }

    /// Whether every cell of the ship lies on the grid.
    pub open spec fn on_grid(&self) -> bool {
        span_on_grid(self.coordinates, self.dir, self.len as int)
    }
}

impl Player {
    /// Whether some ship of this side occupies `(row, col)`.
    pub open spec fn covered(&self, row: int, col: int) -> bool {
        exists|i: int| 0 <= i < self.ships@.len() && #[trigger] self.ships@[i].covers(row, col)
    }

    /// Placement soundness: every ship lies on the grid, no two ships
    /// share a cell, and the cells marked `Ship` or `Hit` are exactly the
    /// cells of the ships.
    pub open spec fn placement_sound(&self) -> bool {
        &&& forall|i: int| 0 <= i < self.ships@.len() ==> (#[trigger] self.ships@[i]).on_grid()
        &&& forall|i: int, j: int, row: int, col: int|
            #![trigger self.ships@[i].covers(row, col), self.ships@[j].covers(row, col)]
            0 <= i < j < self.ships@.len() && self.ships@[i].covers(row, col)
                ==> !self.ships@[j].covers(row, col)
        &&& forall|row: int, col: int|
            0 <= row < GRID_SIZE && 0 <= col < GRID_SIZE ==> (#[trigger] cell_at(
                self.board,
                row,
                col,
            )).occupied() == self.covered(row, col)
    }

    /// Number of cells that have been hit.
    pub open spec fn hits_taken(&self) -> nat {
        count_state(self.board, CellState::Hit)
    }

    /// Number of ship cells that are still intact.
    pub open spec fn intact_cells(&self) -> nat {
        count_state(self.board, CellState::Ship)
    }

    /// The health invariant: the remaining health is the fleet total less
    /// the hits taken, and the ship cells on the board, intact or hit, do
    /// not exceed the fleet total.
    pub open spec fn health_sound(&self) -> bool {
        &&& self.remaining_health == FLEET_CELLS - self.hits_taken()
        &&& self.hits_taken() + self.intact_cells() <= FLEET_CELLS
    }

    /// The whole fleet stands on the board: its cells, intact or hit, make
    /// up the fleet total.
    pub open spec fn full_fleet(&self) -> bool {
        self.hits_taken() + self.intact_cells() == FLEET_CELLS
    }

    /// Every cell of the board has been resolved to a hit or a miss.
    pub open spec fn exhausted(&self) -> bool {
        forall|row: int, col: int|
            0 <= row < GRID_SIZE && 0 <= col < GRID_SIZE ==> (#[trigger] cell_at(
                self.board,
                row,
                col,
            )).resolved()
    }

    /// A side that can take shots and hand out coordinates: its health
    /// is sound and its targeting engine, if it has one, is well-formed.
    pub open spec fn ready(&self) -> bool {
        &&& self.health_sound()
        &&& self.bot_state matches Some(state) ==> state.wf()
    }

    /// Well-formedness of a side: it is ready and its placement is sound.
    pub open spec fn wf(&self) -> bool {
        &&& self.placement_sound()
        &&& self.ready()
    }

    /// Tells whether the side is ready, by counting its cells and
    /// looking through the queue of its engine.
    pub fn is_ready(&self) -> (ok: bool)
        ensures
            ok == self.ready(),
    {
        let hits: usize = count_in_state(&self.board, CellState::Hit);
        let intact: usize = count_in_state(&self.board, CellState::Ship);
        if hits + intact > FLEET_CELLS as usize {
            return false;
        }
        if self.remaining_health as usize != FLEET_CELLS as usize - hits {
            return false;
        }
        match &self.bot_state {
            Some(state) => state.is_wf(),
            None => true,
        }
    }

    /// Whether `ship` can be placed: all its cells lie on the grid and are
    /// `Empty`.
    pub open spec fn fits(&self, ship: Ship) -> bool {
        span_free(self.board, ship.coordinates, ship.dir, ship.len as int)
    }

    /// What a shot at `coord` returns.
    pub open spec fn shot_verdict(&self, coord: (usize, usize)) -> Result<CellState, GameError> {
        if !in_bounds(coord) {
            Err(GameError::OutOfBounds)
        } else {
            match cell_at(self.board, coord.0 as int, coord.1 as int) {
                CellState::Empty => Ok(CellState::Miss),
                CellState::Ship => Ok(CellState::Hit),
                _ => Err(GameError::AlreadyFired),
            }
        }
    }

    /// The board, the ships and the health of `after` are those of `self`
    /// with an accepted shot at `coord` applied: the cell holds the
    /// outcome, a hit has cost one unit of health, and no other cell and
    /// no ship differs.
    pub open spec fn shot_lands(&self, after: Player, coord: (usize, usize)) -> bool {
        &&& self.shot_verdict(coord) matches Ok(outcome)
        &&& cell_at(after.board, coord.0 as int, coord.1 as int) == outcome
        &&& same_but(self.board, after.board, coord.0 as int, coord.1 as int)
        &&& after.remaining_health == if outcome == CellState::Hit {
            self.remaining_health - 1
        } else {
            self.remaining_health as int
        }
        &&& after.ships == self.ships
        &&& after.id == self.id
        &&& after.is_bot == self.is_bot
    }

    /// `after` is `self` with an accepted shot at `coord` applied, and
    /// nothing else differs.
    pub open spec fn shot_applied(&self, after: Player, coord: (usize, usize)) -> bool {
        &&& self.shot_lands(after, coord)
        &&& after.bot_state == self.bot_state
    }

    /// `after` differs from `self` in the targeting engine at most.
    pub open spec fn same_board(&self, after: Player) -> bool {
        &&& after.board == self.board
        &&& after.ships == self.ships
        &&& after.remaining_health == self.remaining_health
        &&& after.id == self.id
        &&& after.is_bot == self.is_bot
    }

    /// Checks the `len` cells from `anchor` along `dir`, from the anchor
    /// on: the first one off the grid gives `OutOfBounds`, the first one
    /// taken gives `Collision`, and a span without either is free.
    pub fn probe(&self, anchor: (usize, usize), dir: Direction, len: u8) -> (res: Result<
        (),
        PlacementError,
    >)
        ensures
            res.is_ok() == span_free(self.board, anchor, dir, len as int),
            res matches Err(error) ==> exists|k: int|
                k < len && blocked_at(self.board, anchor, dir, k) && error == obstacle(
                    anchor,
                    dir,
                    k,
                ),
    {
        let (start_row, start_col) = anchor;
        let count: usize = len as usize;
        let mut k: usize = 0;
        while k < count
            invariant
                k <= count,
                count == len,
                (start_row, start_col) == anchor,
                span_free(self.board, anchor, dir, k as int),
            decreases count - k,
        {
            let (row, col): (usize, usize) = match dir {
                Direction::Horizontal => (start_row, start_col + k),
                Direction::Vertical => (start_row + k, start_col),
            };
            assert((row as int, col as int) == span_cell(anchor, dir, k as int));
            if row >= GRID_SIZE || col >= GRID_SIZE {
                assert(!span_on_grid(anchor, dir, k + 1));
                proof {
                    lemma_span_free_shrinks(self.board, anchor, dir, k + 1, count as int);
                }
                assert(blocked_at(self.board, anchor, dir, k as int));
                assert(obstacle(anchor, dir, k as int) == PlacementError::OutOfBounds);
                return Err(PlacementError::OutOfBounds);
            }
            if self.board[row][col] != CellState::Empty {
                assert(span_covers(anchor, dir, k + 1, row as int, col as int));
                assert(cell_at(self.board, row as int, col as int) != CellState::Empty);
                proof {
                    lemma_span_free_shrinks(self.board, anchor, dir, k + 1, count as int);
                }
                assert(blocked_at(self.board, anchor, dir, k as int));
                assert(obstacle(anchor, dir, k as int) == (PlacementError::Collision { row, col }));
                return Err(PlacementError::Collision { row, col });
            }
            assert(span_free(self.board, anchor, dir, k + 1)) by {
                assert forall|r: int, c: int|
                    0 <= r < GRID_SIZE && 0 <= c < GRID_SIZE && span_covers(
                        anchor,
                        dir,
                        k + 1,
                        r,
                        c,
                    ) implies #[trigger] cell_at(self.board, r, c) == CellState::Empty by {
                    if !span_covers(anchor, dir, k as int, r, c) {
                        assert(r == row && c == col);
                    }
                }
            }
            k = k + 1;
        }
        Ok(())
    }

    /// Places `ship`, or refuses and changes nothing.
    ///
    /// The ship is placed when each of its cells lies on the grid and is
    /// `Empty`; its cells are then marked `Ship` and the ship is recorded
    /// last. Otherwise the error names the first cell, from the anchor on,
    /// that is off the grid or taken.
    pub fn place_ship(&mut self, ship: Ship) -> (res: Result<(), PlacementError>)
        ensures
            res.is_ok() == old(self).fits(ship),
            match res {
                Ok(_) => {
                    &&& final(self).ships@ == old(self).ships@.push(ship)
                    &&& forall|row: int, col: int|
                        0 <= row < GRID_SIZE && 0 <= col < GRID_SIZE ==> #[trigger] cell_at(
                            final(self).board,
                            row,
                            col,
                        ) == if ship.covers(row, col) {
                            CellState::Ship
                        } else {
                            cell_at(old(self).board, row, col)
                        }
                    &&& final(self).id == old(self).id
                    &&& final(self).is_bot == old(self).is_bot
                    &&& final(self).remaining_health == old(self).remaining_health
                    &&& final(self).bot_state == old(self).bot_state
                    &&& final(self).hits_taken() == old(self).hits_taken()
                    &&& final(self).intact_cells() == old(self).intact_cells() + ship.len
                },
                Err(error) => {
                    &&& *final(self) == *old(self)
                    &&& exists|k: int|
                        k < ship.len && blocked_at(old(self).board, ship.coordinates, ship.dir, k)
                            && error == obstacle(ship.coordinates, ship.dir, k)
                },
            },
            old(self).placement_sound() ==> final(self).placement_sound(),
    {
        let (start_row, start_col) = ship.coordinates;
        let len: usize = ship.len as usize;
        let dir: Direction = ship.dir;
        match self.probe(ship.coordinates, dir, ship.len) {
            Ok(_) => {},
            Err(error) => {
                return Err(error);
            },
        }
        let mut k: usize = 0;
        while k < len
            invariant
                k <= len,
                len == ship.len,
                dir == ship.dir,
                (start_row, start_col) == ship.coordinates,
                span_free(old(self).board, ship.coordinates, dir, len as int),
                self.id == old(self).id,
                self.is_bot == old(self).is_bot,
                self.ships == old(self).ships,
                self.remaining_health == old(self).remaining_health,
                self.bot_state == old(self).bot_state,
                forall|r: int, c: int|
                    0 <= r < GRID_SIZE && 0 <= c < GRID_SIZE ==> #[trigger] cell_at(
                        self.board,
                        r,
                        c,
                    ) == if span_covers(ship.coordinates, dir, k as int, r, c) {
                        CellState::Ship
                    } else {
                        cell_at(old(self).board, r, c)
                    },
                self.hits_taken() == old(self).hits_taken(),
                self.intact_cells() == old(self).intact_cells() + k,
            decreases len - k,
        {
            let (row, col): (usize, usize) = match dir {
                Direction::Horizontal => (start_row, start_col + k),
                Direction::Vertical => (start_row + k, start_col),
            };
            let ghost prior = self.board;
            assert(span_covers(ship.coordinates, dir, len as int, row as int, col as int));
            assert(!span_covers(ship.coordinates, dir, k as int, row as int, col as int));
            assert(cell_at(prior, row as int, col as int) == CellState::Empty);
            self.board[row][col] = CellState::Ship;
            proof {
                assert(same_but(prior, self.board, row as int, col as int));
                lemma_count_after_write(
                    prior,
                    self.board,
                    row as int,
                    col as int,
                    CellState::Hit,
                    100,
                );
                lemma_count_after_write(
                    prior,
                    self.board,
                    row as int,
                    col as int,
                    CellState::Ship,
                    100,
                );
                assert forall|r: int, c: int|
                    0 <= r < GRID_SIZE && 0 <= c < GRID_SIZE implies #[trigger] cell_at(
                    self.board,
                    r,
                    c,
                ) == if span_covers(ship.coordinates, dir, k + 1, r, c) {
                    CellState::Ship
                } else {
                    cell_at(old(self).board, r, c)
                } by {
                    if r == row && c == col {
                    } else {
                        assert(cell_at(self.board, r, c) == cell_at(prior, r, c));
                    }
                }
            }
            k = k + 1;
        }
        self.ships.push(ship);
        proof {
            if old(self).placement_sound() {
                lemma_placement_extends(*old(self), *self, ship);
            }
        }
        Ok(())
    }

    /// What a shot at `coord` would return, without firing it.
    pub fn shot_verdict_of(&self, coord: (usize, usize)) -> (res: Result<CellState, GameError>)
        ensures
            res == self.shot_verdict(coord),
    {
        let (row, col) = coord;
        if row >= GRID_SIZE || col >= GRID_SIZE {
            return Err(GameError::OutOfBounds);
        }
        match self.board[row][col] {
            CellState::Empty => Ok(CellState::Miss),
            CellState::Ship => Ok(CellState::Hit),
            _ => Err(GameError::AlreadyFired),
        }
    }

    /// Resolves a shot at `coord`, or refuses and changes nothing.
    ///
    /// A coordinate off the grid is refused as `OutOfBounds`, a cell that
    /// is already `Hit` or `Miss` as `AlreadyFired`. An `Empty` cell
    /// becomes `Miss`; a `Ship` cell becomes `Hit` and costs one unit of
    /// health.
    pub fn receive_shot(&mut self, coord: (usize, usize)) -> (res: Result<CellState, GameError>)
        requires
            old(self).health_sound(),
        ensures
            res == old(self).shot_verdict(coord),
            res.is_ok() ==> old(self).shot_applied(*final(self), coord),
            res.is_err() ==> *final(self) == *old(self),
            final(self).health_sound(),
            final(self).hits_taken() == old(self).hits_taken() + if res == Ok::<
                CellState,
                GameError,
            >(CellState::Hit) {
                1nat
            } else {
                0nat
            },
            final(self).hits_taken() + final(self).intact_cells()
                == old(self).hits_taken() + old(self).intact_cells(),
            old(self).placement_sound() ==> final(self).placement_sound(),
    {
        let (row, col) = coord;
        if row >= GRID_SIZE || col >= GRID_SIZE {
            return Err(GameError::OutOfBounds);
        }
        let ghost prior = self.board;
        match self.board[row][col] {
            CellState::Empty => {
                self.board[row][col] = CellState::Miss;
                proof {
                    assert(same_but(prior, self.board, row as int, col as int));
                    lemma_count_after_write(
                        prior,
                        self.board,
                        row as int,
                        col as int,
                        CellState::Hit,
                        100,
                    );
                    lemma_count_after_write(
                        prior,
                        self.board,
                        row as int,
                        col as int,
                        CellState::Ship,
                        100,
                    );
                    if old(self).placement_sound() {
                        lemma_placement_survives_shot(*old(self), *self, coord);
                    }
                }
                Ok(CellState::Miss)
            },
            CellState::Ship => {
                proof {
                    lemma_counted_cell(prior, row as int, col as int, CellState::Ship);
                }
                self.board[row][col] = CellState::Hit;
                proof {
                    assert(same_but(prior, self.board, row as int, col as int));
                    lemma_count_after_write(
                        prior,
                        self.board,
                        row as int,
                        col as int,
                        CellState::Hit,
                        100,
                    );
                    lemma_count_after_write(
                        prior,
                        self.board,
                        row as int,
                        col as int,
                        CellState::Ship,
                        100,
                    );
                }
                self.remaining_health = self.remaining_health - 1;
                proof {
                    if old(self).placement_sound() {
                        lemma_placement_survives_shot(*old(self), *self, coord);
                    }
                }
                Ok(CellState::Hit)
            },
            _ => Err(GameError::AlreadyFired),
        }
    }
}

/// Shot idempotence: once a shot at `coord` has been accepted, the cell is
/// resolved, and every later shot at it is refused as `AlreadyFired`.
pub proof fn lemma_second_shot_refused(before: Player, after: Player, coord: (usize, usize))
    requires
        before.shot_lands(after, coord),
    ensures
        cell_at(after.board, coord.0 as int, coord.1 as int).resolved(),
        after.shot_verdict(coord) == Err::<CellState, GameError>(GameError::AlreadyFired),
{
}

/// An accepted shot moves no cell into or out of the fleet: the cells that
/// are intact or hit stay as many as they were.
pub proof fn lemma_shot_keeps_fleet(before: Player, after: Player, coord: (usize, usize))
    requires
        before.shot_lands(after, coord),
    ensures
        after.hits_taken() + after.intact_cells() == before.hits_taken() + before.intact_cells(),
        before.full_fleet() ==> after.full_fleet(),
{
    let row = coord.0 as int;
    let col = coord.1 as int;
    lemma_count_after_write(before.board, after.board, row, col, CellState::Hit, 100);
    lemma_count_after_write(before.board, after.board, row, col, CellState::Ship, 100);
}

/// No cell in `state` among the first `upto` cells: the count is zero.
proof fn lemma_count_none(board: Board, state: CellState, upto: nat)
    requires
        upto <= 100,
        forall|row: int, col: int|
            0 <= row < GRID_SIZE && 0 <= col < GRID_SIZE ==> #[trigger] cell_at(board, row, col)
                != state,
    ensures
        crate::grid::count_cells(board, state, upto) == 0,
    decreases upto,
{
    if upto > 0 {
        let k = upto - 1;
        lemma_count_none(board, state, k as nat);
        assert(cell_at(board, k / 10, k % 10) != state);
    }
}

/// On an exhausted board that held the whole fleet every ship cell is
/// hit: no health is left, and every further shot on the grid is refused
/// as `AlreadyFired`.
pub proof fn lemma_exhausted_side_is_destroyed(side: Player)
    requires
        side.health_sound(),
        side.full_fleet(),
        side.exhausted(),
    ensures
        side.hits_taken() == FLEET_CELLS,
        side.remaining_health == 0,
        forall|coord: (usize, usize)|
            in_bounds(coord) ==> #[trigger] side.shot_verdict(coord) == Err::<
                CellState,
                GameError,
            >(GameError::AlreadyFired),
{
    assert forall|row: int, col: int|
        0 <= row < GRID_SIZE && 0 <= col < GRID_SIZE implies #[trigger] cell_at(
        side.board,
        row,
        col,
    ) != CellState::Ship by {
        assert(cell_at(side.board, row, col).resolved());
    }
    lemma_count_none(side.board, CellState::Ship, 100);
    assert forall|coord: (usize, usize)| in_bounds(coord) implies #[trigger] side.shot_verdict(
        coord,
    ) == Err::<CellState, GameError>(GameError::AlreadyFired) by {
        assert(cell_at(side.board, coord.0 as int, coord.1 as int).resolved());
    }
}

/// The health invariant bounds the health: it lies between zero and the
/// fleet total, and it is zero exactly when seventeen cells are hit.
pub proof fn lemma_health_in_range(side: Player)
    requires
        side.health_sound(),
    ensures
        0 <= side.remaining_health <= FLEET_CELLS,
        side.remaining_health + side.hits_taken() == FLEET_CELLS,
        side.remaining_health == 0 <==> side.hits_taken() == FLEET_CELLS,
{
}

/// A cell in `state` is counted: the count of that state is at least one.
pub proof fn lemma_counted_cell(board: Board, row: int, col: int, state: CellState)
    requires
        0 <= row < GRID_SIZE,
        0 <= col < GRID_SIZE,
        cell_at(board, row, col) == state,
    ensures
        count_state(board, state) >= 1,
{
    lemma_count_reaches(board, row * 10 + col, state, 100);
}

/// A cell in `state` below `upto` makes the count up to there positive.
proof fn lemma_count_reaches(board: Board, index: int, state: CellState, upto: nat)
    requires
        0 <= index < upto,
        cell_at(board, index / 10, index % 10) == state,
    ensures
        crate::grid::count_cells(board, state, upto) >= 1,
    decreases upto,
{
    if index < upto - 1 {
        lemma_count_reaches(board, index, state, (upto - 1) as nat);
    }
}

/// A span that is free over `longer` cells is free over fewer.
pub proof fn lemma_span_free_shrinks(
    board: Board,
    anchor: (usize, usize),
    dir: Direction,
    shorter: int,
    longer: int,
)
    requires
        0 <= shorter <= longer,
        !span_free(board, anchor, dir, shorter),
    ensures
        !span_free(board, anchor, dir, longer),
{
    if span_free(board, anchor, dir, longer) {
        assert forall|row: int, col: int|
            0 <= row < GRID_SIZE && 0 <= col < GRID_SIZE && span_covers(
                anchor,
                dir,
                shorter,
                row,
                col,
            ) implies #[trigger] cell_at(board, row, col) == CellState::Empty by {
            assert(span_covers(anchor, dir, longer, row, col));
        }
    }
}

/// Placing a ship on free cells keeps a placement sound.
proof fn lemma_placement_extends(before: Player, after: Player, ship: Ship)
    requires
        before.placement_sound(),
        before.fits(ship),
        after.ships@ == before.ships@.push(ship),
        forall|row: int, col: int|
            0 <= row < GRID_SIZE && 0 <= col < GRID_SIZE ==> #[trigger] cell_at(
                after.board,
                row,
                col,
            ) == if ship.covers(row, col) {
                CellState::Ship
            } else {
                cell_at(before.board, row, col)
            },
    ensures
        after.placement_sound(),
{
    let n = before.ships@.len() as int;
    assert forall|i: int| 0 <= i < after.ships@.len() implies (
    #[trigger] after.ships@[i]).on_grid() by {
        if i < n {
            assert(after.ships@[i] == before.ships@[i]);
        }
    }
    assert forall|row: int, col: int| #[trigger] ship.covers(row, col) implies 0 <= row < GRID_SIZE
        && 0 <= col < GRID_SIZE && !before.covered(row, col) by {
        assert(cell_at(before.board, row, col) == CellState::Empty);
    }
    assert forall|i: int, j: int, row: int, col: int|
        #![trigger after.ships@[i].covers(row, col), after.ships@[j].covers(row, col)]
        0 <= i < j < after.ships@.len() && after.ships@[i].covers(
            row,
            col,
        ) implies !after.ships@[j].covers(row, col) by {
        assert(after.ships@[i] == before.ships@[i]);
        if j < n {
            assert(after.ships@[j] == before.ships@[j]);
        } else {
            if ship.covers(row, col) {
                assert(before.covered(row, col));
            }
        }
    }
    assert forall|row: int, col: int| 0 <= row < GRID_SIZE && 0 <= col < GRID_SIZE implies (
    #[trigger] cell_at(after.board, row, col)).occupied() == after.covered(row, col) by {
        if ship.covers(row, col) {
            assert(after.ships@[n].covers(row, col));
        } else {
            assert(cell_at(before.board, row, col).occupied() == before.covered(row, col));
            if before.covered(row, col) {
                let i = choose|i: int|
                    0 <= i < before.ships@.len() && #[trigger] before.ships@[i].covers(row, col);
                assert(after.ships@[i] == before.ships@[i]);
            }
            if after.covered(row, col) {
                let i = choose|i: int|
                    0 <= i < after.ships@.len() && #[trigger] after.ships@[i].covers(row, col);
                if i < n {
                    assert(after.ships@[i] == before.ships@[i]);
                }
            }
        }
    }
}

/// An accepted shot keeps a placement sound: it turns `Ship` into `Hit`
/// or `Empty` into `Miss`, and moves no ship.
proof fn lemma_placement_survives_shot(before: Player, after: Player, coord: (usize, usize))
    requires
        before.placement_sound(),
        before.shot_verdict(coord) matches Ok(outcome) && cell_at(
            after.board,
            coord.0 as int,
            coord.1 as int,
        ) == outcome,
        same_but(before.board, after.board, coord.0 as int, coord.1 as int),
        after.ships == before.ships,
    ensures
        after.placement_sound(),
{
    assert forall|row: int, col: int| 0 <= row < GRID_SIZE && 0 <= col < GRID_SIZE implies (
    #[trigger] cell_at(after.board, row, col)).occupied() == after.covered(row, col) by {
        assert(cell_at(before.board, row, col).occupied() == before.covered(row, col));
        if !(row == coord.0 && col == coord.1) {
            assert(cell_at(after.board, row, col) == cell_at(before.board, row, col));
        }
    }
}

} // verus!
