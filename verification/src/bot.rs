//! The targeting engine of the scripted side.
//!
//! The engine hunts while its queue of follow-up candidates holds nothing
//! new, and targets otherwise. A confirmed hit queues its neighbours in
//! front of older candidates; two adjacent hits lock the search to the row
//! or column they share.

use crate::board::Player;
use crate::entropy::random_below;
use crate::grid::{in_bounds, CellState, GRID_SIZE};
use std::collections::HashSet;
use std::collections::VecDeque;
use vstd::prelude::*;

verus! {

/// Number of cells of the grid.
pub const CELL_COUNT: usize = 100;

/// Uniform samples that a hunt draws before it sweeps the grid in row-major
/// order for the first admissible cell.
pub const HUNT_SAMPLES: usize = 1000;

/// Skill tier of the scripted side.
#[derive(Debug, Clone, Copy, PartialEq, Eq, Structural)]
pub enum Difficulty {
    Easy,
    Medium,
    Hard,
}

/// The four orthogonal neighbours of a cell.
#[derive(Debug, Clone, Copy, PartialEq, Eq, Structural)]
pub enum Heading {
    Up,
    Down,
    Left,
    Right,
}

/// The line that follow-up candidates are confined to.
#[derive(Debug, Clone, Copy, PartialEq, Eq, Structural)]
pub enum AxisLock {
    /// No two adjacent hits are known.
    Free,
    /// The last two hits share a row.
    Row,
    /// The last two hits share a column.
    Column,
}

/// Search state of the scripted side. `shots_fired` holds the row-major
/// index `row * 10 + col` of every coordinate handed out so far.
#[derive(Debug)]
pub struct BotState {
    pub difficulty: Difficulty,
    pub shots_fired: HashSet<usize>,
    pub last_hit: Option<(usize, usize)>,
    pub target_queue: VecDeque<(usize, usize)>,
}

/// Mathematical content of a [`BotState`].
pub struct BotView {
    pub difficulty: Difficulty,
    /// Coordinates handed out so far.
    pub fired: Set<(usize, usize)>,
    pub last_hit: Option<(usize, usize)>,
    /// Follow-up candidates, next one first.
    pub queue: Seq<(usize, usize)>,
}

/// Row-major index of a cell.
pub open spec fn cell_index(coord: (usize, usize)) -> int {
    coord.0 * GRID_SIZE + coord.1
}

/// The neighbour of `hit` towards `heading`, if the grid has one.
pub open spec fn neighbour(hit: (usize, usize), heading: Heading) -> Option<(usize, usize)> {
    let row: int = match heading {
        Heading::Up => hit.0 - 1,
        Heading::Down => hit.0 + 1,
        _ => hit.0 as int,
    };
    let col: int = match heading {
        Heading::Left => hit.1 - 1,
        Heading::Right => hit.1 + 1,
        _ => hit.1 as int,
    };
    if 0 <= row < GRID_SIZE && 0 <= col < GRID_SIZE {
        Some((row as usize, col as usize))
    } else {
        None
    }
}

/// The lock that a new hit at `hit` sets, given the previous confirmed hit:
/// `Row` or `Column` when the two are at Manhattan distance one, `Free`
/// otherwise.
pub open spec fn axis_lock(last_hit: Option<(usize, usize)>, hit: (usize, usize)) -> AxisLock {
    match last_hit {
        Some(prev) => {
            if prev.0 == hit.0 && (prev.1 - hit.1 == 1 || hit.1 - prev.1 == 1) {
                AxisLock::Row
            } else if prev.1 == hit.1 && (prev.0 - hit.0 == 1 || hit.0 - prev.0 == 1) {
                AxisLock::Column
            } else {
                AxisLock::Free
            }
        },
        None => AxisLock::Free,
    }
}

/// Whether `coord` lies on the line through `hit` that `lock` names.
pub open spec fn on_axis(lock: AxisLock, hit: (usize, usize), coord: (usize, usize)) -> bool {
    match lock {
        AxisLock::Free => true,
        AxisLock::Row => coord.0 == hit.0,
        AxisLock::Column => coord.1 == hit.1,
    }
}

/// [`on_axis`] as a predicate on coordinates.
pub open spec fn axis_filter(lock: AxisLock, hit: (usize, usize)) -> spec_fn(
    (usize, usize),
) -> bool {
    |coord: (usize, usize)| on_axis(lock, hit, coord)
}

impl Difficulty {
    /// The tier that a request names: `"Medium"` and `"Hard"` name their
    /// tiers; any other name, and no name, mean `Easy`.
    pub open spec fn named(name: Option<String>) -> Difficulty {
        match name {
            Some(text) => if text@ == "Medium"@ {
                Difficulty::Medium
            } else if text@ == "Hard"@ {
                Difficulty::Hard
            } else {
                Difficulty::Easy
            },
            None => Difficulty::Easy,
        }
    }

    /// The tier that a request names.
    pub fn from_request(name: Option<String>) -> (tier: Difficulty)
        ensures
            tier == Difficulty::named(name),
    {
        match name {
            Some(text) => {
                if text == "Medium".to_string() {
                    Difficulty::Medium
                } else if text == "Hard".to_string() {
                    Difficulty::Hard
                } else {
                    Difficulty::Easy
                }
            },
            None => Difficulty::Easy,
        }
    }
}

impl BotView {
    /// The state of an engine that has not fired yet.
    pub open spec fn fresh(difficulty: Difficulty) -> BotView {
        BotView { difficulty, fired: Set::empty(), last_hit: None, queue: Seq::empty() }
    }

    /// Entry `k` of the queue is the first that has not been fired at.
    pub open spec fn targets_at(self, k: int) -> bool {
        &&& 0 <= k < self.queue.len()
        &&& !self.fired.contains(self.queue[k])
        &&& forall|j: int| 0 <= j < k ==> self.fired.contains(#[trigger] self.queue[j])
    }

    /// Every queued candidate has been fired at already: the engine hunts.
    pub open spec fn queue_spent(self) -> bool {
        forall|j: int| 0 <= j < self.queue.len() ==> self.fired.contains(#[trigger] self.queue[j])
    }

    /// A cell that a hunt may choose: on the grid, never fired at, and of
    /// even `row + col` for the hardest tier.
    pub open spec fn huntable(self, coord: (usize, usize)) -> bool {
        &&& in_bounds(coord)
        &&& !self.fired.contains(coord)
        &&& self.difficulty == Difficulty::Hard ==> (coord.0 + coord.1) % 2 == 0
    }

    /// The state after the engine has handed out entry `k` of the queue:
    /// the entry is fired, and the queue has lost it and all before it.
    pub open spec fn after_target(self, k: int) -> BotView {
        BotView { fired: self.fired.insert(self.queue[k]), queue: self.queue.skip(k + 1), ..self }
    }

    /// The state after a hunt has handed out `coord`: the coordinate is
    /// fired and the queue is empty.
    pub open spec fn after_hunt(self, coord: (usize, usize)) -> BotView {
        BotView { fired: self.fired.insert(coord), queue: Seq::empty(), ..self }
    }

    /// The engine in state `self` may answer `shot` and pass to `after`.
    ///
    /// A coordinate that is handed out lies on the grid and was never
    /// fired at. It is the first queued candidate that was never fired
    /// at, if there is one; otherwise it is a cell that a hunt may choose.
    /// No coordinate is handed out only when neither exists.
    pub open spec fn hands_out(self, after: BotView, shot: Option<(usize, usize)>) -> bool {
        match shot {
            Some(coord) => {
                &&& in_bounds(coord)
                &&& !self.fired.contains(coord)
                &&& {
                    ||| exists|k: int|
                        {
                            &&& #[trigger] self.targets_at(k)
                            &&& coord == self.queue[k]
                            &&& after == self.after_target(k)
                        }
                    ||| {
                        &&& self.queue_spent()
                        &&& self.huntable(coord)
                        &&& after == self.after_hunt(coord)
                    }
                }
            },
            None => {
                &&& self.queue_spent()
                &&& forall|coord: (usize, usize)| !#[trigger] self.huntable(coord)
                &&& after == (BotView { queue: Seq::empty(), ..self })
            },
        }
    }

    /// What a neighbour contributes to the queue: itself, if the grid has
    /// it, it was never fired at and it lies on the locked line.
    pub open spec fn candidate(self, hit: (usize, usize), lock: AxisLock, heading: Heading) -> Seq<
        (usize, usize),
    > {
        match neighbour(hit, heading) {
            Some(coord) => if !self.fired.contains(coord) && on_axis(lock, hit, coord) {
                seq![coord]
            } else {
                Seq::empty()
            },
            None => Seq::empty(),
        }
    }

    /// The neighbours of `hit` that enter the queue, in queue order.
    pub open spec fn fresh_neighbours(self, hit: (usize, usize), lock: AxisLock) -> Seq<
        (usize, usize),
    > {
        self.candidate(hit, lock, Heading::Right) + self.candidate(hit, lock, Heading::Left)
            + self.candidate(hit, lock, Heading::Down) + self.candidate(hit, lock, Heading::Up)
    }

    /// The state after the outcome of the shot at `coord` has been fed
    /// back. Only a hit, and only above the lowest tier, changes anything:
    /// the queue is pruned to the locked line, the fresh neighbours of the
    /// hit go in front of it, and the hit becomes the last confirmed one.
    pub open spec fn after_result(self, coord: (usize, usize), result: CellState) -> BotView {
        if self.difficulty != Difficulty::Easy && result == CellState::Hit {
            let lock = axis_lock(self.last_hit, coord);
            BotView {
                last_hit: Some(coord),
                queue: self.fresh_neighbours(coord, lock) + self.queue.filter(
                    axis_filter(lock, coord),
                ),
                ..self
            }
        } else {
            self
        }
    }
}

impl View for BotState {
    type V = BotView;

    open spec fn view(&self) -> BotView {
        BotView {
            difficulty: self.difficulty,
            fired: Set::new(
                |coord: (usize, usize)|
                    in_bounds(coord) && self.shots_fired@.contains(cell_index(coord) as usize),
            ),
            last_hit: self.last_hit,
            queue: self.target_queue@,
        }
    }
}

/// Once two adjacent hits have locked an axis, every candidate left in the
/// queue lies on that axis.
pub proof fn lemma_lock_confines_queue(state: BotView, coord: (usize, usize), result: CellState)
    requires
        state.difficulty != Difficulty::Easy,
        result == CellState::Hit,
    ensures
        forall|i: int|
            0 <= i < state.after_result(coord, result).queue.len() ==> on_axis(
                axis_lock(state.last_hit, coord),
                coord,
                #[trigger] state.after_result(coord, result).queue[i],
            ),
{
    let lock = axis_lock(state.last_hit, coord);
    let fresh = state.fresh_neighbours(coord, lock);
    let kept = state.queue.filter(axis_filter(lock, coord));
    let after = state.after_result(coord, result).queue;
    assert forall|i: int| 0 <= i < after.len() implies on_axis(
        lock,
        coord,
        #[trigger] after[i],
    ) by {
        if i >= fresh.len() {
            state.queue.lemma_filter_pred(axis_filter(lock, coord), i - fresh.len());
            assert(after[i] == kept[i - fresh.len()]);
        }
    }
}

/// Parity search: while the engine of the hardest tier hunts, every
/// coordinate it hands out has an even sum of row and column.
pub proof fn lemma_hard_hunts_even(state: BotView, after: BotView, coord: (usize, usize))
    requires
        state.difficulty == Difficulty::Hard,
        state.queue_spent(),
        state.hands_out(after, Some(coord)),
    ensures
        (coord.0 + coord.1) % 2 == 0,
        after.queue.len() == 0,
{
    if exists|k: int| #[trigger] state.targets_at(k) {
        let k = choose|k: int| #[trigger] state.targets_at(k);
        assert(state.fired.contains(state.queue[k]));
    }
}

/// No repeat: a coordinate that the engine hands out was never handed out
/// before, and is recorded as fired from then on.
pub proof fn lemma_no_repeat(state: BotView, after: BotView, coord: (usize, usize))
    requires
        state.hands_out(after, Some(coord)),
    ensures
        in_bounds(coord),
        !state.fired.contains(coord),
        after.fired == state.fired.insert(coord),
        forall|next: BotView, again: (usize, usize)|
            #[trigger] after.hands_out(next, Some(again)) ==> again != coord,
{
}

/// Feeding back a result never queues a cell outside the grid.
pub proof fn lemma_result_keeps_queue_on_grid(
    state: BotView,
    coord: (usize, usize),
    result: CellState,
)
    requires
        forall|i: int| 0 <= i < state.queue.len() ==> in_bounds(#[trigger] state.queue[i]),
    ensures
        forall|i: int|
            0 <= i < state.after_result(coord, result).queue.len() ==> in_bounds(
                #[trigger] state.after_result(coord, result).queue[i],
            ),
{
    if state.difficulty != Difficulty::Easy && result == CellState::Hit {
        let lock = axis_lock(state.last_hit, coord);
        let fresh = state.fresh_neighbours(coord, lock);
        let kept = state.queue.filter(axis_filter(lock, coord));
        let after = state.after_result(coord, result).queue;
        assert forall|i: int| 0 <= i < after.len() implies in_bounds(#[trigger] after[i]) by {
            if i >= fresh.len() {
                let j = i - fresh.len();
                assert(after[i] == kept[j]);
                assert(kept.contains(kept[j]));
                state.queue.lemma_filter_contains_rev(axis_filter(lock, coord), kept[j]);
            }
        }
    }
}

/// Calls `Clone::clone` of `std::collections::HashSet`. The contract
/// claims that the copy holds the same keys as the set it was made from,
/// as the documentation of `Clone` says of a copy.
#[verifier::external_body]
fn copy_of_keys(keys: &HashSet<usize>) -> (copy: HashSet<usize>)
    ensures
        copy@ == keys@,
{
    keys.clone()
}

impl Clone for BotState {
    fn clone(&self) -> (copy: BotState)
        ensures
            copy@ == self@,
            copy.difficulty == self.difficulty,
            copy.shots_fired@ == self.shots_fired@,
            copy.last_hit == self.last_hit,
            copy.target_queue@ == self.target_queue@,
            copy.wf() == self.wf(),
    {
        let count: usize = self.target_queue.len();
        let mut queue: VecDeque<(usize, usize)> = VecDeque::new();
        let mut i: usize = 0;
        while i < count
            invariant
                i <= count,
                count == self.target_queue@.len(),
                queue@ == self.target_queue@.take(i as int),
            decreases count - i,
        {
            let coord: (usize, usize) = self.target_queue[i];
            queue.push_back(coord);
            assert(self.target_queue@.take(i + 1) =~= self.target_queue@.take(i as int).push(
                coord,
            ));
            i = i + 1;
        }
        assert(self.target_queue@.take(count as int) =~= self.target_queue@);
        let copy = BotState {
            difficulty: self.difficulty,
            shots_fired: copy_of_keys(&self.shots_fired),
            last_hit: self.last_hit,
            target_queue: queue,
        };
        assert(copy@.fired =~= self@.fired);
        copy
    }
}

impl BotState {
    /// Well-formedness: every queued candidate is a cell of the grid.
    pub open spec fn wf(&self) -> bool {
        forall|i: int|
            0 <= i < self.target_queue@.len() ==> in_bounds(#[trigger] self.target_queue@[i])
    }

    /// Tells whether the engine is well-formed, by looking through its
    /// queue.
    pub fn is_wf(&self) -> (ok: bool)
        ensures
            ok == self.wf(),
    {
        let count: usize = self.target_queue.len();
        let mut i: usize = 0;
        while i < count
            invariant
                i <= count,
                count == self.target_queue@.len(),
                forall|j: int| 0 <= j < i ==> in_bounds(#[trigger] self.target_queue@[j]),
            decreases count - i,
        {
            let coord: (usize, usize) = self.target_queue[i];
            if coord.0 >= GRID_SIZE || coord.1 >= GRID_SIZE {
                assert(!in_bounds(self.target_queue@[i as int]));
                return false;
            }
            i = i + 1;
        }
        true
    }

    /// A fresh engine: nothing fired, nothing queued, no hit known.
    pub fn new(difficulty: Difficulty) -> (state: BotState)
        ensures
            state.wf(),
            state@ == BotView::fresh(difficulty),
            state.difficulty == difficulty,
            state.shots_fired@ =~= Set::<usize>::empty(),
            state.target_queue@ =~= Seq::<(usize, usize)>::empty(),
            state.last_hit.is_none(),
    {
        let state = BotState {
            difficulty,
            shots_fired: HashSet::new(),
            last_hit: None,
            target_queue: VecDeque::new(),
        };
        assert(state@.fired =~= Set::<(usize, usize)>::empty());
        state
    }

    /// Whether `coord` has been handed out before.
    pub fn has_fired(&self, coord: (usize, usize)) -> (fired: bool)
        ensures
            fired == self@.fired.contains(coord),
    {
        if coord.0 < GRID_SIZE && coord.1 < GRID_SIZE {
            let key: usize = coord.0 * GRID_SIZE + coord.1;
            self.shots_fired.contains(&key)
        } else {
            false
        }
    }

    /// The keys that `shots_fired` holds once `shot` has been handed out:
    /// the index of the coordinate joins them, and nothing else does.
    pub open spec fn keys_after(&self, shot: Option<(usize, usize)>) -> Set<usize> {
        match shot {
            Some(coord) => self.shots_fired@.insert(cell_index(coord) as usize),
            None => self.shots_fired@,
        }
    }

    /// Records `coord` as handed out.
    fn mark_fired(&mut self, coord: (usize, usize))
        requires
            in_bounds(coord),
        ensures
            final(self)@ == (BotView { fired: old(self)@.fired.insert(coord), ..old(self)@ }),
            final(self).target_queue == old(self).target_queue,
            final(self).shots_fired@ == old(self).keys_after(Some(coord)),
    {
        let key: usize = coord.0 * GRID_SIZE + coord.1;
        self.shots_fired.insert(key);
        assert(self@.fired =~= old(self)@.fired.insert(coord)) by {
            assert forall|other: (usize, usize)|
                self@.fired.contains(other) <==> old(self)@.fired.insert(coord).contains(
                    other,
                ) by {
                if in_bounds(other) && other != coord {
                    assert(cell_index(other) != cell_index(coord));
                }
            }
        }
    }

    /// Takes a sampled cell for a hunt: if the cell is admissible it is
    /// recorded as fired and the answer is `true`; otherwise nothing
    /// changes.
    pub fn try_hunt(&mut self, coord: (usize, usize)) -> (taken: bool)
        ensures
            taken == old(self)@.huntable(coord),
            taken ==> final(self)@ == (BotView {
                fired: old(self)@.fired.insert(coord),
                ..old(self)@
            }),
            taken ==> final(self).shots_fired@ == old(self).keys_after(Some(coord)),
            !taken ==> *final(self) == *old(self),
            final(self).target_queue == old(self).target_queue,
    {
        if coord.0 >= GRID_SIZE || coord.1 >= GRID_SIZE {
            return false;
        }
        if self.has_fired(coord) {
            return false;
        }
        if self.difficulty == Difficulty::Hard && (coord.0 + coord.1) % 2 != 0 {
            return false;
        }
        self.mark_fired(coord);
        true
    }

    /// Chooses the next coordinate to fire at and records it as fired.
    ///
    /// While the queue holds a candidate that was never fired at, the first
    /// such candidate is chosen and the queue loses it and everything
    /// before it. Otherwise the queue is emptied and the engine hunts: it
    /// chooses an admissible cell, at random as long as sampling finds one.
    /// `None` is returned only when no admissible cell is left.
    pub fn next_shot(&mut self) -> (shot: Option<(usize, usize)>)
        requires
            old(self).wf(),
        ensures
            final(self).wf(),
            old(self)@.hands_out(final(self)@, shot),
            final(self).shots_fired@ == old(self).keys_after(shot),
    {
        let ghost before = self@;
        let ghost mut popped: int = 0;
        assert(before.queue.skip(0) =~= before.queue);
        loop
            invariant
                self.wf(),
                before == old(self)@,
                0 <= popped <= before.queue.len(),
                self.shots_fired@ == old(self).shots_fired@,
                self@ == (BotView { queue: before.queue.skip(popped), ..before }),
                forall|j: int|
                    0 <= j < popped ==> before.fired.contains(#[trigger] before.queue[j]),
            ensures
                popped == before.queue.len(),
            decreases self.target_queue@.len(),
        {
            match self.target_queue.pop_front() {
                Some(target) => {
                    assert(target == before.queue[popped]);
                    assert(self.target_queue@ =~= before.queue.skip(popped + 1));
                    if !self.has_fired(target) {
                        self.mark_fired(target);
                        assert(before.targets_at(popped));
                        assert(self@ == before.after_target(popped));
                        return Some(target);
                    }
                    proof {
                        popped = popped + 1;
                    }
                },
                None => {
                    break ;
                },
            }
        }
        assert(before.queue_spent());
        assert(before.queue.skip(popped) =~= Seq::<(usize, usize)>::empty());

        let mut draws: usize = 0;
        while draws < HUNT_SAMPLES
            invariant
                self.wf(),
                before == old(self)@,
                before.queue_spent(),
                self.shots_fired@ == old(self).shots_fired@,
                self@ == (BotView { queue: Seq::empty(), ..before }),
            decreases HUNT_SAMPLES - draws,
        {
            let row: usize = random_below(GRID_SIZE);
            let col: usize = random_below(GRID_SIZE);
            if self.try_hunt((row, col)) {
                assert(self@ == before.after_hunt((row, col)));
                return Some((row, col));
            }
            draws = draws + 1;
        }

        let mut index: usize = 0;
        while index < CELL_COUNT
            invariant
                self.wf(),
                before == old(self)@,
                before.queue_spent(),
                index <= CELL_COUNT,
                self.shots_fired@ == old(self).shots_fired@,
                self@ == (BotView { queue: Seq::empty(), ..before }),
                forall|coord: (usize, usize)|
                    in_bounds(coord) && cell_index(coord) < index ==> !before.huntable(coord),
            decreases CELL_COUNT - index,
        {
            let coord: (usize, usize) = (index / GRID_SIZE, index % GRID_SIZE);
            if self.try_hunt(coord) {
                assert(self@ == before.after_hunt(coord));
                return Some(coord);
            }
            assert forall|other: (usize, usize)|
                in_bounds(other) && cell_index(other) < index + 1 implies !before.huntable(
                other,
            ) by {
                if cell_index(other) == index {
                    assert(other == coord);
                }
            }
            index = index + 1;
        }
        assert forall|coord: (usize, usize)| !before.huntable(coord) by {
            if in_bounds(coord) {
                assert(cell_index(coord) < CELL_COUNT);
            }
        }
        None
    }

    /// The lock that a hit at `hit` sets against the previous confirmed hit.
    fn lock_for(&self, hit: (usize, usize)) -> (lock: AxisLock)
        ensures
            lock == axis_lock(self.last_hit, hit),
    {
        match self.last_hit {
            Some(prev) => {
                if prev.0 == hit.0 && adjacent(prev.1, hit.1) {
                    AxisLock::Row
                } else if prev.1 == hit.1 && adjacent(prev.0, hit.0) {
                    AxisLock::Column
                } else {
                    AxisLock::Free
                }
            },
            None => AxisLock::Free,
        }
    }

    /// Drops every queued candidate off the locked line, keeping the order
    /// of the others.
    fn prune_queue(&mut self, lock: AxisLock, hit: (usize, usize))
        ensures
            final(self)@ == (BotView {
                queue: old(self)@.queue.filter(axis_filter(lock, hit)),
                ..old(self)@
            }),
            final(self).shots_fired == old(self).shots_fired,
    {
        let ghost queue = self.target_queue@;
        let ghost keep = axis_filter(lock, hit);
        let count: usize = self.target_queue.len();
        let mut kept: VecDeque<(usize, usize)> = VecDeque::new();
        let mut i: usize = 0;
        assert(queue.take(0).filter(keep) =~= Seq::<(usize, usize)>::empty()) by {
            reveal(Seq::filter);
        }
        while i < count
            invariant
                i <= count,
                count == queue.len(),
                self.target_queue@ == queue,
                keep == axis_filter(lock, hit),
                kept@ == queue.take(i as int).filter(keep),
            decreases count - i,
        {
            let coord: (usize, usize) = self.target_queue[i];
            proof {
                reveal(Seq::filter);
                assert(queue.take(i + 1).drop_last() =~= queue.take(i as int));
                assert(queue.take(i + 1).last() == coord);
            }
            if lies_on_axis(lock, hit, coord) {
                kept.push_back(coord);
            }
            i = i + 1;
        }
        assert(queue.take(count as int) =~= queue);
        self.target_queue = kept;
    }

    /// Queues the neighbour of `hit` towards `heading` in front, if it is
    /// admissible.
    fn offer(&mut self, hit: (usize, usize), lock: AxisLock, heading: Heading)
        ensures
            final(self)@ == (BotView {
                queue: old(self)@.candidate(hit, lock, heading) + old(self)@.queue,
                ..old(self)@
            }),
            final(self).shots_fired == old(self).shots_fired,
    {
        match neighbour_of(hit, heading) {
            Some(coord) => {
                if !self.has_fired(coord) && lies_on_axis(lock, hit, coord) {
                    self.target_queue.push_front(coord);
                } else {
                    assert(Seq::<(usize, usize)>::empty() + self.target_queue@
                        =~= self.target_queue@);
                }
            },
            None => {
                assert(Seq::<(usize, usize)>::empty() + self.target_queue@ =~= self.target_queue@);
            },
        }
    }

    /// Feeds the outcome of the shot at `coord` back into the search.
    pub fn record_result(&mut self, coord: (usize, usize), result: CellState)
        requires
            old(self).wf(),
        ensures
            final(self).wf(),
            final(self)@ == old(self)@.after_result(coord, result),
            final(self).shots_fired == old(self).shots_fired,
            old(self)@.difficulty != Difficulty::Easy && result == CellState::Hit ==> forall|i: int|
                0 <= i < final(self)@.queue.len() ==> on_axis(
                    axis_lock(old(self)@.last_hit, coord),
                    coord,
                    #[trigger] final(self)@.queue[i],
                ),
    {
        if self.difficulty != Difficulty::Easy && result == CellState::Hit {
            let lock: AxisLock = self.lock_for(coord);
            self.prune_queue(lock, coord);
            self.last_hit = Some(coord);
            let ghost pruned = self@;
            self.offer(coord, lock, Heading::Up);
            self.offer(coord, lock, Heading::Down);
            self.offer(coord, lock, Heading::Left);
            self.offer(coord, lock, Heading::Right);
            proof {
                let start = old(self)@;
                assert(forall|h: Heading|
                    #![auto]
                    pruned.candidate(coord, lock, h) == start.candidate(coord, lock, h));
                assert(self@.queue =~= start.fresh_neighbours(coord, lock) + pruned.queue);
                lemma_lock_confines_queue(start, coord, result);
            }
        }
        proof {
            lemma_result_keeps_queue_on_grid(old(self)@, coord, result);
        }
    }
}

impl Player {
    /// What the coordinate request of this side answers, and the side it
    /// leaves behind. A side without a targeting engine answers `(0, 0)`
    /// and does not change; otherwise the engine decides, and only the
    /// engine changes.
    pub open spec fn bot_moves(&self, after: Player, shot: Option<(usize, usize)>) -> bool {
        &&& self.same_board(after)
        &&& match self.bot_state {
            Some(engine) => {
                &&& after.bot_state matches Some(next)
                &&& engine@.hands_out(next@, shot)
                &&& next.shots_fired@ == engine.keys_after(shot)
            },
            None => after.bot_state.is_none() && shot == Some((0usize, 0usize)),
        }
    }

    /// What feeding back the outcome of a shot leaves behind: the engine,
    /// if there is one, takes the result; nothing else changes.
    pub open spec fn bot_learns(
        &self,
        after: Player,
        coords: (usize, usize),
        result: CellState,
    ) -> bool {
        &&& self.same_board(after)
        &&& match self.bot_state {
            Some(engine) => {
                &&& after.bot_state matches Some(next)
                &&& next@ == engine@.after_result(coords, result)
                &&& next.shots_fired == engine.shots_fired
            },
            None => after.bot_state.is_none(),
        }
    }

    /// The next coordinate that the scripted side fires at; see
    /// [`BotState::next_shot`]. `None` means that the engine has no
    /// admissible cell left.
    pub fn get_bot_move(&mut self) -> (shot: Option<(usize, usize)>)
        requires
            old(self).bot_state matches Some(engine) ==> engine.wf(),
        ensures
            old(self).bot_moves(*final(self), shot),
            final(self).bot_state matches Some(engine) ==> engine.wf(),
    {
        match &mut self.bot_state {
            Some(state) => state.next_shot(),
            None => Some((0, 0)),
        }
    }

    /// Feeds the outcome of the shot at `coords` back into the engine; see
    /// [`BotState::record_result`].
    pub fn process_bot_move_result(&mut self, coords: (usize, usize), result: CellState)
        requires
            old(self).bot_state matches Some(engine) ==> engine.wf(),
        ensures
            old(self).bot_learns(*final(self), coords, result),
            final(self).bot_state matches Some(engine) ==> engine.wf(),
    {
        match &mut self.bot_state {
            Some(state) => {
                state.record_result(coords, result);
            },
            None => {},
        }
    }
}

/// Whether two indices differ by exactly one.
fn adjacent(a: usize, b: usize) -> (yes: bool)
    ensures
        yes == (a - b == 1 || b - a == 1),
{
    (a < b && b - a == 1) || (b < a && a - b == 1)
}

/// Executable form of [`on_axis`].
fn lies_on_axis(lock: AxisLock, hit: (usize, usize), coord: (usize, usize)) -> (yes: bool)
    ensures
        yes == on_axis(lock, hit, coord),
{
    match lock {
        AxisLock::Free => true,
        AxisLock::Row => coord.0 == hit.0,
        AxisLock::Column => coord.1 == hit.1,
    }
}

/// Executable form of [`neighbour`].
fn neighbour_of(hit: (usize, usize), heading: Heading) -> (cell: Option<(usize, usize)>)
    ensures
        cell == neighbour(hit, heading),
{
    let (row, col) = hit;
    match heading {
        Heading::Up => if 0 < row && row <= GRID_SIZE && col < GRID_SIZE {
            Some((row - 1, col))
        } else {
            None
        },
        Heading::Down => if row < GRID_SIZE - 1 && col < GRID_SIZE {
            Some((row + 1, col))
        } else {
            None
        },
        Heading::Left => if 0 < col && col <= GRID_SIZE && row < GRID_SIZE {
            Some((row, col - 1))
        } else {
            None
        },
        Heading::Right => if col < GRID_SIZE - 1 && row < GRID_SIZE {
            Some((row, col + 1))
        } else {
            None
        },
    }
}

} // verus!
