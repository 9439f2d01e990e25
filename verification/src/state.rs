//! The state of this node's cell and the store that holds it.
//!
//! The store is an owned value with two operations: `read` hands out a
//! snapshot, `commit` moves the cell on by one generation. A snapshot is a
//! whole state; there is no way to take its two fields from different
//! generations. A program that answers queries while it ticks shares one
//! store behind a lock and calls these two operations under it.

use vstd::prelude::*;

verus! {

/// The state of a cell: whether it is alive, and how many generations it has
/// gone through.
#[derive(Clone, Copy, Debug, PartialEq, Eq, Structural)]
pub struct CellState {
    pub alive: bool,
    pub generation: i32,
}

/// The answer to a status query, as it goes over the wire.
#[derive(Clone, Copy, Debug, PartialEq, Eq, Structural)]
pub struct CellStatus {
    pub alive: bool,
    pub generation: i32,
}

/// The store of this node's cell state.
pub struct MyCell {
    state: CellState,
    /// Element `g` is the liveness that the cell had at generation `g`.
    history: Ghost<Seq<bool>>,
}

impl View for MyCell {
    type V = CellState;

    closed spec fn view(&self) -> CellState {
        self.state
    }
}

impl MyCell {
    /// The generation counts the commits so far, and the liveness is that of
    /// the last of them.
    #[verifier::type_invariant]
    pub closed spec fn wf(self) -> bool {
        &&& 0 <= self.state.generation
        &&& self.history@.len() == self.state.generation + 1
        &&& self.history@[self.state.generation as int] == self.state.alive
    }

    /// The liveness of the cell at each generation so far, the first one
    /// included.
    pub closed spec fn history(&self) -> Seq<bool> {
        self.history@
    }

    /// A snapshot never mixes generations: its generation is the latest, and
    /// its liveness is the one committed at that generation.
    pub proof fn lemma_snapshot_is_latest(self)
        requires
            self.wf(),
        ensures
            0 <= self@.generation,
            self.history().len() == self@.generation + 1,
            self.history()[self@.generation as int] == self@.alive,
    {
    }

    /// A store for a cell that starts at generation 0 with the given
    /// liveness.
    pub fn new(initial_alive: bool) -> (cell: MyCell)
        ensures
            cell.wf(),
            cell@ == (CellState { alive: initial_alive, generation: 0 }),
            cell.history() == seq![initial_alive],
    {
        let history = Ghost(Seq::empty().push(initial_alive));
        MyCell { state: CellState { alive: initial_alive, generation: 0 }, history }
    }

    /// A snapshot of the current state.
    pub fn read(&self) -> (snapshot: CellState)
        ensures
            snapshot == self@,
            0 <= snapshot.generation,
            self.history().len() == snapshot.generation + 1,
            self.history()[snapshot.generation as int] == snapshot.alive,
    {
        proof {
            use_type_invariant(self);
        }
        self.state
    }

    /// Whether the generation counter can still go up by one.
    pub fn can_commit(&self) -> (yes: bool)
        ensures
            yes == (self@.generation < i32::MAX),
    {
        self.state.generation < i32::MAX
    }

    /// Moves the cell on by one generation, in which it has the given
    /// liveness, and returns the new snapshot.
    pub fn commit(&mut self, next_alive: bool) -> (snapshot: CellState)
        requires
            old(self)@.generation < i32::MAX,
        ensures
            final(self).wf(),
            final(self)@ == (CellState {
                alive: next_alive,
                generation: (old(self)@.generation + 1) as i32,
            }),
            final(self).history() == old(self).history().push(next_alive),
            snapshot == final(self)@,
    {
        proof {
            use_type_invariant(&*self);
        }
        let state = CellState { alive: next_alive, generation: self.state.generation + 1 };
        let history = Ghost(self.history@.push(next_alive));
        *self = MyCell { state, history };
        state
    }

    /// Answers a peer's status query with the current snapshot.
    pub fn get_status(&self) -> (status: CellStatus)
        ensures
            status.alive == self@.alive,
            status.generation == self@.generation,
    {
        CellStatus { alive: self.state.alive, generation: self.state.generation }
    }
}

} // verus!
