//! The transition rule of the automaton.

use vstd::prelude::*;

verus! {

/// The next liveness of a cell, from its current liveness and the number of
/// its neighbours that are alive: a live cell survives with two or three live
/// neighbours, a dead cell is born with exactly three.
pub open spec fn spec_rule(previous_alive: bool, alive_neighbor_count: nat) -> bool {
    if previous_alive {
        alive_neighbor_count == 2 || alive_neighbor_count == 3
    } else {
        alive_neighbor_count == 3
    }
}

/// Evaluates the transition rule for one cell.
pub fn rule(previous_alive: bool, alive_neighbor_count: usize) -> (next_alive: bool)
    ensures
        next_alive == spec_rule(previous_alive, alive_neighbor_count as nat),
{
    if previous_alive {
        alive_neighbor_count == 2 || alive_neighbor_count == 3
    } else {
        alive_neighbor_count == 3
    }
}

} // verus!
