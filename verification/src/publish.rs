//! What is published after each commit: one label on the node's own object
//! in the control plane, which says whether the cell is alive.
//!
//! Publishing is best effort. The program around the library sends the
//! label once; a failure is dropped and changes nothing here.

use vstd::prelude::*;

verus! {

/// The key of the label that carries the cell's liveness.
pub const STATUS_LABEL_KEY: &'static str = "game-status";

/// The value of the label for a cell with the given liveness: `alive` or
/// `dead`.
pub open spec fn spec_status_label(alive: bool) -> Seq<char> {
    if alive {
        "alive"@
    } else {
        "dead"@
    }
}

/// The value of the label for a cell with the given liveness.
pub fn status_label(alive: bool) -> (label: &'static str)
    ensures
        label@ == spec_status_label(alive),
{
    if alive {
        "alive"
    } else {
        "dead"
    }
}

} // verus!
