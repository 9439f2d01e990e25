//! What polling the neighbours yields: one outcome for each neighbour, and
//! the number of neighbours that report alive.
//!
//! A neighbour that could not be reached, timed out or failed to answer
//! counts as not alive. Such a failure never fails the tick, and the next
//! tick asks again.

use vstd::prelude::*;
use crate::state::CellStatus;

verus! {

/// How long a neighbour has to answer, in milliseconds, before the query to
/// it counts as failed.
pub const QUERY_TIMEOUT_MS: u64 = 1000;

/// How the query to one neighbour ended.
#[derive(Clone, Copy, Debug, PartialEq, Eq, Structural)]
pub enum PeerOutcome {
    /// The neighbour answered with its status.
    Answered(CellStatus),
    /// The neighbour was unreachable, timed out, or the query failed.
    Failed,
}

impl PeerOutcome {
    /// The neighbour answered, and said that it is alive.
    pub open spec fn spec_reports_alive(&self) -> bool {
        *self matches PeerOutcome::Answered(status) && status.alive
    }

    /// Whether the neighbour counts as alive.
    #[verifier::when_used_as_spec(spec_reports_alive)]
    pub fn reports_alive(&self) -> (alive: bool)
        ensures
            alive == self.spec_reports_alive(),
    {
        match self {
            PeerOutcome::Answered(status) => status.alive,
            PeerOutcome::Failed => false,
        }
    }
}

/// What one outcome adds to the number of live neighbours.
pub open spec fn tally(outcome: PeerOutcome) -> nat {
    if outcome.spec_reports_alive() {
        1
    } else {
        0
    }
}

/// The number of outcomes that report alive.
pub open spec fn alive_count(outcomes: Seq<PeerOutcome>) -> nat
    decreases outcomes.len(),
{
    if outcomes.len() == 0 {
        0
    } else {
        alive_count(outcomes.drop_last()) + tally(outcomes.last())
    }
}

/// Where no neighbour reports alive, the number of live neighbours is zero;
/// so it is where every query failed.
pub proof fn lemma_alive_count_zero(outcomes: Seq<PeerOutcome>)
    requires
        forall|i: int| 0 <= i < outcomes.len() ==> !(#[trigger] outcomes[i]).spec_reports_alive(),
    ensures
        alive_count(outcomes) == 0,
    decreases outcomes.len(),
{
    if outcomes.len() > 0 {
        lemma_alive_count_zero(outcomes.drop_last());
    }
}

} // verus!
