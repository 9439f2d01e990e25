//! The tick scheduler: the state machine that takes this node's cell from one
//! generation to the next.
//!
//! The scheduler is idle until the period elapses. It then asks for every
//! neighbour to be queried and waits until each query has an outcome; with
//! the last outcome it evaluates the rule on the current snapshot, commits
//! the result and asks for the new liveness to be published. The program
//! around it does the waiting and the queries, and hands each event to
//! `step`. A period that elapses while a tick is under way is passed over:
//! ticks do not overlap.

use vstd::prelude::*;
use crate::poller::alive_count;
use crate::poller::tally;
use crate::poller::PeerOutcome;
use crate::rule::rule;
use crate::rule::spec_rule;
use crate::state::CellState;
use crate::state::MyCell;
use crate::topology::is_neighbor_set;
use crate::topology::neighbor_count;
use crate::topology::NodeIdentity;

verus! {

/// What one tick found and decided.
#[derive(Clone, Copy, Debug, PartialEq, Eq, Structural)]
pub struct TickOutcome {
    pub alive_neighbor_count: usize,
    pub previous_alive: bool,
    pub next_alive: bool,
}

/// The state of the scheduler.
#[derive(Clone, Copy, Debug, PartialEq, Eq, Structural)]
pub enum Phase {
    /// Waiting for the period to elapse.
    Idle,
    /// A tick is under way: `resolved` queries have an outcome so far, and
    /// `alive` of them report alive.
    Ticking { resolved: usize, alive: usize },
}

/// What the program around the scheduler reports to it.
#[derive(Clone, Copy, Debug, PartialEq, Eq, Structural)]
pub enum Event {
    /// The period has elapsed.
    PeriodElapsed,
    /// The query to one neighbour has ended.
    PeerResolved(PeerOutcome),
}

/// What the scheduler asks the program around it to do next.
#[derive(Clone, Copy, Debug, PartialEq, Eq, Structural)]
pub enum Action {
    /// Nothing: wait for the next event.
    Wait,
    /// Query every neighbour, and report each outcome.
    QueryNeighbors,
    /// The tick is done and `state` is committed: publish its liveness, then
    /// wait for the next period.
    Publish { outcome: TickOutcome, state: CellState },
}

/// The scheduler's phase, the cell's state and the action asked for, after
/// one event.
pub struct Step {
    pub phase: Phase,
    pub state: CellState,
    pub action: Action,
}

/// The state that follows `state` when `count` neighbours are alive: the
/// rule decides the liveness, and the generation goes up by one.
pub open spec fn advance(state: CellState, count: nat) -> CellState {
    CellState { alive: spec_rule(state.alive, count), generation: (state.generation + 1) as i32 }
}

/// The end of a tick that found `count` live neighbours.
pub open spec fn finish(state: CellState, count: nat) -> Step {
    let next = advance(state, count);
    Step {
        phase: Phase::Idle,
        state: next,
        action: Action::Publish {
            outcome: TickOutcome {
                alive_neighbor_count: count as usize,
                previous_alive: state.alive,
                next_alive: next.alive,
            },
            state: next,
        },
    }
}

/// The event ends a tick of a node with `total` neighbours.
pub open spec fn completes(total: nat, phase: Phase, event: Event) -> bool {
    match (phase, event) {
        (Phase::Idle, Event::PeriodElapsed) => total == 0,
        (Phase::Ticking { resolved, alive }, Event::PeerResolved(outcome)) => resolved + 1 >= total,
        _ => false,
    }
}

/// What one event does to a node with `total` neighbours.
///
/// When the period elapses on an idle scheduler a tick begins; a node
/// without neighbours ends it at once, with no live neighbour. During a
/// tick each outcome is counted, and the last one ends the tick. Any other
/// event changes nothing.
pub open spec fn spec_step(total: nat, phase: Phase, state: CellState, event: Event) -> Step {
    match (phase, event) {
        (Phase::Idle, Event::PeriodElapsed) => if total == 0 {
            finish(state, 0)
        } else {
            Step {
                phase: Phase::Ticking { resolved: 0, alive: 0 },
                state,
                action: Action::QueryNeighbors,
            }
        },
        (Phase::Ticking { resolved, alive }, Event::PeerResolved(outcome)) => if resolved + 1
            >= total {
            finish(state, alive as nat + tally(outcome))
        } else {
            Step {
                phase: Phase::Ticking {
                    resolved: (resolved + 1) as usize,
                    alive: (alive + tally(outcome)) as usize,
                },
                state,
                action: Action::Wait,
            }
        },
        _ => Step { phase, state, action: Action::Wait },
    }
}

/// The phase and the state after a run of events.
pub open spec fn spec_run(total: nat, phase: Phase, state: CellState, events: Seq<Event>) -> (
    Phase,
    CellState,
)
    decreases events.len(),
{
    if events.len() == 0 {
        (phase, state)
    } else {
        let before = spec_run(total, phase, state, events.drop_last());
        let step = spec_step(total, before.0, before.1, events.last());
        (step.phase, step.state)
    }
}

/// The events of one whole tick: the period elapses, then each neighbour's
/// query ends, in the order of `outcomes`.
pub open spec fn tick_events(outcomes: Seq<PeerOutcome>) -> Seq<Event> {
    seq![Event::PeriodElapsed] + outcomes.map_values(|o: PeerOutcome| Event::PeerResolved(o))
}

/// In the middle of a tick, the scheduler has counted the outcomes so far.
proof fn lemma_tick_under_way(total: nat, state: CellState, outcomes: Seq<PeerOutcome>)
    requires
        outcomes.len() < total <= usize::MAX,
    ensures
        spec_run(total, Phase::Idle, state, tick_events(outcomes)) == (
            Phase::Ticking {
                resolved: outcomes.len() as usize,
                alive: alive_count(outcomes) as usize,
            },
            state,
        ),
        alive_count(outcomes) <= outcomes.len(),
    decreases outcomes.len(),
{
    let events = tick_events(outcomes);
    if outcomes.len() == 0 {
        assert(events.drop_last() =~= Seq::<Event>::empty());
        assert(spec_run(total, Phase::Idle, state, events.drop_last()) == (Phase::Idle, state));
        assert(events.last() == Event::PeriodElapsed);
    } else {
        let earlier = outcomes.drop_last();
        lemma_tick_under_way(total, state, earlier);
        assert(events.drop_last() =~= tick_events(earlier));
        assert(events.last() == Event::PeerResolved(outcomes.last()));
        assert(alive_count(outcomes) == alive_count(earlier) + tally(outcomes.last()));
    }
}

/// One whole tick commits exactly once: from an idle scheduler, the period
/// elapsing and then one outcome for each neighbour leave the scheduler
/// idle again, the generation one higher, and the liveness what the rule
/// gives for the liveness before the tick and the number of outcomes that
/// report alive.
pub proof fn lemma_tick_commits_rule(total: nat, state: CellState, outcomes: Seq<PeerOutcome>)
    requires
        outcomes.len() == total,
        total <= usize::MAX,
        state.generation < i32::MAX,
    ensures
        spec_run(total, Phase::Idle, state, tick_events(outcomes)) == (
            Phase::Idle,
            advance(state, alive_count(outcomes)),
        ),
        advance(state, alive_count(outcomes)).generation == state.generation + 1,
        advance(state, alive_count(outcomes)).alive == spec_rule(
            state.alive,
            alive_count(outcomes),
        ),
{
    let events = tick_events(outcomes);
    if total == 0 {
        assert(events.drop_last() =~= Seq::<Event>::empty());
        assert(spec_run(total, Phase::Idle, state, events.drop_last()) == (Phase::Idle, state));
    } else {
        lemma_tick_under_way(total, state, outcomes.drop_last());
        assert(events.drop_last() =~= tick_events(outcomes.drop_last()));
        assert(events.last() == Event::PeerResolved(outcomes.last()));
    }
}

/// A tick in which no neighbour reports alive, as when every query failed,
/// commits what the rule gives for no live neighbour.
pub proof fn lemma_tick_without_live_neighbors(
    total: nat,
    state: CellState,
    outcomes: Seq<PeerOutcome>,
)
    requires
        outcomes.len() == total,
        total <= usize::MAX,
        state.generation < i32::MAX,
        forall|i: int| 0 <= i < outcomes.len() ==> !(#[trigger] outcomes[i]).spec_reports_alive(),
    ensures
        alive_count(outcomes) == 0,
        spec_run(total, Phase::Idle, state, tick_events(outcomes)) == (
            Phase::Idle,
            advance(state, 0),
        ),
        advance(state, 0).alive == spec_rule(state.alive, 0),
        !advance(state, 0).alive,
{
    crate::poller::lemma_alive_count_zero(outcomes);
    lemma_tick_commits_rule(total, state, outcomes);
}

/// Whatever the events, the generation never goes down, and it goes up by
/// at most one for each event.
pub proof fn lemma_generation_monotonic(
    total: nat,
    phase: Phase,
    state: CellState,
    events: Seq<Event>,
)
    requires
        state.generation + events.len() <= i32::MAX,
    ensures
        state.generation <= spec_run(total, phase, state, events).1.generation <= state.generation
            + events.len(),
    decreases events.len(),
{
    if events.len() > 0 {
        lemma_generation_monotonic(total, phase, state, events.drop_last());
    }
}

/// The tick scheduler of one node.
pub struct TickScheduler {
    identity: NodeIdentity,
    neighbors: Vec<i32>,
    phase: Phase,
}

impl TickScheduler {
    /// The neighbours are those of the node, and during a tick fewer
    /// outcomes are counted than there are neighbours.
    #[verifier::type_invariant]
    pub closed spec fn wf(self) -> bool {
        &&& self.identity.wf()
        &&& is_neighbor_set(
            self.neighbors@,
            self.identity.spec_id() as int,
            self.identity.spec_grid_width() as int,
        )
        &&& self.neighbors@.len() == neighbor_count(
            self.identity.spec_id() as int,
            self.identity.spec_grid_width() as int,
        )
        &&& self.phase matches Phase::Ticking { resolved, alive } ==> alive <= resolved
            < self.neighbors@.len()
    }

    /// The node that this scheduler ticks for.
    pub closed spec fn spec_identity(&self) -> NodeIdentity {
        self.identity
    }

    /// The ids of the node's neighbours.
    pub closed spec fn spec_neighbors(&self) -> Seq<i32> {
        self.neighbors@
    }

    /// The scheduler's phase.
    pub closed spec fn spec_phase(&self) -> Phase {
        self.phase
    }

    /// What holds of every scheduler.
    pub proof fn lemma_wf(self)
        requires
            self.wf(),
        ensures
            self.spec_identity().wf(),
            is_neighbor_set(
                self.spec_neighbors(),
                self.spec_identity().spec_id() as int,
                self.spec_identity().spec_grid_width() as int,
            ),
            self.spec_neighbors().len() == neighbor_count(
                self.spec_identity().spec_id() as int,
                self.spec_identity().spec_grid_width() as int,
            ),
            self.spec_phase() matches Phase::Ticking { resolved, alive } ==> alive <= resolved
                < self.spec_neighbors().len(),
    {
    }

    /// An idle scheduler for the node. The neighbours are worked out here,
    /// once.
    pub fn new(identity: NodeIdentity) -> (scheduler: TickScheduler)
        ensures
            scheduler.wf(),
            scheduler.spec_identity() == identity,
            scheduler.spec_phase() == Phase::Idle,
            is_neighbor_set(
                scheduler.spec_neighbors(),
                identity.spec_id() as int,
                identity.spec_grid_width() as int,
            ),
            scheduler.spec_neighbors().len() == neighbor_count(
                identity.spec_id() as int,
                identity.spec_grid_width() as int,
            ),
    {
        proof {
            use_type_invariant(&identity);
        }
        let neighbors = identity.neighbors();
        TickScheduler { identity, neighbors, phase: Phase::Idle }
    }

    /// The node that this scheduler ticks for.
    pub fn identity(&self) -> (identity: &NodeIdentity)
        ensures
            *identity == self.spec_identity(),
    {
        &self.identity
    }

    /// The ids of the node's neighbours, in ascending order.
    pub fn neighbors(&self) -> (neighbors: &Vec<i32>)
        ensures
            neighbors@ == self.spec_neighbors(),
            is_neighbor_set(
                neighbors@,
                self.spec_identity().spec_id() as int,
                self.spec_identity().spec_grid_width() as int,
            ),
    {
        proof {
            use_type_invariant(self);
        }
        &self.neighbors
    }

    /// The scheduler's phase.
    pub fn phase(&self) -> (phase: Phase)
        ensures
            phase == self.spec_phase(),
    {
        self.phase
    }

    /// Takes one event: moves the scheduler on and, where the event ends a
    /// tick, evaluates the rule on the cell's current snapshot and commits
    /// the result. Returns what to do next.
    pub fn step(&mut self, cell: &mut MyCell, event: Event) -> (action: Action)
        requires
            completes(old(self).spec_neighbors().len(), old(self).spec_phase(), event) ==> old(
                cell,
            )@.generation < i32::MAX,
        ensures
            final(self).wf(),
            final(cell).wf(),
            final(self).spec_identity() == old(self).spec_identity(),
            final(self).spec_neighbors() == old(self).spec_neighbors(),
            final(self).spec_phase() == spec_step(
                old(self).spec_neighbors().len(),
                old(self).spec_phase(),
                old(cell)@,
                event,
            ).phase,
            final(cell)@ == spec_step(
                old(self).spec_neighbors().len(),
                old(self).spec_phase(),
                old(cell)@,
                event,
            ).state,
            action == spec_step(
                old(self).spec_neighbors().len(),
                old(self).spec_phase(),
                old(cell)@,
                event,
            ).action,
            final(cell).history() == if completes(
                old(self).spec_neighbors().len(),
                old(self).spec_phase(),
                event,
            ) {
                old(cell).history().push(final(cell)@.alive)
            } else {
                old(cell).history()
            },
    {
        proof {
            use_type_invariant(&*self);
            use_type_invariant(&*cell);
        }
        let total = self.neighbors.len();
        match (self.phase, event) {
            (Phase::Idle, Event::PeriodElapsed) => {
                if total == 0 {
                    finish_tick(cell, 0)
                } else {
                    self.phase = Phase::Ticking { resolved: 0, alive: 0 };
                    Action::QueryNeighbors
                }
            },
            (Phase::Ticking { resolved, alive }, Event::PeerResolved(outcome)) => {
                let alive = if outcome.reports_alive() {
                    alive + 1
                } else {
                    alive
                };
                if resolved + 1 >= total {
                    self.phase = Phase::Idle;
                    finish_tick(cell, alive)
                } else {
                    self.phase = Phase::Ticking { resolved: resolved + 1, alive };
                    Action::Wait
                }
            },
            _ => Action::Wait,
        }
    }
}

/// Ends a tick that found `alive_neighbor_count` live neighbours: evaluates
/// the rule on the cell's current snapshot and commits the result.
pub fn finish_tick(cell: &mut MyCell, alive_neighbor_count: usize) -> (action: Action)
    requires
        old(cell)@.generation < i32::MAX,
    ensures
        final(cell).wf(),
        final(cell)@ == advance(old(cell)@, alive_neighbor_count as nat),
        final(cell)@.generation == old(cell)@.generation + 1,
        final(cell)@.alive == spec_rule(old(cell)@.alive, alive_neighbor_count as nat),
        final(cell).history() == old(cell).history().push(final(cell)@.alive),
        action == finish(old(cell)@, alive_neighbor_count as nat).action,
{
    let previous = cell.read();
    let next_alive = rule(previous.alive, alive_neighbor_count);
    let state = cell.commit(next_alive);
    Action::Publish {
        outcome: TickOutcome { alive_neighbor_count, previous_alive: previous.alive, next_alive },
        state,
    }
}

} // verus!
