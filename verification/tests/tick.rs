use cells_worker::poller::PeerOutcome;
use cells_worker::state::CellState;
use cells_worker::state::CellStatus;
use cells_worker::state::MyCell;
use cells_worker::tick::finish_tick;
use cells_worker::tick::Action;
use cells_worker::tick::Event;
use cells_worker::tick::Phase;
use cells_worker::tick::TickOutcome;
use cells_worker::tick::TickScheduler;
use cells_worker::topology::NodeIdentity;

fn answered(alive: bool) -> Event {
    Event::PeerResolved(PeerOutcome::Answered(CellStatus { alive, generation: 3 }))
}

fn failed() -> Event {
    Event::PeerResolved(PeerOutcome::Failed)
}

fn scheduler(id: i32, width: i32) -> TickScheduler {
    TickScheduler::new(NodeIdentity::new(id, width).unwrap())
}

fn run_tick(scheduler: &mut TickScheduler, cell: &mut MyCell, events: &[Event]) -> Action {
    let mut action = scheduler.step(cell, Event::PeriodElapsed);
    for event in events {
        assert_eq!(scheduler.phase() == Phase::Idle, false);
        action = scheduler.step(cell, *event);
    }
    action
}

#[test]
fn scheduler_starts_idle_with_the_neighbors_of_its_node() {
    let center = scheduler(4, 3);
    assert_eq!(center.phase(), Phase::Idle);
    assert_eq!(center.neighbors(), &vec![0, 1, 2, 3, 5, 6, 7, 8]);
    assert_eq!(center.identity().id(), 4);
    let corner = scheduler(0, 3);
    assert_eq!(corner.neighbors(), &vec![1, 3, 4]);
}

#[test]
fn center_cell_with_three_live_neighbors_stays_alive() {
    let mut scheduler = scheduler(4, 3);
    let mut cell = MyCell::new(true);
    let previous = cell.read();
    let events = [
        answered(false),
        answered(true),
        answered(false),
        answered(true),
        answered(false),
        answered(false),
        answered(true),
        answered(false),
    ];
    let action = run_tick(&mut scheduler, &mut cell, &events);
    let expected = CellState { alive: true, generation: previous.generation + 1 };
    assert_eq!(cell.read(), expected);
    assert_eq!(
        action,
        Action::Publish {
            outcome: TickOutcome {
                alive_neighbor_count: 3,
                previous_alive: true,
                next_alive: true,
            },
            state: expected,
        }
    );
    assert_eq!(scheduler.phase(), Phase::Idle);
}

#[test]
fn corner_cell_with_one_live_and_two_unreachable_neighbors_stays_dead() {
    let mut scheduler = scheduler(0, 3);
    let mut cell = MyCell::new(false);
    let previous = cell.read();
    let events = [answered(true), failed(), failed()];
    let action = run_tick(&mut scheduler, &mut cell, &events);
    let expected = CellState { alive: false, generation: previous.generation + 1 };
    assert_eq!(cell.read(), expected);
    assert_eq!(
        action,
        Action::Publish {
            outcome: TickOutcome {
                alive_neighbor_count: 1,
                previous_alive: false,
                next_alive: false,
            },
            state: expected,
        }
    );
}

#[test]
fn tick_with_all_queries_failed_counts_no_live_neighbor() {
    for previous_alive in [true, false] {
        let mut scheduler = scheduler(4, 3);
        let mut cell = MyCell::new(previous_alive);
        let events = [failed(); 8];
        let action = run_tick(&mut scheduler, &mut cell, &events);
        assert_eq!(cell.read(), CellState { alive: false, generation: 1 });
        assert_eq!(
            action,
            Action::Publish {
                outcome: TickOutcome {
                    alive_neighbor_count: 0,
                    previous_alive,
                    next_alive: false,
                },
                state: CellState { alive: false, generation: 1 },
            }
        );
    }
}

#[test]
fn period_on_idle_scheduler_asks_for_the_queries() {
    let mut scheduler = scheduler(4, 3);
    let mut cell = MyCell::new(true);
    let action = scheduler.step(&mut cell, Event::PeriodElapsed);
    assert_eq!(action, Action::QueryNeighbors);
    assert_eq!(scheduler.phase(), Phase::Ticking { resolved: 0, alive: 0 });
    assert_eq!(cell.read(), CellState { alive: true, generation: 0 });
}

#[test]
fn outcomes_are_counted_until_the_last_one() {
    let mut scheduler = scheduler(0, 3);
    let mut cell = MyCell::new(true);
    scheduler.step(&mut cell, Event::PeriodElapsed);
    assert_eq!(scheduler.step(&mut cell, answered(true)), Action::Wait);
    assert_eq!(scheduler.phase(), Phase::Ticking { resolved: 1, alive: 1 });
    assert_eq!(scheduler.step(&mut cell, failed()), Action::Wait);
    assert_eq!(scheduler.phase(), Phase::Ticking { resolved: 2, alive: 1 });
    assert_eq!(cell.read().generation, 0);
    let action = scheduler.step(&mut cell, answered(true));
    assert_eq!(scheduler.phase(), Phase::Idle);
    assert_eq!(
        action,
        Action::Publish {
            outcome: TickOutcome {
                alive_neighbor_count: 2,
                previous_alive: true,
                next_alive: true,
            },
            state: CellState { alive: true, generation: 1 },
        }
    );
}

#[test]
fn order_of_outcomes_does_not_matter() {
    let orders = [
        [answered(true), answered(true), answered(true), failed(), answered(false)],
        [failed(), answered(false), answered(true), answered(true), answered(true)],
        [answered(true), failed(), answered(true), answered(false), answered(true)],
    ];
    for events in orders {
        let mut scheduler = scheduler(1, 3);
        let mut cell = MyCell::new(false);
        run_tick(&mut scheduler, &mut cell, &events);
        assert_eq!(cell.read(), CellState { alive: true, generation: 1 });
    }
}

#[test]
fn period_during_a_tick_is_passed_over() {
    let mut scheduler = scheduler(0, 3);
    let mut cell = MyCell::new(true);
    scheduler.step(&mut cell, Event::PeriodElapsed);
    scheduler.step(&mut cell, answered(true));
    let phase = scheduler.phase();
    assert_eq!(scheduler.step(&mut cell, Event::PeriodElapsed), Action::Wait);
    assert_eq!(scheduler.phase(), phase);
    assert_eq!(cell.read(), CellState { alive: true, generation: 0 });
    scheduler.step(&mut cell, answered(true));
    scheduler.step(&mut cell, answered(false));
    assert_eq!(cell.read(), CellState { alive: true, generation: 1 });
}

#[test]
fn outcome_on_idle_scheduler_changes_nothing() {
    let mut scheduler = scheduler(0, 3);
    let mut cell = MyCell::new(true);
    assert_eq!(scheduler.step(&mut cell, answered(true)), Action::Wait);
    assert_eq!(scheduler.step(&mut cell, failed()), Action::Wait);
    assert_eq!(scheduler.phase(), Phase::Idle);
    assert_eq!(cell.read(), CellState { alive: true, generation: 0 });
}

#[test]
fn node_without_neighbors_ticks_at_once() {
    let mut scheduler = scheduler(0, 1);
    let mut cell = MyCell::new(true);
    let action = scheduler.step(&mut cell, Event::PeriodElapsed);
    assert_eq!(
        action,
        Action::Publish {
            outcome: TickOutcome {
                alive_neighbor_count: 0,
                previous_alive: true,
                next_alive: false,
            },
            state: CellState { alive: false, generation: 1 },
        }
    );
    assert_eq!(scheduler.phase(), Phase::Idle);
    assert_eq!(cell.read(), CellState { alive: false, generation: 1 });
}

#[test]
fn each_tick_advances_the_generation_by_one() {
    let mut scheduler = scheduler(0, 2);
    let mut cell = MyCell::new(false);
    for tick in 1..=20 {
        let events = [answered(true), answered(tick % 2 == 0), answered(true)];
        run_tick(&mut scheduler, &mut cell, &events);
        assert_eq!(cell.read().generation, tick);
    }
}

#[test]
fn dead_cell_with_three_live_neighbors_is_born() {
    let mut scheduler = scheduler(0, 2);
    let mut cell = MyCell::new(false);
    let events = [answered(true), answered(true), answered(true)];
    run_tick(&mut scheduler, &mut cell, &events);
    assert_eq!(cell.read(), CellState { alive: true, generation: 1 });
}

#[test]
fn live_cell_with_four_live_neighbors_dies() {
    let mut scheduler = scheduler(4, 3);
    let mut cell = MyCell::new(true);
    let events = [
        answered(true),
        answered(true),
        answered(true),
        answered(true),
        failed(),
        failed(),
        answered(false),
        answered(false),
    ];
    run_tick(&mut scheduler, &mut cell, &events);
    assert_eq!(cell.read(), CellState { alive: false, generation: 1 });
}

#[test]
fn status_server_sees_only_committed_states_between_events() {
    let mut scheduler = scheduler(0, 3);
    let mut cell = MyCell::new(true);
    scheduler.step(&mut cell, Event::PeriodElapsed);
    assert_eq!(cell.get_status(), CellStatus { alive: true, generation: 0 });
    scheduler.step(&mut cell, failed());
    assert_eq!(cell.get_status(), CellStatus { alive: true, generation: 0 });
    scheduler.step(&mut cell, failed());
    assert_eq!(cell.get_status(), CellStatus { alive: true, generation: 0 });
    scheduler.step(&mut cell, failed());
    assert_eq!(cell.get_status(), CellStatus { alive: false, generation: 1 });
}

#[test]
fn finish_tick_commits_what_the_rule_gives() {
    let mut cell = MyCell::new(true);
    let action = finish_tick(&mut cell, 2);
    assert_eq!(
        action,
        Action::Publish {
            outcome: TickOutcome {
                alive_neighbor_count: 2,
                previous_alive: true,
                next_alive: true,
            },
            state: CellState { alive: true, generation: 1 },
        }
    );
    let action = finish_tick(&mut cell, 5);
    assert_eq!(
        action,
        Action::Publish {
            outcome: TickOutcome {
                alive_neighbor_count: 5,
                previous_alive: true,
                next_alive: false,
            },
            state: CellState { alive: false, generation: 2 },
        }
    );
    let action = finish_tick(&mut cell, 3);
    assert_eq!(
        action,
        Action::Publish {
            outcome: TickOutcome {
                alive_neighbor_count: 3,
                previous_alive: false,
                next_alive: true,
            },
            state: CellState { alive: true, generation: 3 },
        }
    );
    assert_eq!(cell.read(), CellState { alive: true, generation: 3 });
}
