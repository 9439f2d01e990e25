use cells_worker::poller::PeerOutcome;
use cells_worker::state::CellStatus;

#[test]
fn neighbor_that_answers_alive_counts_as_alive() {
    let outcome = PeerOutcome::Answered(CellStatus { alive: true, generation: 12 });
    assert!(outcome.reports_alive());
}

#[test]
fn neighbor_that_answers_dead_counts_as_dead() {
    let outcome = PeerOutcome::Answered(CellStatus { alive: false, generation: 12 });
    assert!(!outcome.reports_alive());
}

#[test]
fn neighbor_that_fails_counts_as_dead() {
    assert!(!PeerOutcome::Failed.reports_alive());
}

#[test]
fn neighbor_generation_does_not_matter() {
    for generation in [0, 1, 5, i32::MAX] {
        assert!(PeerOutcome::Answered(CellStatus { alive: true, generation }).reports_alive());
        assert!(!PeerOutcome::Answered(CellStatus { alive: false, generation }).reports_alive());
    }
}
