use benches::config::WorkloadConfig;
use benches::model::{MonitorModel, Role, StepOutcome};

fn minimal() -> MonitorModel {
    MonitorModel::from_config(&WorkloadConfig::minimal())
}

#[test]
fn minimal_layout() {
    let m = minimal();
    assert_eq!(m.workers.len(), 3);
    assert_eq!(m.workers[0].role, Role::Reader);
    assert_eq!(m.workers[0].quota, 5);
    assert_eq!(m.workers[1].role, Role::Reader);
    assert_eq!(m.workers[1].quota, 5);
    assert_eq!(m.workers[2].role, Role::Writer);
    assert_eq!(m.workers[2].quota, 10);
    assert_eq!(m.ring.capacity(), 1);
}

#[test]
fn minimal_reproduction_deadlocks_under_an_adversarial_schedule() {
    let mut m = minimal();
    assert_eq!(m.step(0, 0), StepOutcome::Waited);
    assert_eq!(m.step(1, 0), StepOutcome::Waited);
    // the writer fills the slot and wakes the first reader
    assert_eq!(m.step(2, 0), StepOutcome::Proceeded(Some(0)));
    assert_eq!(m.step(2, 0), StepOutcome::Waited);
    // the reader empties the slot but wakes the other reader, not the writer
    assert_eq!(m.step(0, 1), StepOutcome::Proceeded(Some(1)));
    assert_eq!(m.step(0, 0), StepOutcome::Waited);
    assert!(!m.is_deadlocked());
    assert_eq!(m.step(1, 0), StepOutcome::Waited);
    assert!(m.is_deadlocked());
    assert!(!m.is_finished());
    for t in 0..3 {
        assert_eq!(m.step(t, 0), StepOutcome::Idle);
    }
}

#[test]
fn minimal_reproduction_completes_under_a_fair_schedule() {
    let mut m = minimal();
    m.run_fair();
    assert!(m.is_finished());
    assert!(!m.is_deadlocked());
    assert_eq!(m.workers[0].completed, 5);
    assert_eq!(m.workers[1].completed, 5);
    assert_eq!(m.workers[2].completed, 10);
    assert_eq!(m.ring.occupied(), 0);
}

#[test]
fn minimal_reproduction_completes_when_wakeups_reach_the_writer() {
    let mut m = minimal();
    let mut produced = 0;
    let mut consumed = 0;
    for round in 0..10 {
        assert_eq!(m.step(2, 0), StepOutcome::Proceeded(None));
        produced += 1;
        let reader = round % 2;
        assert_eq!(m.step(reader, 0), StepOutcome::Proceeded(None));
        consumed += 1;
    }
    assert_eq!(produced, 10);
    assert_eq!(consumed, 10);
    assert!(m.is_finished());
}

#[test]
fn wake_prefers_the_chosen_sleeper() {
    let mut m = minimal();
    assert_eq!(m.step(0, 0), StepOutcome::Waited);
    assert_eq!(m.step(1, 0), StepOutcome::Waited);
    assert_eq!(m.step(2, 1), StepOutcome::Proceeded(Some(1)));
    assert!(m.workers[0].waiting);
    assert!(!m.workers[1].waiting);
}

#[test]
fn wake_falls_back_to_first_sleeper() {
    let mut m = minimal();
    assert_eq!(m.step(1, 0), StepOutcome::Waited);
    assert_eq!(m.notify_one(7), Some(1));
    assert_eq!(m.notify_one(7), None);
}

#[test]
fn writer_puts_its_running_count() {
    let mut m = minimal();
    assert_eq!(m.step(2, 0), StepOutcome::Proceeded(None));
    assert_eq!(m.step(0, 0), StepOutcome::Proceeded(None));
    assert_eq!(m.step(2, 0), StepOutcome::Proceeded(None));
    assert_eq!(m.ring.try_take(), Some(1));
}

#[test]
fn every_sampled_workload_finishes_under_a_fair_schedule() {
    for b in 0..5 {
        for r in 0..5 {
            for w in 0..5 {
                let c = WorkloadConfig::from_draws(b, r, w, 3);
                let mut m = MonitorModel::from_config(&c);
                m.run_fair();
                assert!(m.is_finished());
                for k in 0..m.workers.len() {
                    assert_eq!(m.workers[k].completed, m.workers[k].quota);
                }
            }
        }
    }
}

#[test]
fn predicate_follows_the_buffer() {
    let mut m = minimal();
    assert!(!m.predicate_holds(Role::Reader));
    assert!(m.predicate_holds(Role::Writer));
    m.step(2, 0);
    assert!(m.predicate_holds(Role::Reader));
    assert!(!m.predicate_holds(Role::Writer));
    assert_eq!(m.find_enabled(), 0);
}
