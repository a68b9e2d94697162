use benches::demo::{CounterState, DemoEvent, LockDemo, Phase, BACKGROUND, FOREGROUND};
use benches::rwlock::{Acquire, RwLockModel};

#[test]
fn read_lock_is_not_reentrant() {
    let mut l = RwLockModel::new();
    assert_eq!(l.acquire(FOREGROUND, false), Acquire::Granted);
    assert_eq!(l.acquire(FOREGROUND, false), Acquire::Reentrant);
    assert_eq!(l.acquire(BACKGROUND, false), Acquire::Granted);
    assert_eq!(l.acquire(2, true), Acquire::Blocked);
    l.release(FOREGROUND);
    assert!(!l.is_held_by(FOREGROUND));
    assert!(l.is_held_by(BACKGROUND));
    l.release(BACKGROUND);
    assert_eq!(l.acquire(2, true), Acquire::Granted);
    assert_eq!(l.acquire(2, false), Acquire::Reentrant);
    assert_eq!(l.acquire(FOREGROUND, false), Acquire::Blocked);
}

#[test]
fn counter_methods() {
    let mut s = CounterState::default();
    assert!(!s.foo());
    s.update();
    s.update();
    assert!(s.foo());
    assert_eq!(s.bar(), 2);
}

#[test]
fn update_between_acquisitions_reports_violation() {
    let mut d = LockDemo::new();
    assert_eq!(d.step_background(), DemoEvent::Progress);
    assert_eq!(d.step_foreground(), DemoEvent::Progress);
    assert_eq!(d.phase, Phase::Inspect);
    assert_eq!(d.step_foreground(), DemoEvent::Progress);
    assert_eq!(d.phase, Phase::Suspended);
    // the background task is scheduled between the two acquisitions
    assert_eq!(d.step_background(), DemoEvent::Blocked);
    assert_eq!(d.step_foreground(), DemoEvent::Progress);
    assert_eq!(d.step_background(), DemoEvent::Blocked);
    assert_eq!(d.step_foreground(), DemoEvent::Violation);
    assert_eq!(d.phase, Phase::Violated);
    assert_eq!(d.state.value, 1);
}

#[test]
fn foreground_alone_finishes_all_rounds() {
    let mut d = LockDemo::new();
    let mut steps = 0;
    while d.step_foreground() != DemoEvent::Finished {
        steps += 1;
    }
    assert_eq!(steps, 20);
    assert_eq!(d.round, 10);
    assert_eq!(d.phase, Phase::Done);
    assert_eq!(d.step_background(), DemoEvent::Progress);
}
