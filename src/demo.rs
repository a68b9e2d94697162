use vstd::prelude::*;
use crate::rwlock::{Acquire, RwLockModel};

verus! {

/// Task id of the loop that reads the counter.
pub const FOREGROUND: usize = 0;

/// Task id of the loop that bumps the counter.
pub const BACKGROUND: usize = 1;

/// Rounds the foreground loop makes.
pub const ROUNDS: usize = 10;

/// The counter shared by the two tasks of the lock demo.
#[derive(Clone, Copy, PartialEq, Eq, Structural, Debug, Default)]
pub struct CounterState {
    pub value: u64,
}

impl CounterState {
    /// Whether the counter has been bumped at least once.
    pub fn foo(&self) -> (r: bool)
        ensures
            r == (self.value > 0),
    {
        self.value > 0
    }

    /// The counter's value.
    pub fn bar(&self) -> (r: u64)
        ensures
            r == self.value,
    {
        self.value
    }

    /// Bumps the counter by one.
    pub fn update(&mut self)
        requires
            old(self).value < u64::MAX,
        ensures
            final(self).value == old(self).value + 1,
    {
        self.value = self.value + 1;
    }
}

/// Where the foreground loop stands within a round.
#[derive(Clone, Copy, PartialEq, Eq, Structural, Debug)]
pub enum Phase {
    /// About to take the read lock.
    Acquire,
    /// Holds the read guard and is about to branch on the counter.
    Inspect,
    /// Took the branch where the counter is positive and yields, the first
    /// guard still alive.
    Suspended,
    /// Back from the yield, about to take the read lock a second time.
    Reacquire,
    /// The second acquisition was reported as a reentrant one.
    Violated,
    /// All rounds are done.
    Done,
}

/// Whether the foreground task holds its first read guard in `p`.
pub open spec fn guard_alive(p: Phase) -> bool {
    p == Phase::Inspect || p == Phase::Suspended || p == Phase::Reacquire || p == Phase::Violated
}

/// What a scheduled task did.
#[derive(Clone, Copy, PartialEq, Eq, Structural, Debug)]
pub enum DemoEvent {
    /// The task moved on.
    Progress,
    /// The task waits for a lock held by the other one.
    Blocked,
    /// The task asked again for a lock it already holds.
    Violation,
    /// The task has nothing left to do.
    Finished,
}

/// The two tasks of the lock demo and the lock-protected counter they share.
/// The background task bumps the counter under the write lock and yields,
/// forever. The foreground task, for each round, takes the read lock and
/// branches on the counter; when it is positive it yields with that guard
/// still alive and then takes the read lock again.
pub struct LockDemo {
    pub lock: RwLockModel,
    pub state: CounterState,
    pub round: usize,
    pub phase: Phase,
}

impl LockDemo {
    /// The foreground guard is alive exactly in the phases that hold it,
    /// nobody else holds the lock, and the rounds stay in range.
    pub open spec fn wf(&self) -> bool {
        &&& self.lock.wf()
        &&& self.lock.writer_spec() is None
        &&& self.lock.readers_spec() == if guard_alive(self.phase) {
            set![FOREGROUND]
        } else {
            Set::<usize>::empty()
        }
        &&& self.round <= ROUNDS
        &&& (self.phase == Phase::Done) == (self.round == ROUNDS)
    }

    /// Both tasks at their start, the counter at zero, the lock free.
    pub fn new() -> (r: Self)
        ensures
            r.wf(),
            r.state.value == 0,
            r.round == 0,
            r.phase == Phase::Acquire,
    {
        LockDemo { lock: RwLockModel::new(), state: CounterState { value: 0 }, round: 0, phase: Phase::Acquire }
    }

    /// Schedules the background task once: it takes the write lock, bumps
    /// the counter and lets go, unless the foreground guard is alive, in
    /// which case it is blocked and nothing changes.
    pub fn step_background(&mut self) -> (r: DemoEvent)
        requires
            old(self).wf(),
            old(self).state.value < u64::MAX,
        ensures
            final(self).wf(),
            final(self).phase == old(self).phase,
            final(self).round == old(self).round,
            (r == DemoEvent::Blocked) == guard_alive(old(self).phase),
            r == DemoEvent::Blocked ==> final(self).state == old(self).state,
            r != DemoEvent::Blocked ==> r == DemoEvent::Progress && final(self).state.value == old(self).state.value + 1,
    {
        proof {
            if guard_alive(self.phase) {
                assert(self.lock.readers_spec().contains(FOREGROUND));
            }
        }
        match self.lock.acquire(BACKGROUND, true) {
            Acquire::Granted => {
                self.state.update();
                self.lock.release(BACKGROUND);
                proof {
                    assert(self.lock.readers_spec() =~= Set::<usize>::empty());
                }
                DemoEvent::Progress
            },
            _ => {
                proof {
                    assert(self.lock.readers_spec().contains(FOREGROUND));
                }
                DemoEvent::Blocked
            },
        }
    }

    /// Schedules the foreground task once. In the branch where the counter
    /// is positive the first guard stays alive across the yield, so the
    /// second acquisition always comes back as reentrant: it is reported,
    /// never granted, and the task stops there.
    pub fn step_foreground(&mut self) -> (r: DemoEvent)
        requires
            old(self).wf(),
        ensures
            final(self).wf(),
            final(self).state == old(self).state,
            old(self).phase == Phase::Acquire ==> r == DemoEvent::Progress && final(self).phase == Phase::Inspect
                && final(self).round == old(self).round,
            old(self).phase == Phase::Inspect && old(self).state.value > 0 ==> r == DemoEvent::Progress
                && final(self).phase == Phase::Suspended && final(self).round == old(self).round,
            old(self).phase == Phase::Inspect && old(self).state.value == 0 ==> r == DemoEvent::Progress
                && final(self).round == old(self).round + 1
                && final(self).phase == (if final(self).round == ROUNDS { Phase::Done } else { Phase::Acquire }),
            old(self).phase == Phase::Suspended ==> r == DemoEvent::Progress && final(self).phase == Phase::Reacquire
                && final(self).round == old(self).round,
            old(self).phase == Phase::Reacquire || old(self).phase == Phase::Violated ==> r == DemoEvent::Violation
                && final(self).phase == Phase::Violated && final(self).round == old(self).round,
            old(self).phase == Phase::Done ==> r == DemoEvent::Finished && final(self).phase == Phase::Done
                && final(self).round == old(self).round,
    {
        match self.phase {
            Phase::Acquire => {
                let g = self.lock.acquire(FOREGROUND, false);
                proof {
                    assert(g == Acquire::Granted);
                    assert(self.lock.readers_spec() =~= set![FOREGROUND]);
                }
                self.phase = Phase::Inspect;
                DemoEvent::Progress
            },
            Phase::Inspect => {
                if self.state.foo() {
                    self.phase = Phase::Suspended;
                } else {
                    self.lock.release(FOREGROUND);
                    proof {
                        assert(self.lock.readers_spec() =~= Set::<usize>::empty());
                    }
                    self.round = self.round + 1;
                    self.phase = if self.round == ROUNDS { Phase::Done } else { Phase::Acquire };
                }
                DemoEvent::Progress
            },
            Phase::Suspended => {
                self.phase = Phase::Reacquire;
                DemoEvent::Progress
            },
            Phase::Reacquire | Phase::Violated => {
                proof {
                    assert(self.lock.readers_spec().contains(FOREGROUND));
                }
                let g = self.lock.acquire(FOREGROUND, false);
                proof {
                    assert(g == Acquire::Reentrant);
                }
                self.phase = Phase::Violated;
                DemoEvent::Violation
            },
            Phase::Done => DemoEvent::Finished,
        }
    }
}

} // verus!
