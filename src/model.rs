use vstd::prelude::*;
use vstd::assert_by_contradiction;
use crate::config::{WorkloadConfig, sum};
use crate::ring::RingState;

verus! {

/// Whether a worker takes items out of the buffer or puts them in.
#[derive(Clone, Copy, PartialEq, Eq, Structural, Debug)]
pub enum Role {
    Reader,
    Writer,
}

/// One thread of a workload: its role, how many operations it must make,
/// how many it has made, and whether it sleeps on the monitor's condition.
#[derive(Clone, Copy, Debug)]
pub struct Worker {
    pub role: Role,
    pub quota: usize,
    pub completed: usize,
    pub waiting: bool,
}

/// Operations a worker still has to make.
pub open spec fn remaining(w: Worker) -> int {
    w.quota - w.completed
}

/// Operations still owed by the workers of `role`.
pub open spec fn work_left(ws: Seq<Worker>, role: Role) -> int
    decreases ws.len(),
{
    if ws.len() == 0 {
        0
    } else {
        work_left(ws.drop_last(), role) + if ws.last().role == role {
            remaining(ws.last())
        } else {
            0
        }
    }
}

proof fn lemma_work_left_update(ws: Seq<Worker>, i: int, w: Worker, role: Role)
    requires
        0 <= i < ws.len(),
    ensures
        work_left(ws.update(i, w), role) == work_left(ws, role) - (if ws[i].role == role {
            remaining(ws[i])
        } else {
            0
        }) + (if w.role == role {
            remaining(w)
        } else {
            0
        }),
    decreases ws.len(),
{
    let u = ws.update(i, w);
    if i == ws.len() - 1 {
        assert(u.drop_last() =~= ws.drop_last());
    } else {
        assert(u.drop_last() =~= ws.drop_last().update(i, w));
        lemma_work_left_update(ws.drop_last(), i, w, role);
    }
}

proof fn lemma_work_left_positive(ws: Seq<Worker>, role: Role)
    requires
        forall|i: int| 0 <= i < ws.len() ==> #[trigger] ws[i].completed <= ws[i].quota,
    ensures
        work_left(ws, role) >= 0,
        work_left(ws, role) > 0 ==> exists|i: int| 0 <= i < ws.len() && ws[i].role == role && remaining(#[trigger] ws[i]) > 0,
        forall|i: int| 0 <= i < ws.len() && ws[i].role == role ==> work_left(ws, role) >= remaining(#[trigger] ws[i]),
    decreases ws.len(),
{
    if ws.len() > 0 {
        let d = ws.drop_last();
        assert forall|i: int| 0 <= i < d.len() implies #[trigger] d[i].completed <= d[i].quota by {
            assert(d[i] == ws[i]);
        }
        lemma_work_left_positive(d, role);
        if work_left(d, role) > 0 {
            let i = choose|i: int| 0 <= i < d.len() && d[i].role == role && remaining(#[trigger] d[i]) > 0;
            assert(ws[i] == d[i]);
        } else {
            assert(ws[ws.len() - 1] == ws.last());
        }
        assert forall|i: int| 0 <= i < ws.len() && ws[i].role == role implies work_left(ws, role) >= remaining(#[trigger] ws[i]) by {
            if i < d.len() {
                assert(d[i] == ws[i]);
            }
        }
    }
}

/// `after` is `before` with the sleeper `woken` woken, or unchanged with
/// nobody asleep when `woken` is `None`.
pub open spec fn woke(before: Seq<Worker>, after: Seq<Worker>, woken: Option<usize>) -> bool {
    match woken {
        None => after == before && forall|i: int| 0 <= i < before.len() ==> !(#[trigger] before[i].waiting),
        Some(k) => k < before.len() && before[k as int].waiting && after == before.update(k as int, (Worker { waiting: false, ..before[k as int] })),
    }
}

/// What a scheduled worker did in one step.
#[derive(Clone, Copy, PartialEq, Eq, Structural, Debug)]
pub enum StepOutcome {
    /// The worker had finished or was asleep, so nothing happened.
    Idle,
    /// The worker's predicate was false: it went to sleep on the condition.
    Waited,
    /// The worker made its operation and woke one sleeper, if any slept.
    Proceeded(Option<usize>),
}

/// A bounded-buffer monitor shared by a set of workers, advanced one
/// scheduling decision at a time. All sleepers share one condition, and each
/// completed operation wakes a single one of them, whichever it is.
pub struct MonitorModel {
    pub ring: RingState<usize>,
    pub workers: Vec<Worker>,
}

impl MonitorModel {
    /// Whether the predicate of a worker of `role` holds in this state.
    pub open spec fn can_proceed(&self, role: Role) -> bool {
        match role {
            Role::Reader => self.ring@.len() > 0,
            Role::Writer => self.ring@.len() < self.ring.cap(),
        }
    }

    /// The ring is well formed, only unfinished workers sleep, and the items
    /// still to be put plus those in the buffer are exactly the items still to
    /// be taken.
    pub open spec fn wf(&self) -> bool {
        &&& self.ring.wf()
        &&& 1 <= self.ring.cap()
        &&& self.ring@.len() <= self.ring.cap()
        &&& forall|i: int| 0 <= i < self.workers@.len() ==> #[trigger] self.workers@[i].completed <= self.workers@[i].quota
        &&& forall|i: int| 0 <= i < self.workers@.len() && #[trigger] self.workers@[i].waiting ==> remaining(self.workers@[i]) > 0
        &&& work_left(self.workers@, Role::Writer) + self.ring@.len() == work_left(self.workers@, Role::Reader)
    }

    /// Every worker has made all its operations.
    pub open spec fn finished(&self) -> bool {
        forall|i: int| 0 <= i < self.workers@.len() ==> remaining(#[trigger] self.workers@[i]) == 0
    }

    /// Some worker has operations left and every such worker sleeps: nobody
    /// is left to wake anybody.
    pub open spec fn deadlocked(&self) -> bool {
        &&& !self.finished()
        &&& forall|i: int| 0 <= i < self.workers@.len() && remaining(#[trigger] self.workers@[i]) > 0 ==> self.workers@[i].waiting
    }

    /// Clears the sleep flag of worker `t`.
    pub fn wake(&mut self, t: usize)
        requires
            old(self).wf(),
            t < old(self).workers@.len(),
        ensures
            final(self).wf(),
            final(self).ring == old(self).ring,
            final(self).workers@ == old(self).workers@.update(t as int, (Worker { waiting: false, ..old(self).workers@[t as int] })),
            forall|role: Role| #[trigger] work_left(final(self).workers@, role) == work_left(old(self).workers@, role),
    {
        let mut w = self.workers[t];
        w.waiting = false;
        let ghost before = self.workers@;
        self.workers.set(t, w);
        proof {
            assert forall|role: Role| #[trigger] work_left(self.workers@, role) == work_left(before, role) by {
                lemma_work_left_update(before, t as int, w, role);
            }
        }
    }

    /// Signals the shared condition once: wakes the worker at `choice` if it
    /// sleeps, else the first sleeper, else nobody.
    pub fn notify_one(&mut self, choice: usize) -> (woken: Option<usize>)
        requires
            old(self).wf(),
        ensures
            final(self).wf(),
            final(self).ring == old(self).ring,
            woke(old(self).workers@, final(self).workers@, woken),
            choice < old(self).workers@.len() && old(self).workers@[choice as int].waiting ==> woken == Some(choice),
            forall|role: Role| #[trigger] work_left(final(self).workers@, role) == work_left(old(self).workers@, role),
    {
        if choice < self.workers.len() && self.workers[choice].waiting {
            self.wake(choice);
            return Some(choice);
        }
        let mut i: usize = 0;
        while i < self.workers.len()
            invariant
                self.wf(),
                self.ring == old(self).ring,
                self.workers@ == old(self).workers@,
                !(choice < old(self).workers@.len() && old(self).workers@[choice as int].waiting),
                i <= self.workers@.len(),
                forall|k: int| 0 <= k < i ==> !(#[trigger] self.workers@[k].waiting),
            decreases self.workers@.len() - i,
        {
            if self.workers[i].waiting {
                self.wake(i);
                return Some(i);
            }
            i = i + 1;
        }
        None
    }

    /// Schedules worker `t` once. A finished or sleeping worker does nothing.
    /// A worker whose predicate is false goes to sleep on the condition.
    /// Otherwise a reader takes the oldest item, or a writer puts the number
    /// of items it has put so far; then the condition is signalled once, with
    /// `choice` as the preferred sleeper.
    pub fn step(&mut self, t: usize, choice: usize) -> (r: StepOutcome)
        requires
            old(self).wf(),
            t < old(self).workers@.len(),
        ensures
            final(self).wf(),
            ({
                let w = old(self).workers@[t as int];
                let idle = remaining(w) == 0 || w.waiting;
                let ran = old(self).workers@.update(t as int, (Worker { completed: (w.completed + 1) as usize, ..w }));
                &&& (r == StepOutcome::Idle) == idle
                &&& (r == StepOutcome::Waited) == (!idle && !old(self).can_proceed(w.role))
                &&& r == StepOutcome::Idle ==> final(self).ring == old(self).ring && final(self).workers@ == old(self).workers@
                &&& r == StepOutcome::Waited ==> final(self).ring == old(self).ring
                    && final(self).workers@ == old(self).workers@.update(t as int, (Worker { waiting: true, ..w }))
                &&& r matches StepOutcome::Proceeded(woken) ==> {
                    &&& woke(ran, final(self).workers@, woken)
                    &&& final(self).ring.cap() == old(self).ring.cap()
                    &&& w.role == Role::Reader ==> final(self).ring@ == old(self).ring@.drop_first()
                    &&& w.role == Role::Writer ==> final(self).ring@ == old(self).ring@.push(w.completed)
                    &&& choice != t && choice < ran.len() && ran[choice as int].waiting ==> woken == Some(choice)
                    &&& work_left(final(self).workers@, w.role) == work_left(old(self).workers@, w.role) - 1
                    &&& forall|role: Role| role != w.role ==> #[trigger] work_left(final(self).workers@, role) == work_left(old(self).workers@, role)
                }
            }),
    {
        let w = self.workers[t];
        if w.completed == w.quota || w.waiting {
            return StepOutcome::Idle;
        }
        let ghost before = self.workers@;
        let ok = match w.role {
            Role::Reader => self.ring.try_take().is_some(),
            Role::Writer => self.ring.try_put(w.completed),
        };
        if !ok {
            let mut asleep = w;
            asleep.waiting = true;
            self.workers.set(t, asleep);
            proof {
                lemma_work_left_update(before, t as int, asleep, Role::Reader);
                lemma_work_left_update(before, t as int, asleep, Role::Writer);
            }
            return StepOutcome::Waited;
        }
        let mut done = w;
        done.completed = w.completed + 1;
        self.workers.set(t, done);
        proof {
            assert forall|role: Role| #[trigger] work_left(self.workers@, role) == work_left(before, role) - (if w.role == role { 1int } else { 0 }) by {
                lemma_work_left_update(before, t as int, done, role);
            }
        }
        let woken = self.notify_one(choice);
        StepOutcome::Proceeded(woken)
    }

    /// Whether every worker has made all its operations.
    pub fn is_finished(&self) -> (r: bool)
        ensures
            r == self.finished(),
    {
        let mut i: usize = 0;
        while i < self.workers.len()
            invariant
                i <= self.workers@.len(),
                forall|k: int| 0 <= k < i ==> remaining(#[trigger] self.workers@[k]) == 0,
            decreases self.workers@.len() - i,
        {
            if self.workers[i].completed != self.workers[i].quota {
                return false;
            }
            i = i + 1;
        }
        true
    }

    /// Whether the run is stuck: work is left and everyone with work sleeps.
    pub fn is_deadlocked(&self) -> (r: bool)
        requires
            self.wf(),
        ensures
            r == self.deadlocked(),
    {
        if self.is_finished() {
            return false;
        }
        let mut i: usize = 0;
        while i < self.workers.len()
            invariant
                self.wf(),
                !self.finished(),
                i <= self.workers@.len(),
                forall|k: int| 0 <= k < i && remaining(#[trigger] self.workers@[k]) > 0 ==> self.workers@[k].waiting,
            decreases self.workers@.len() - i,
        {
            let w = self.workers[i];
            if w.completed != w.quota && !w.waiting {
                return false;
            }
            i = i + 1;
        }
        true
    }

    /// Whether the predicate of a worker of `role` holds now.
    pub fn predicate_holds(&self, role: Role) -> (r: bool)
        requires
            self.wf(),
        ensures
            r == self.can_proceed(role),
    {
        match role {
            Role::Reader => self.ring.occupied() > 0,
            Role::Writer => self.ring.occupied() < self.ring.capacity(),
        }
    }

    /// An unfinished worker, awake or asleep, whose predicate holds.
    pub fn find_enabled(&self) -> (t: usize)
        requires
            self.wf(),
            !self.finished(),
        ensures
            t < self.workers@.len(),
            remaining(self.workers@[t as int]) > 0,
            self.can_proceed(self.workers@[t as int].role),
    {
        let mut i: usize = 0;
        while i < self.workers.len()
            invariant
                self.wf(),
                i <= self.workers@.len(),
                forall|k: int| 0 <= k < i && remaining(#[trigger] self.workers@[k]) > 0 ==> !self.can_proceed(self.workers@[k].role),
            decreases self.workers@.len() - i,
        {
            let w = self.workers[i];
            if w.completed != w.quota && self.predicate_holds(w.role) {
                return i;
            }
            i = i + 1;
        }
        proof {
            lemma_progress_available(self);
        }
        0
    }

    /// Runs the workload to the end under a fair engine, one that keeps
    /// waking a sleeper whose predicate holds: each round wakes such a worker
    /// if it sleeps and schedules it. Every operation returns.
    pub fn run_fair(&mut self)
        requires
            old(self).wf(),
        ensures
            final(self).wf(),
            final(self).finished(),
            final(self).ring.cap() == old(self).ring.cap(),
            final(self).workers@.len() == old(self).workers@.len(),
    {
        proof {
            lemma_work_left_positive(self.workers@, Role::Reader);
            lemma_work_left_positive(self.workers@, Role::Writer);
        }
        while !self.is_finished()
            invariant
                self.wf(),
                self.ring.cap() == old(self).ring.cap(),
                self.workers@.len() == old(self).workers@.len(),
            decreases work_left(self.workers@, Role::Reader) + work_left(self.workers@, Role::Writer),
        {
            let t = self.find_enabled();
            self.wake(t);
            let r = self.step(t, t);
            proof {
                assert(r is Proceeded);
                lemma_work_left_positive(self.workers@, Role::Reader);
                lemma_work_left_positive(self.workers@, Role::Writer);
            }
        }
    }

    /// A fresh monitor with `cfg.buffer_size` empty slots, `cfg.readers`
    /// readers of `cfg.iterations` items each, then `cfg.writers` writers,
    /// each with its share.
    pub fn from_config(cfg: &WorkloadConfig) -> (r: Self)
        requires
            cfg.wf(),
        ensures
            r.wf(),
            r.ring@.len() == 0,
            r.ring.cap() == cfg.buffer_size,
            r.workers@.len() == cfg.readers + cfg.writers,
            forall|i: int| 0 <= i < cfg.readers ==> #[trigger] r.workers@[i] == (Worker { role: Role::Reader, quota: cfg.iterations, completed: 0, waiting: false }),
            forall|j: int| 0 <= j < cfg.writers ==> #[trigger] r.workers@[cfg.readers + j] == (Worker { role: Role::Writer, quota: cfg.share_spec(j) as usize, completed: 0, waiting: false }),
    {
        let ring = RingState::new(cfg.buffer_size, 0);
        let mut workers: Vec<Worker> = Vec::new();
        let mut i: usize = 0;
        while i < cfg.readers
            invariant
                cfg.wf(),
                i <= cfg.readers,
                workers@.len() == i,
                forall|k: int| 0 <= k < i ==> #[trigger] workers@[k] == (Worker { role: Role::Reader, quota: cfg.iterations, completed: 0, waiting: false }),
                work_left(workers@, Role::Reader) == i * cfg.iterations,
                work_left(workers@, Role::Writer) == 0,
            decreases cfg.readers - i,
        {
            let w = Worker { role: Role::Reader, quota: cfg.iterations, completed: 0, waiting: false };
            let ghost before = workers@;
            workers.push(w);
            proof {
                assert(workers@.drop_last() =~= before);
                vstd::arithmetic::mul::lemma_mul_is_distributive_add_other_way(cfg.iterations as int, i as int, 1);
            }
            i = i + 1;
        }
        let shares = cfg.writer_shares();
        let ghost s = cfg.shares_spec();
        let mut j: usize = 0;
        while j < cfg.writers
            invariant
                cfg.wf(),
                j <= cfg.writers,
                shares@.len() == cfg.writers,
                s == cfg.shares_spec(),
                forall|k: int| 0 <= k < cfg.writers ==> shares@[k] == #[trigger] cfg.share_spec(k),
                workers@.len() == cfg.readers + j,
                forall|k: int| 0 <= k < cfg.readers ==> #[trigger] workers@[k] == (Worker { role: Role::Reader, quota: cfg.iterations, completed: 0, waiting: false }),
                forall|k: int| 0 <= k < j ==> #[trigger] workers@[cfg.readers + k] == (Worker { role: Role::Writer, quota: cfg.share_spec(k) as usize, completed: 0, waiting: false }),
                work_left(workers@, Role::Reader) == cfg.readers * cfg.iterations,
                work_left(workers@, Role::Writer) == sum(s.take(j as int)),
            decreases cfg.writers - j,
        {
            let w = Worker { role: Role::Writer, quota: shares[j], completed: 0, waiting: false };
            let ghost before = workers@;
            workers.push(w);
            proof {
                assert(workers@.drop_last() =~= before);
                assert(s.take(j + 1).drop_last() =~= s.take(j as int));
                assert(s.take(j + 1).last() == cfg.share_spec(j as int));
            }
            j = j + 1;
        }
        proof {
            assert(s.take(cfg.writers as int) =~= s);
            crate::config::lemma_workload_balanced(*cfg);
            vstd::arithmetic::mul::lemma_mul_is_commutative(cfg.readers as int, cfg.iterations as int);
            assert(work_left(workers@, Role::Writer) == work_left(workers@, Role::Reader));
            assert forall|i: int| 0 <= i < workers@.len() implies #[trigger] workers@[i].completed <= workers@[i].quota by {
                if i >= cfg.readers {
                    assert(workers@[cfg.readers + (i - cfg.readers)] == workers@[i]);
                }
            }
            assert forall|i: int| 0 <= i < workers@.len() implies !(#[trigger] workers@[i].waiting) by {
                if i >= cfg.readers {
                    assert(workers@[cfg.readers + (i - cfg.readers)] == workers@[i]);
                }
            }
        }
        MonitorModel { ring, workers }
    }
}

/// Progress is always possible: in every well-formed state with work left,
/// some worker with work left has a true predicate. A stuck run therefore
/// comes only from wake-ups that went to the wrong sleeper, never from the
/// counts themselves, and an engine that wakes such a worker makes progress.
pub proof fn lemma_progress_available(m: &MonitorModel)
    requires
        m.wf(),
        !m.finished(),
    ensures
        exists|i: int| 0 <= i < m.workers@.len() && remaining(#[trigger] m.workers@[i]) > 0 && m.can_proceed(m.workers@[i].role),
{
    let ws = m.workers@;
    lemma_work_left_positive(ws, Role::Reader);
    lemma_work_left_positive(ws, Role::Writer);
    let i0 = choose|i: int| 0 <= i < ws.len() && remaining(#[trigger] ws[i]) != 0;
    assert_by_contradiction!(exists|i: int| 0 <= i < ws.len() && remaining(#[trigger] ws[i]) > 0 && m.can_proceed(ws[i].role), {
        assert(ws[i0].completed <= ws[i0].quota);
        assert(!m.can_proceed(ws[i0].role));
        if ws[i0].role == Role::Reader {
            let j = choose|i: int| 0 <= i < ws.len() && ws[i].role == Role::Writer && remaining(#[trigger] ws[i]) > 0;
            assert(!m.can_proceed(ws[j].role));
        } else {
            let j = choose|i: int| 0 <= i < ws.len() && ws[i].role == Role::Reader && remaining(#[trigger] ws[i]) > 0;
            assert(!m.can_proceed(ws[j].role));
        }
    });
}

} // verus!
