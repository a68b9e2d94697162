use vstd::prelude::*;

verus! {

/// What a task asking for the lock gets.
#[derive(Clone, Copy, PartialEq, Eq, Structural, Debug)]
pub enum Acquire {
    /// The lock is now held by the task in the mode it asked for.
    Granted,
    /// Another task holds the lock in a conflicting mode; the task must wait.
    Blocked,
    /// The task already holds the lock: a non-reentrant lock reports this
    /// as a protocol violation instead of granting it.
    Reentrant,
}

/// Who holds a non-reentrant read/write lock: at most one writer, or a set
/// of readers.
pub struct RwLockModel {
    writer: Option<usize>,
    readers: Vec<usize>,
}

impl RwLockModel {
    /// Readers are listed once each, and a writer excludes readers.
    pub closed spec fn wf(&self) -> bool {
        &&& self.writer is Some ==> self.readers@.len() == 0
        &&& self.readers@.no_duplicates()
    }

    /// The task holding the lock for writing, if any.
    pub closed spec fn writer_spec(&self) -> Option<usize> {
        self.writer
    }

    /// The tasks holding the lock for reading.
    pub closed spec fn readers_spec(&self) -> Set<usize> {
        self.readers@.to_set()
    }

    /// Whether `task` holds the lock in either mode.
    pub open spec fn holds(&self, task: usize) -> bool {
        self.writer_spec() == Some(task) || self.readers_spec().contains(task)
    }

    /// A lock that nobody holds.
    pub fn new() -> (r: Self)
        ensures
            r.wf(),
            r.writer_spec() is None,
            r.readers_spec() == Set::<usize>::empty(),
    {
        let r = RwLockModel { writer: None, readers: Vec::new() };
        assert(r.readers@.to_set() =~= Set::<usize>::empty());
        r
    }

    fn reader_index(&self, task: usize) -> (r: Option<usize>)
        ensures
            r is None ==> !self.readers@.contains(task),
            r is Some ==> r->0 < self.readers@.len() && self.readers@[r->0 as int] == task,
    {
        let mut i: usize = 0;
        while i < self.readers.len()
            invariant
                i <= self.readers@.len(),
                forall|k: int| 0 <= k < i ==> self.readers@[k] != task,
            decreases self.readers@.len() - i,
        {
            if self.readers[i] == task {
                return Some(i);
            }
            i = i + 1;
        }
        None
    }

    /// Whether `task` holds the lock in either mode.
    pub fn is_held_by(&self, task: usize) -> (r: bool)
        ensures
            r == self.holds(task),
    {
        proof {
            if self.readers@.contains(task) {
                assert(self.readers_spec().contains(task));
            }
        }
        self.writer == Some(task) || self.reader_index(task).is_some()
    }

    /// `task` asks for the lock, for writing when `write` holds and for
    /// reading otherwise. A holder asking again gets `Reentrant` and nothing
    /// changes. A writer is granted a free lock only; a reader is granted
    /// any lock without a writer. Otherwise `Blocked`, and nothing changes.
    pub fn acquire(&mut self, task: usize, write: bool) -> (r: Acquire)
        requires
            old(self).wf(),
        ensures
            final(self).wf(),
            r == Acquire::Reentrant <==> old(self).holds(task),
            r == Acquire::Granted <==> !old(self).holds(task) && old(self).writer_spec() is None
                && (write ==> old(self).readers_spec() == Set::<usize>::empty()),
            r != Acquire::Granted ==> final(self).writer_spec() == old(self).writer_spec()
                && final(self).readers_spec() == old(self).readers_spec(),
            r == Acquire::Granted && write ==> final(self).writer_spec() == Some(task)
                && final(self).readers_spec() == old(self).readers_spec(),
            r == Acquire::Granted && !write ==> final(self).writer_spec() is None
                && final(self).readers_spec() == old(self).readers_spec().insert(task),
    {
        if self.is_held_by(task) {
            return Acquire::Reentrant;
        }
        if self.writer.is_some() {
            return Acquire::Blocked;
        }
        if write {
            if self.readers.len() > 0 {
                proof {
                    assert(self.readers_spec().contains(self.readers@[0]));
                }
                return Acquire::Blocked;
            }
            proof {
                assert(self.readers@.to_set() =~= Set::<usize>::empty());
            }
            self.writer = Some(task);
            return Acquire::Granted;
        }
        let ghost before = self.readers@;
        self.readers.push(task);
        proof {
            assert(!before.contains(task));
            assert forall|x: usize| self.readers@.contains(x) <==> before.contains(x) || x == task by {
                if self.readers@.contains(x) && x != task {
                    let k = choose|k: int| 0 <= k < self.readers@.len() && self.readers@[k] == x;
                    assert(before[k] == x);
                }
                if before.contains(x) {
                    let k = choose|k: int| 0 <= k < before.len() && before[k] == x;
                    assert(self.readers@[k] == x);
                }
                if x == task {
                    assert(self.readers@[before.len() as int] == x);
                }
            }
            assert(self.readers@.to_set() =~= before.to_set().insert(task));
            assert(self.readers@.no_duplicates()) by {
                assert forall|a: int, b: int| 0 <= a < b < self.readers@.len() implies self.readers@[a] != self.readers@[b] by {
                    if b == before.len() {
                        assert(before.contains(before[a]));
                    }
                }
            }
        }
        Acquire::Granted
    }

    /// `task` lets go of the lock in whatever mode it holds it.
    pub fn release(&mut self, task: usize)
        requires
            old(self).wf(),
        ensures
            final(self).wf(),
            !final(self).holds(task),
            old(self).writer_spec() == Some(task) ==> final(self).writer_spec() is None,
            old(self).writer_spec() != Some(task) ==> final(self).writer_spec() == old(self).writer_spec(),
            final(self).readers_spec() == old(self).readers_spec().remove(task),
    {
        if self.writer == Some(task) {
            self.writer = None;
        }
        match self.reader_index(task) {
            Some(i) => {
                let ghost before = self.readers@;
                self.readers.remove(i);
                proof {
                    assert forall|x: usize| self.readers@.contains(x) <==> before.contains(x) && x != task by {
                        if before.contains(x) && x != task {
                            let k = choose|k: int| 0 <= k < before.len() && before[k] == x;
                            if k < i {
                                assert(self.readers@[k] == x);
                            } else {
                                assert(self.readers@[k - 1] == x);
                            }
                        }
                        if self.readers@.contains(x) {
                            let k = choose|k: int| 0 <= k < self.readers@.len() && self.readers@[k] == x;
                            if k < i {
                                assert(before[k] == x);
                            } else {
                                assert(before[k + 1] == x);
                            }
                        }
                    }
                    assert(self.readers@.to_set() =~= before.to_set().remove(task));
                }
            },
            None => {
                proof {
                    assert(self.readers@.to_set() =~= self.readers@.to_set().remove(task));
                }
            },
        }
    }
}

} // verus!
