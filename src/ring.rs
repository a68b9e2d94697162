use vstd::prelude::*;

verus! {

/// The slot `i` places after `start` in a ring of `c` slots, for `start < c`
/// and `i <= c`.
pub open spec fn slot_after(start: int, i: int, c: int) -> int {
    if start + i < c {
        start + i
    } else {
        start + i - c
    }
}

/// The slot after `p` in a ring of `c` slots: `p + 1`, wrapping to zero.
pub open spec fn next_slot(p: nat, c: nat) -> nat {
    if p + 1 >= c {
        0
    } else {
        p + 1
    }
}

/// The state a bounded-buffer monitor keeps under its lock: a fixed ring of
/// slots, a write cursor, a read cursor and the number of live items.
pub struct RingState<T: Copy> {
    buffer: Vec<T>,
    put_at: usize,
    take_at: usize,
    occupied: usize,
}

impl<T: Copy> View for RingState<T> {
    type V = Seq<T>;

    /// The live items, oldest first.
    closed spec fn view(&self) -> Seq<T> {
        Seq::new(self.occupied as nat, |i: int| self.buffer@[slot_after(self.take_at as int, i, self.buffer@.len() as int)])
    }
}

impl<T: Copy> RingState<T> {
    /// The cursors stay inside the ring and the write cursor sits exactly
    /// `occupied` slots past the read cursor.
    pub closed spec fn wf(&self) -> bool {
        &&& self.buffer@.len() >= 1
        &&& self.put_at < self.buffer@.len()
        &&& self.take_at < self.buffer@.len()
        &&& self.occupied <= self.buffer@.len()
        &&& self.put_at as int == slot_after(self.take_at as int, self.occupied as int, self.buffer@.len() as int)
    }

    /// Number of slots, fixed at construction.
    pub closed spec fn cap(&self) -> nat {
        self.buffer@.len()
    }

    /// Slot that the next item is written to.
    pub closed spec fn put_cursor(&self) -> nat {
        self.put_at as nat
    }

    /// Slot that the next item is read from.
    pub closed spec fn take_cursor(&self) -> nat {
        self.take_at as nat
    }

    /// An empty ring of `capacity` slots, each holding `fill`.
    pub fn new(capacity: usize, fill: T) -> (r: Self)
        requires
            capacity >= 1,
        ensures
            r@ == Seq::<T>::empty(),
            r.cap() == capacity,
            r.put_cursor() == 0,
            r.take_cursor() == 0,
            r@.len() <= r.cap(),
            r.wf(),
    {
        let mut buffer: Vec<T> = Vec::new();
        let mut i: usize = 0;
        while i < capacity
            invariant
                i <= capacity,
                buffer@.len() == i,
            decreases capacity - i,
        {
            buffer.push(fill);
            i = i + 1;
        }
        let r = RingState { buffer, put_at: 0, take_at: 0, occupied: 0 };
        assert(r@ =~= Seq::<T>::empty());
        r
    }

    /// Number of slots.
    pub fn capacity(&self) -> (r: usize)
        ensures
            r == self.cap(),
    {
        self.buffer.len()
    }

    /// Number of live items.
    pub fn occupied(&self) -> (r: usize)
        ensures
            r == self@.len(),
    {
        self.occupied
    }

    /// Slot that the next item is written to.
    pub fn put_at(&self) -> (r: usize)
        ensures
            r == self.put_cursor(),
    {
        self.put_at
    }

    /// Slot that the next item is read from.
    pub fn take_at(&self) -> (r: usize)
        ensures
            r == self.take_cursor(),
    {
        self.take_at
    }

    /// The step a producer takes while holding the monitor's lock. When every
    /// slot is taken nothing changes and `false` tells the producer to wait on
    /// the condition. Otherwise `x` is appended, the write cursor moves on by
    /// one slot modulo the capacity, and `true` tells the producer to wake one
    /// waiter.
    pub fn try_put(&mut self, x: T) -> (r: bool)
        requires
            old(self).wf(),
        ensures
            r == (old(self)@.len() < old(self).cap()),
            final(self).wf(),
            final(self).cap() == old(self).cap(),
            final(self)@.len() <= final(self).cap(),
            final(self).put_cursor() < final(self).cap(),
            final(self).take_cursor() < final(self).cap(),
            final(self).take_cursor() == old(self).take_cursor(),
            r ==> final(self)@ == old(self)@.push(x),
            r ==> final(self).put_cursor() == next_slot(old(self).put_cursor(), old(self).cap()),
            !r ==> *final(self) == *old(self),
    {
        if self.occupied == self.buffer.len() {
            return false;
        }
        let ghost before = self@;
        let cap = self.buffer.len();
        let slot = self.put_at;
        self.occupied = self.occupied + 1;
        self.buffer.set(slot, x);
        self.put_at = if slot + 1 == cap { 0 } else { slot + 1 };
        proof {
            assert(self@ =~= before.push(x));
        }
        true
    }

    /// The step a consumer takes while holding the monitor's lock. When no
    /// item is live nothing changes and `None` tells the consumer to wait on
    /// the condition. Otherwise the oldest item is removed and returned, the
    /// read cursor moves on by one slot modulo the capacity, and the consumer
    /// wakes one waiter.
    pub fn try_take(&mut self) -> (r: Option<T>)
        requires
            old(self).wf(),
        ensures
            r is Some == (old(self)@.len() > 0),
            final(self).wf(),
            final(self).cap() == old(self).cap(),
            final(self)@.len() <= final(self).cap(),
            final(self).put_cursor() < final(self).cap(),
            final(self).take_cursor() < final(self).cap(),
            final(self).put_cursor() == old(self).put_cursor(),
            r is Some ==> r->0 == old(self)@[0],
            r is Some ==> final(self)@ == old(self)@.drop_first(),
            r is Some ==> final(self).take_cursor() == next_slot(old(self).take_cursor(), old(self).cap()),
            r is None ==> *final(self) == *old(self),
    {
        if self.occupied == 0 {
            return None;
        }
        let ghost before = self@;
        let cap = self.buffer.len();
        let slot = self.take_at;
        let result = self.buffer[slot];
        self.occupied = self.occupied - 1;
        self.take_at = if slot + 1 == cap { 0 } else { slot + 1 };
        proof {
            assert(self@ =~= before.drop_first());
        }
        Some(result)
    }
}

/// The write cursor of a ring of `c` slots after `k` successful puts from
/// slot `p`; takes leave it where it is.
pub open spec fn advance(p: nat, k: nat, c: nat) -> nat
    decreases k,
{
    if k == 0 {
        p
    } else {
        next_slot(advance(p, (k - 1) as nat, c), c)
    }
}

/// However puts and takes interleave, `k` successful puts move the write
/// cursor of a ring of `c` slots from `p` to `(p + k) mod c`.
pub proof fn lemma_put_cursor_after_puts(p: nat, k: nat, c: nat)
    requires
        p < c,
    ensures
        advance(p, k, c) == (p + k) % c,
    decreases k,
{
    if k == 0 {
        vstd::arithmetic::div_mod::lemma_small_mod(p, c);
    } else {
        lemma_put_cursor_after_puts(p, (k - 1) as nat, c);
        let q = advance(p, (k - 1) as nat, c);
        vstd::arithmetic::div_mod::lemma_add_mod_noop_right(1, (p + k - 1) as int, c as int);
        assert((p + k - 1) as int + 1 == p + k);
        vstd::arithmetic::div_mod::lemma_mod_bound((p + k - 1) as int, c as int);
        if q + 1 < c {
            vstd::arithmetic::div_mod::lemma_small_mod((q + 1) as nat, c);
        } else {
            vstd::arithmetic::div_mod::lemma_mod_self_0(c as int);
        }
    }
}

} // verus!
