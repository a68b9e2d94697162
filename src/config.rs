use vstd::prelude::*;

verus! {

/// Sum of a sequence of integers.
pub open spec fn sum(s: Seq<int>) -> int
    decreases s.len(),
{
    if s.len() == 0 {
        0
    } else {
        sum(s.drop_last()) + s.last()
    }
}

/// A producer/consumer workload for the bounded buffer: the number of slots,
/// of reader and writer threads, and of items each reader takes.
pub struct WorkloadConfig {
    pub buffer_size: usize,
    pub readers: usize,
    pub writers: usize,
    pub iterations: usize,
}

impl WorkloadConfig {
    /// Every count lies in the range the sampler draws from.
    pub open spec fn wf(&self) -> bool {
        &&& 1 <= self.buffer_size <= 5
        &&& 1 <= self.readers <= 5
        &&& 1 <= self.writers <= 5
        &&& 1 <= self.iterations <= 10
    }

    /// Items taken by all readers together.
    pub open spec fn total_spec(&self) -> int {
        self.iterations * self.readers
    }

    /// Items each writer puts before the remainder is handed out.
    pub open spec fn base_share_spec(&self) -> int {
        self.total_spec() / (self.writers as int)
    }

    /// Items left over after an even split; the last writer puts them.
    pub open spec fn remainder_spec(&self) -> int {
        self.total_spec() % (self.writers as int)
    }

    /// Items that writer `i` puts.
    pub open spec fn share_spec(&self, i: int) -> int {
        if i == self.writers - 1 {
            self.base_share_spec() + self.remainder_spec()
        } else {
            self.base_share_spec()
        }
    }

    /// The shares of all writers, in order.
    pub open spec fn shares_spec(&self) -> Seq<int> {
        Seq::new(self.writers as nat, |i: int| self.share_spec(i))
    }

    /// The workload built from four draws: `size_draw` and `readers_draw` and
    /// `writers_draw` uniform below 5, `iterations_draw` uniform below 10.
    /// Each count is its draw plus one.
    pub fn from_draws(size_draw: usize, readers_draw: usize, writers_draw: usize, iterations_draw: usize) -> (r: Self)
        requires
            size_draw < 5,
            readers_draw < 5,
            writers_draw < 5,
            iterations_draw < 10,
        ensures
            r.wf(),
            r.buffer_size == size_draw + 1,
            r.readers == readers_draw + 1,
            r.writers == writers_draw + 1,
            r.iterations == iterations_draw + 1,
    {
        WorkloadConfig {
            buffer_size: size_draw + 1,
            readers: readers_draw + 1,
            writers: writers_draw + 1,
            iterations: iterations_draw + 1,
        }
    }

    /// The smallest workload known to deadlock: one slot, two readers of
    /// five items each and one writer of ten.
    pub fn minimal() -> (r: Self)
        ensures
            r.wf(),
            r.buffer_size == 1,
            r.readers == 2,
            r.writers == 1,
            r.iterations == 5,
    {
        WorkloadConfig { buffer_size: 1, readers: 2, writers: 1, iterations: 5 }
    }

    /// Items taken by all readers together.
    pub fn total_items(&self) -> (r: usize)
        requires
            self.wf(),
        ensures
            r == self.total_spec(),
            r <= 50,
    {
        proof {
            vstd::arithmetic::mul::lemma_mul_upper_bound(self.iterations as int, 10, self.readers as int, 5);
        }
        self.iterations * self.readers
    }

    /// Items each writer puts before the remainder is handed out.
    pub fn writer_iterations(&self) -> (r: usize)
        requires
            self.wf(),
        ensures
            r == self.base_share_spec(),
            r <= 50,
    {
        let t = self.total_items();
        proof {
            vstd::arithmetic::div_mod::lemma_div_is_ordered_by_denominator(t as int, 1, self.writers as int);
            assert(t as int / 1 == t);
        }
        t / self.writers
    }

    /// Items left over after the even split.
    pub fn remainder(&self) -> (r: usize)
        requires
            self.wf(),
        ensures
            r == self.remainder_spec(),
            r < self.writers,
    {
        self.total_items() % self.writers
    }

    /// Items that writer `i` puts: the even share, plus the remainder for the
    /// last writer.
    pub fn writer_share(&self, i: usize) -> (r: usize)
        requires
            self.wf(),
            i < self.writers,
        ensures
            r == self.share_spec(i as int),
    {
        let w = self.writer_iterations();
        if i == self.writers - 1 {
            w + self.remainder()
        } else {
            w
        }
    }

    /// The shares of all writers, in order.
    pub fn writer_shares(&self) -> (r: Vec<usize>)
        requires
            self.wf(),
        ensures
            r@.len() == self.writers,
            forall|i: int| 0 <= i < self.writers ==> r@[i] == #[trigger] self.share_spec(i),
    {
        let mut r: Vec<usize> = Vec::new();
        let mut i: usize = 0;
        while i < self.writers
            invariant
                self.wf(),
                i <= self.writers,
                r@.len() == i,
                forall|j: int| 0 <= j < i ==> r@[j] == #[trigger] self.share_spec(j),
            decreases self.writers - i,
        {
            r.push(self.writer_share(i));
            i = i + 1;
        }
        r
    }
}

proof fn lemma_sum_constant(n: nat, b: int)
    ensures
        sum(Seq::new(n, |i: int| b)) == n * b,
    decreases n,
{
    if n > 0 {
        let s = Seq::new(n, |i: int| b);
        lemma_sum_constant((n - 1) as nat, b);
        assert(s.drop_last() =~= Seq::new((n - 1) as nat, |i: int| b));
        assert(s.last() == b);
        vstd::arithmetic::mul::lemma_mul_is_distributive_sub_other_way(b, n as int, 1);
        assert(sum(s) == (n - 1) * b + b);
        assert(sum(s) == n * b) by (nonlinear_arith)
            requires
                sum(s) == (n - 1) * b + b,
        ;
    } else {
        vstd::arithmetic::mul::lemma_mul_basics(b);
    }
}

/// The workload is balanced by construction: the writers' shares add up to
/// exactly the items that the readers take, the even share times the number
/// of writers plus the remainder gives the same total, and the remainder is
/// smaller than the number of writers.
pub proof fn lemma_workload_balanced(cfg: WorkloadConfig)
    requires
        cfg.wf(),
    ensures
        sum(cfg.shares_spec()) == cfg.readers * cfg.iterations,
        cfg.base_share_spec() * cfg.writers + cfg.remainder_spec() == cfg.readers * cfg.iterations,
        0 <= cfg.remainder_spec() < cfg.writers,
{
    let w = cfg.writers as int;
    let b = cfg.base_share_spec();
    let m = cfg.remainder_spec();
    vstd::arithmetic::div_mod::lemma_fundamental_div_mod(cfg.total_spec(), w);
    vstd::arithmetic::mul::lemma_mul_is_commutative(cfg.readers as int, cfg.iterations as int);
    vstd::arithmetic::mul::lemma_mul_is_commutative(w, b);
    let s = cfg.shares_spec();
    let front = Seq::new((w - 1) as nat, |i: int| b);
    assert(s.drop_last() =~= front);
    lemma_sum_constant((w - 1) as nat, b);
    vstd::arithmetic::mul::lemma_mul_is_distributive_sub_other_way(b, w, 1);
}

} // verus!
