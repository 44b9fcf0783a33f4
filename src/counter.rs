use vstd::prelude::*;

verus! {

/// Sum of a sequence of per-processor counts.
pub open spec fn sum_of(s: Seq<usize>) -> int
    decreases s.len(),
{
    if s.len() == 0 {
        0
    } else {
        sum_of(s.drop_last()) + s.last() as int
    }
}

proof fn lemma_sum_nonneg(s: Seq<usize>)
    ensures
        sum_of(s) >= 0,
    decreases s.len(),
{
    if s.len() > 0 {
        lemma_sum_nonneg(s.drop_last());
    }
}

/// Changing one entry changes the sum by the same amount.
proof fn lemma_sum_update(s: Seq<usize>, i: int, v: usize)
    requires
        0 <= i < s.len(),
    ensures
        sum_of(s.update(i, v)) == sum_of(s) - s[i] as int + v as int,
    decreases s.len(),
{
    let t = s.update(i, v);
    if i == s.len() - 1 {
        assert(t.drop_last() =~= s.drop_last());
    } else {
        lemma_sum_update(s.drop_last(), i, v);
        assert(t.drop_last() =~= s.drop_last().update(i, v));
    }
}

/// Each entry is at most the sum.
proof fn lemma_entry_le_sum(s: Seq<usize>, i: int)
    requires
        0 <= i < s.len(),
    ensures
        s[i] as int <= sum_of(s),
    decreases s.len(),
{
    lemma_sum_nonneg(s.drop_last());
    if i < s.len() - 1 {
        lemma_entry_le_sum(s.drop_last(), i);
    }
}

proof fn lemma_sum_zeros(s: Seq<usize>)
    requires
        forall|i: int| 0 <= i < s.len() ==> s[i] == 0,
    ensures
        sum_of(s) == 0,
    decreases s.len(),
{
    if s.len() > 0 {
        lemma_sum_zeros(s.drop_last());
    }
}

/// One call counter per processor; their sum is the number of callers
/// admitted on the fast path.
pub struct PerCpuCounter {
    counts: Vec<usize>,
}

impl View for PerCpuCounter {
    type V = Seq<usize>;

    closed spec fn view(&self) -> Seq<usize> {
        self.counts@
    }
}

impl PerCpuCounter {
    /// The total over all processors.
    pub open spec fn total(&self) -> int {
        sum_of(self@)
    }

    /// A counter for `cpus` processors, all at zero.
    pub fn new(cpus: usize) -> (r: Self)
        ensures
            r@.len() == cpus,
            forall|i: int| 0 <= i < cpus ==> r@[i] == 0,
            r.total() == 0,
    {
        let mut counts: Vec<usize> = Vec::new();
        let mut i: usize = 0;
        while i < cpus
            invariant
                i <= cpus,
                counts@.len() == i,
                forall|j: int| 0 <= j < i ==> counts@[j] == 0,
            decreases cpus - i,
        {
            counts.push(0);
            i = i + 1;
        }
        proof {
            lemma_sum_zeros(counts@);
        }
        PerCpuCounter { counts }
    }

    pub fn cpus(&self) -> (r: usize)
        ensures
            r == self@.len(),
    {
        self.counts.len()
    }

    /// Count one more caller on processor `cpu`.
    pub fn inc(&mut self, cpu: usize)
        requires
            cpu < old(self)@.len(),
            old(self).total() < usize::MAX,
        ensures
            final(self)@ == old(self)@.update(cpu as int, (old(self)@[cpu as int] + 1) as usize),
            final(self)@[cpu as int] == old(self)@[cpu as int] + 1,
            final(self).total() == old(self).total() + 1,
    {
        proof {
            lemma_entry_le_sum(self@, cpu as int);
            lemma_sum_update(self@, cpu as int, (self@[cpu as int] + 1) as usize);
        }
        let v = self.counts[cpu] + 1;
        self.counts.set(cpu, v);
    }

    /// Count one caller less on processor `cpu`.
    pub fn dec(&mut self, cpu: usize)
        requires
            cpu < old(self)@.len(),
            old(self)@[cpu as int] > 0,
        ensures
            final(self)@ == old(self)@.update(cpu as int, (old(self)@[cpu as int] - 1) as usize),
            final(self).total() == old(self).total() - 1,
    {
        proof {
            lemma_sum_update(self@, cpu as int, (self@[cpu as int] - 1) as usize);
        }
        let v = self.counts[cpu] - 1;
        self.counts.set(cpu, v);
    }

    /// The number of callers over all processors.
    pub fn all(&self) -> (r: usize)
        requires
            self.total() <= usize::MAX,
        ensures
            r == self.total(),
    {
        let mut acc: usize = 0;
        let mut i: usize = 0;
        while i < self.counts.len()
            invariant
                i <= self@.len(),
                acc == sum_of(self@.take(i as int)),
                self.total() <= usize::MAX,
            decreases self@.len() - i,
        {
            proof {
                let t = self@.take(i as int + 1);
                assert(t.drop_last() =~= self@.take(i as int));
                lemma_sum_prefix_le(self@, i as int + 1);
            }
            acc = acc + self.counts[i];
            i = i + 1;
        }
        assert(self@.take(i as int) =~= self@);
        acc
    }
}

/// The sum of a prefix is at most the sum of the whole.
proof fn lemma_sum_prefix_le(s: Seq<usize>, n: int)
    requires
        0 <= n <= s.len(),
    ensures
        sum_of(s.take(n)) <= sum_of(s),
    decreases s.len() - n,
{
    if n < s.len() {
        lemma_sum_prefix_le(s, n + 1);
        let t = s.take(n + 1);
        assert(t.drop_last() =~= s.take(n));
    } else {
        assert(s.take(n) =~= s);
    }
}

} // verus!
