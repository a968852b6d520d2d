use vstd::prelude::*;

verus! {

/// What happened to one access of the trace, with the page it touched.
#[derive(Clone, Copy, Debug, PartialEq, Eq, Structural)]
pub enum MemoryAccess {
    Hit(i32),
    Miss(i32),
}

/// The outcomes of a run, one per access, in trace order.
pub struct MemoryAccesses {
    pub accesses: Vec<MemoryAccess>,
}

/// Number of hits in `s`.
pub open spec fn hit_count(s: Seq<MemoryAccess>) -> nat
    decreases s.len(),
{
    if s.len() == 0 {
        0
    } else {
        hit_count(s.drop_last()) + if s.last() is Hit { 1nat } else { 0nat }
    }
}

/// Number of misses in `s`.
pub open spec fn miss_count(s: Seq<MemoryAccess>) -> nat
    decreases s.len(),
{
    if s.len() == 0 {
        0
    } else {
        miss_count(s.drop_last()) + if s.last() is Miss { 1nat } else { 0nat }
    }
}

/// Every outcome is either a hit or a miss, so the two tallies add up to
/// the number of outcomes.
pub proof fn lemma_tally(s: Seq<MemoryAccess>)
    ensures
        hit_count(s) + miss_count(s) == s.len(),
    decreases s.len(),
{
    if s.len() > 0 {
        lemma_tally(s.drop_last());
    }
}

proof fn lemma_counts_bounded(s: Seq<MemoryAccess>)
    ensures
        hit_count(s) <= s.len(),
        miss_count(s) <= s.len(),
{
    lemma_tally(s);
}

impl MemoryAccesses {
    /// Number of accesses that were hits.
    pub fn hits(&self) -> (r: usize)
        ensures
            r == hit_count(self.accesses@),
    {
        let mut count: usize = 0;
        let mut i: usize = 0;
        while i < self.accesses.len()
            invariant
                i <= self.accesses@.len(),
                count == hit_count(self.accesses@.take(i as int)),
            decreases self.accesses@.len() - i,
        {
            proof {
                assert(self.accesses@.take(i + 1).drop_last() =~= self.accesses@.take(i as int));
                lemma_counts_bounded(self.accesses@.take(i + 1));
            }
            if let MemoryAccess::Hit(_) = self.accesses[i] {
                count = count + 1;
            }
            i = i + 1;
        }
        assert(self.accesses@.take(i as int) =~= self.accesses@);
        count
    }

    /// Number of accesses that were misses.
    pub fn misses(&self) -> (r: usize)
        ensures
            r == miss_count(self.accesses@),
    {
        let mut count: usize = 0;
        let mut i: usize = 0;
        while i < self.accesses.len()
            invariant
                i <= self.accesses@.len(),
                count == miss_count(self.accesses@.take(i as int)),
            decreases self.accesses@.len() - i,
        {
            proof {
                assert(self.accesses@.take(i + 1).drop_last() =~= self.accesses@.take(i as int));
                lemma_counts_bounded(self.accesses@.take(i + 1));
            }
            if let MemoryAccess::Miss(_) = self.accesses[i] {
                count = count + 1;
            }
            i = i + 1;
        }
        assert(self.accesses@.take(i as int) =~= self.accesses@);
        count
    }
}

} // verus!
