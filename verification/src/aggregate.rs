use vstd::prelude::*;

verus! {

/// Sum of a sequence of recorded latencies, in milliseconds.
pub open spec fn sum_ms(s: Seq<u64>) -> int
    decreases s.len(),
{
    if s.len() == 0 {
        0
    } else {
        sum_ms(s.drop_last()) + s.last()
    }
}

pub proof fn lemma_sum_ms_push(s: Seq<u64>, v: u64)
    ensures
        sum_ms(s.push(v)) == sum_ms(s) + v,
{
    assert(s.push(v).drop_last() =~= s);
}


/// Cumulative latency and operation count for one benchmark phase. The
/// running average is the truncating (floor) quotient of the two; that
/// truncation is depended-upon behaviour, not a rounding convenience.
pub struct RunningAggregate {
    total_ms: u64,
    ops: u64,
}

impl RunningAggregate {
    pub closed spec fn spec_total(&self) -> u64 {
        self.total_ms
    }

    pub closed spec fn spec_ops(&self) -> u64 {
        self.ops
    }

    /// The running average reported after the operations recorded so far.
    pub open spec fn spec_average(&self) -> int {
        self.spec_total() as int / self.spec_ops() as int
    }

    pub fn new() -> (r: RunningAggregate)
        ensures
            r.spec_total() == 0,
            r.spec_ops() == 0,
    {
        RunningAggregate { total_ms: 0, ops: 0 }
    }

    pub fn record(&mut self, latency_ms: u64)
        requires
            old(self).spec_total() + latency_ms <= u64::MAX,
            old(self).spec_ops() < u64::MAX,
        ensures
            final(self).spec_total() == old(self).spec_total() + latency_ms,
            final(self).spec_ops() == old(self).spec_ops() + 1,
    {
        self.total_ms = self.total_ms + latency_ms;
        self.ops = self.ops + 1;
    }

    pub fn total(&self) -> (r: u64)
        ensures
            r == self.spec_total(),
    {
        self.total_ms
    }

    pub fn count(&self) -> (r: u64)
        ensures
            r == self.spec_ops(),
    {
        self.ops
    }

    pub fn average(&self) -> (r: u64)
        requires
            self.spec_ops() > 0,
        ensures
            r == self.spec_average(),
    {
        self.total_ms / self.ops
    }
}

/// Law: an aggregate that has recorded the first `n` latencies of `lats`
/// reports as its running average the floor of their sum divided by `n`.
pub proof fn lemma_running_average(agg: RunningAggregate, lats: Seq<u64>, n: int)
    requires
        1 <= n <= lats.len(),
        agg.spec_total() == sum_ms(lats.take(n)),
        agg.spec_ops() == n,
    ensures
        agg.spec_average() == sum_ms(lats.take(n)) / n,
{
}

} // verus!
