//! Runtime statistics of the operators of a profiled query.
use vstd::prelude::*;

verus! {

/// Runtime statistics collected for a single operator. `elapsed_ns` includes the time spent in the
/// children; the operator's own time is what remains once theirs is taken away.
pub struct OperatorMetrics {
    pub name: String,
    /// Total rows output by this operator.
    pub rows: u64,
    /// Wall-clock time in nanoseconds spent producing the output, children included.
    pub elapsed_ns: u64,
    pub children: Vec<OperatorMetrics>,
}

/// The total time of a sequence of operators.
pub open spec fn total_elapsed(ops: Seq<OperatorMetrics>) -> int
    decreases ops.len(),
{
    if ops.len() == 0 {
        0
    } else {
        total_elapsed(ops.drop_last()) + ops.last().elapsed_ns
    }
}

impl OperatorMetrics {
    pub fn new(name: &str, children: Vec<OperatorMetrics>) -> (r: OperatorMetrics)
        ensures
            r.name@ == name@,
            r.rows == 0,
            r.elapsed_ns == 0,
            r.children == children,
    {
        OperatorMetrics { name: name.to_owned(), rows: 0, elapsed_ns: 0, children }
    }

    /// Counts `n` more output rows; the counter wraps around as an atomic counter does.
    pub fn record_rows(&mut self, n: u64)
        ensures
            final(self).rows == old(self).rows.wrapping_add(n),
            final(self).elapsed_ns == old(self).elapsed_ns,
            final(self).name == old(self).name,
            final(self).children == old(self).children,
    {
        self.rows = self.rows.wrapping_add(n);
    }

    /// Adds `ns` nanoseconds of work; the counter wraps around as an atomic counter does.
    pub fn record_elapsed(&mut self, ns: u64)
        ensures
            final(self).elapsed_ns == old(self).elapsed_ns.wrapping_add(ns),
            final(self).rows == old(self).rows,
            final(self).name == old(self).name,
            final(self).children == old(self).children,
    {
        self.elapsed_ns = self.elapsed_ns.wrapping_add(ns);
    }

    /// The time of the children together. Summing them must not overflow.
    pub fn children_elapsed_ns(&self) -> (r: u64)
        requires
            total_elapsed(self.children@) <= u64::MAX,
        ensures
            r == total_elapsed(self.children@),
    {
        let mut total: u64 = 0;
        let mut i: usize = 0;
        while i < self.children.len()
            invariant
                i <= self.children@.len(),
                total == total_elapsed(self.children@.take(i as int)),
                total_elapsed(self.children@) <= u64::MAX,
            decreases self.children@.len() - i,
        {
            proof {
                assert(self.children@.take(i + 1).drop_last() =~= self.children@.take(i as int));
                lemma_total_elapsed_prefix(self.children@, i + 1);
            }
            total = total + self.children[i].elapsed_ns;
            i = i + 1;
        }
        proof {
            assert(self.children@.take(self.children@.len() as int) =~= self.children@);
        }
        total
    }

    /// The time spent in this operator itself: its time less that of its children, or zero.
    pub fn self_elapsed_ns(&self) -> (r: u64)
        requires
            total_elapsed(self.children@) <= u64::MAX,
        ensures
            r == if self.elapsed_ns >= total_elapsed(self.children@) {
                self.elapsed_ns - total_elapsed(self.children@)
            } else {
                0
            },
    {
        self.elapsed_ns.saturating_sub(self.children_elapsed_ns())
    }
}

/// The time of a prefix is at most that of the whole sequence.
proof fn lemma_total_elapsed_prefix(ops: Seq<OperatorMetrics>, k: int)
    requires
        0 <= k <= ops.len(),
    ensures
        total_elapsed(ops.take(k)) <= total_elapsed(ops),
    decreases ops.len(),
{
    if k < ops.len() {
        assert(ops.drop_last().take(k) =~= ops.take(k));
        lemma_total_elapsed_prefix(ops.drop_last(), k);
    } else {
        assert(ops.take(k) =~= ops);
    }
}


/// What one poll of a profiled operator's output gave.
pub enum PollOutcome {
    /// A chunk with this many visible rows.
    Chunk(u64),
    /// An error.
    Failed,
    /// Nothing yet; the operator will be polled again.
    Pending,
    /// The end of the output.
    Finished,
}

impl OperatorMetrics {
    /// Records one poll that took `elapsed_ns` nanoseconds: a chunk counts its visible rows and the
    /// time, the end of the output counts the time, and an error or a pending poll counts nothing.
    pub fn record_poll(&mut self, outcome: PollOutcome, elapsed_ns: u64)
        ensures
            final(self).name == old(self).name,
            final(self).children == old(self).children,
            match outcome {
                PollOutcome::Chunk(n) => final(self).rows == old(self).rows.wrapping_add(n)
                    && final(self).elapsed_ns == old(self).elapsed_ns.wrapping_add(elapsed_ns),
                PollOutcome::Finished => final(self).rows == old(self).rows
                    && final(self).elapsed_ns == old(self).elapsed_ns.wrapping_add(elapsed_ns),
                PollOutcome::Failed | PollOutcome::Pending => final(self).rows == old(self).rows
                    && final(self).elapsed_ns == old(self).elapsed_ns,
            },
    {
        match outcome {
            PollOutcome::Chunk(n) => {
                self.record_rows(n);
                self.record_elapsed(elapsed_ns);
            },
            PollOutcome::Finished => self.record_elapsed(elapsed_ns),
            PollOutcome::Failed | PollOutcome::Pending => {},
        }
    }
}

} // verus!
