use vstd::prelude::*;

verus! {

/// A counter for every potential trace-entry program point. A point becomes
/// hot — eligible for trace recording — the moment its counter reaches the
/// threshold; eviction of the point's compiled unit resets the counter so
/// that tracing may start over.
pub struct HotnessTracker {
    pub counts: Vec<u64>,
    pub threshold: u64,
}

impl HotnessTracker {
    /// A tracker for `n` program points, all cold.
    pub fn new(n: usize, threshold: u64) -> (r: HotnessTracker)
        ensures
            r.counts@ == Seq::new(n as nat, |i: int| 0u64),
            r.threshold == threshold,
    {
        HotnessTracker { counts: crate::util::filled_vec(n, 0u64), threshold }
    }

    /// Count one entry of the loop body at `pc`. Returns true exactly when
    /// this entry makes the counter reach the threshold; the counter
    /// saturates there, so later entries of an already hot point return
    /// false.
    pub fn record_entry(&mut self, pc: usize) -> (hot: bool)
        requires
            pc < old(self).counts@.len(),
        ensures
            final(self).threshold == old(self).threshold,
            final(self).counts@ == if old(self).counts@[pc as int] < old(self).threshold {
                old(self).counts@.update(pc as int, (old(self).counts@[pc as int] + 1) as u64)
            } else {
                old(self).counts@
            },
            hot <==> old(self).counts@[pc as int] + 1 == old(self).threshold,
    {
        let c = self.counts[pc];
        if c < self.threshold {
            self.counts.set(pc, c + 1);
            c + 1 == self.threshold
        } else {
            false
        }
    }

    /// Forget everything counted for `pc`, done when its compiled unit is
    /// evicted.
    pub fn reset(&mut self, pc: usize)
        requires
            pc < old(self).counts@.len(),
        ensures
            final(self).threshold == old(self).threshold,
            final(self).counts@ == old(self).counts@.update(pc as int, 0u64),
    {
        self.counts.set(pc, 0);
    }
}

} // verus!
