//! A rolling population-count time series for the inspector: each sample is
//! an (index, count) pair; once the log is full, every other sample is
//! dropped, so older history keeps less resolution.

use vstd::prelude::*;

verus! {

/// Samples the log may hold before it is thinned.
pub const LOG_CAPACITY: usize = 200;

/// Sample indices saturate at this rail.
pub const IDX_LIMIT: i64 = 1_000_000_000_000_000;

/// The thinned log: the samples at odd positions, in order.
pub open spec fn decimated(s: Seq<(i64, i64)>) -> Seq<(i64, i64)> {
    Seq::new((s.len() / 2) as nat, |i: int| s[2 * i + 1])
}

/// A rolling log of population counts.
pub struct PopulationLog {
    /// (sample index, population count) pairs, oldest first.
    pub samples: Vec<(i64, i64)>,
}

impl PopulationLog {
    /// Well-formed: never empty, sample indices within the rail.
    pub open spec fn wf(self) -> bool {
        &&& self.samples@.len() >= 1
        &&& forall|i: int|
            0 <= i < self.samples@.len() ==> 0 <= (#[trigger] self.samples@[i]).0 <= IDX_LIMIT
    }

    /// A log holding the single origin sample.
    pub fn new() -> (r: PopulationLog)
        ensures
            r.samples@ == seq![(0i64, 0i64)],
            r.wf(),
    {
        let mut v: Vec<(i64, i64)> = Vec::new();
        v.push((0, 0));
        proof {
            assert(v@ =~= seq![(0i64, 0i64)]);
        }
        PopulationLog { samples: v }
    }

    /// Append one population sample under the next index; when the log
    /// overflows its capacity, drop every sample at an even position.
    pub fn push_sample(&mut self, count: i64)
        requires
            old(self).wf(),
        ensures
            final(self).wf(),
            ({
                let last = old(self).samples@.last();
                let idx = if last.0 < IDX_LIMIT {
                    last.0 + 1
                } else {
                    IDX_LIMIT as int
                };
                let appended = old(self).samples@.push((idx as i64, count));
                final(self).samples@ == if appended.len() > LOG_CAPACITY {
                    decimated(appended)
                } else {
                    appended
                }
            }),
    {
        let last_idx: i64 = self.samples[self.samples.len() - 1].0;
        let idx: i64 = if last_idx < IDX_LIMIT {
            last_idx + 1
        } else {
            IDX_LIMIT
        };
        self.samples.push((idx, count));
        if self.samples.len() > LOG_CAPACITY {
            let n: usize = self.samples.len();
            let mut thinned: Vec<(i64, i64)> = Vec::new();
            let mut j: usize = 0;
            while j < n / 2
                invariant
                    n == self.samples@.len(),
                    0 <= j <= n / 2,
                    thinned@.len() == j,
                    forall|k: int| 0 <= k < j ==> thinned@[k] == self.samples@[2 * k + 1],
                decreases n / 2 - j,
            {
                thinned.push(self.samples[2 * j + 1]);
                j = j + 1;
            }
            proof {
                assert(thinned@ =~= decimated(self.samples@));
            }
            self.samples = thinned;
        }
    }
}

} // verus!
