//! Fixed-capacity history of per-interval request-count deltas, fed from a
//! cumulative counter, with a sparkline rendering.

use vstd::prelude::*;

verus! {

/// How many delta samples the history keeps.
pub const MAX_SAMPLES: usize = 30;

/// Historical request-count deltas for one tunnel: a ring of the most recent
/// [`MAX_SAMPLES`] per-interval deltas, and the last observed cumulative
/// total.
#[derive(Debug)]
pub struct MetricsHistory {
    /// Request-count deltas over time, oldest first.
    pub request_samples: Vec<u64>,
    /// Last known cumulative request total, to compute the next delta.
    pub last_total: u64,
}

impl Default for MetricsHistory {
    fn default() -> (r: Self)
        ensures
            r.request_samples@ == Seq::<u64>::empty(),
            r.last_total == 0,
    {
        MetricsHistory { request_samples: Vec::new(), last_total: 0 }
    }
}

impl Clone for MetricsHistory {
    fn clone(&self) -> (r: Self)
        ensures
            r.request_samples@ == self.request_samples@,
            r.last_total == self.last_total,
    {
        let mut samples: Vec<u64> = Vec::new();
        let mut i: usize = 0;
        while i < self.request_samples.len()
            invariant
                i <= self.request_samples@.len(),
                samples@ == self.request_samples@.take(i as int),
            decreases self.request_samples@.len() - i,
        {
            samples.push(self.request_samples[i]);
            i += 1;
            proof {
                assert(samples@ =~= self.request_samples@.take(i as int));
            }
        }
        proof {
            assert(self.request_samples@.take(self.request_samples@.len() as int)
                =~= self.request_samples@);
        }
        MetricsHistory { request_samples: samples, last_total: self.last_total }
    }
}

/// The delta recorded for a new cumulative total: the increase since the last
/// total, or the new total itself after a counter reset, never a negative
/// value.
pub open spec fn spec_delta(last_total: u64, total: u64) -> u64 {
    if total >= last_total {
        (total - last_total) as u64
    } else {
        total
    }
}

/// The sample list after recording a new total: the delta appended, the
/// oldest sample dropped once the capacity is reached.
pub open spec fn recorded_samples(samples: Seq<u64>, last_total: u64, total: u64) -> Seq<u64> {
    if samples.len() + 1 > MAX_SAMPLES {
        samples.push(spec_delta(last_total, total)).drop_first()
    } else {
        samples.push(spec_delta(last_total, total))
    }
}

impl MetricsHistory {
    /// Records a new cumulative request total: appends the delta since the
    /// last total (the total itself after a counter reset), keeps only the
    /// most recent [`MAX_SAMPLES`] samples, and remembers the total.
    pub fn record(&mut self, total_requests: u64)
        ensures
            final(self).last_total == total_requests,
            final(self).request_samples@ == recorded_samples(
                old(self).request_samples@,
                old(self).last_total,
                total_requests,
            ),
    {
        let delta = if total_requests >= self.last_total {
            total_requests - self.last_total
        } else {
            total_requests
        };
        self.request_samples.push(delta);
        if self.request_samples.len() > MAX_SAMPLES {
            self.request_samples.remove(0);
            proof {
                assert(self.request_samples@ =~= old(self).request_samples@.push(
                    spec_delta(old(self).last_total, total_requests),
                ).drop_first());
            }
        }
        self.last_total = total_requests;
    }

    /// Renders the history as one block character per sample, scaled to the
    /// largest sample.
    pub fn sparkline(&self) -> (r: String)
        ensures
            r@ == spec_sparkline(self.request_samples@),
    {
        if self.request_samples.len() == 0 {
            let r = String::new();
            proof {
                assert(r@ =~= spec_sparkline(self.request_samples@));
            }
            return r;
        }
        let blocks: &str = "\u{2581}\u{2582}\u{2583}\u{2584}\u{2585}\u{2586}\u{2587}\u{2588}";
        proof {
            reveal_strlit("\u{2581}\u{2582}\u{2583}\u{2584}\u{2585}\u{2586}\u{2587}\u{2588}");
            assert(blocks@ == block_chars());
        }
        let samples = &self.request_samples;
        let mut max: u64 = 1;
        let mut i: usize = 0;
        while i < samples.len()
            invariant
                i <= samples@.len(),
                max == spec_scale(samples@.take(i as int)),
            decreases samples@.len() - i,
        {
            proof {
                assert(samples@.take(i + 1).drop_last() =~= samples@.take(i as int));
            }
            if samples[i] > max {
                max = samples[i];
            }
            i += 1;
        }
        proof {
            assert(samples@.take(samples@.len() as int) =~= samples@);
        }
        proof {
            assert(blocks@.len() == 8);
        }
        let mut r = String::new();
        let mut j: usize = 0;
        while j < samples.len()
            invariant
                j <= samples@.len(),
                samples@.len() > 0,
                blocks@ == block_chars(),
                blocks@.len() == 8,
                max == spec_scale(samples@),
                r@ == spec_sparkline(samples@).take(j as int),
            decreases samples@.len() - j,
        {
            let v = samples[j];
            proof {
                lemma_scale_bounds(samples@, j as int);
            }
            let idx_wide: u128 = (14u128 * (v as u128) + (max as u128)) / (2u128 * (max as u128));
            proof {
                assert(0 <= spark_idx(v, max) <= 7) by (nonlinear_arith)
                    requires
                        1 <= max,
                        v <= max,
                ;
                assert(idx_wide == spark_idx(v, max));
            }
            let idx = idx_wide as usize;
            let block = blocks.substring_char(idx, idx + 1);
            r.append(block);
            j += 1;
            proof {
                assert(r@ =~= spec_sparkline(samples@).take(j as int));
            }
        }
        proof {
            assert(spec_sparkline(samples@).take(samples@.len() as int) =~= spec_sparkline(
                samples@,
            ));
        }
        r
    }
}

/// The eight block characters used by the sparkline, lowest to highest.
pub open spec fn block_chars() -> Seq<char> {
    "\u{2581}\u{2582}\u{2583}\u{2584}\u{2585}\u{2586}\u{2587}\u{2588}"@
}

/// The scale of a sample sequence: its largest sample, at least 1.
pub open spec fn spec_scale(samples: Seq<u64>) -> u64
    decreases samples.len(),
{
    if samples.len() == 0 {
        1
    } else {
        let m = spec_scale(samples.drop_last());
        if samples.last() > m {
            samples.last()
        } else {
            m
        }
    }
}

/// The block index for sample `v` at scale `max`: `7 * v / max` rounded to
/// the nearest integer.
pub open spec fn spark_idx(v: u64, max: u64) -> int {
    (14 * (v as int) + (max as int)) / (2 * (max as int))
}

/// The sparkline of a sample sequence: one block character per sample.
pub open spec fn spec_sparkline(samples: Seq<u64>) -> Seq<char> {
    Seq::new(samples.len(), |i: int| block_chars()[spark_idx(samples[i], spec_scale(samples))])
}

proof fn lemma_scale_ge_one(samples: Seq<u64>)
    ensures
        1 <= spec_scale(samples),
    decreases samples.len(),
{
    if samples.len() > 0 {
        lemma_scale_ge_one(samples.drop_last());
    }
}

proof fn lemma_scale_bounds(samples: Seq<u64>, i: int)
    requires
        0 <= i < samples.len(),
    ensures
        samples[i] <= spec_scale(samples),
        1 <= spec_scale(samples),
    decreases samples.len(),
{
    lemma_scale_ge_one(samples);
    if i < samples.len() - 1 {
        lemma_scale_bounds(samples.drop_last(), i);
    }
}

} // verus!
