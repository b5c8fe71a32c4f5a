//! The bucket store: the current per-bar energy values, the width-driven
//! resize policy, and the aggregation step that folds one sample buffer
//! into the stored values.

use vstd::prelude::*;

verus! {

use crate::math::isqrt;
use crate::rms::{
    SCALE,
    GAIN,
    SampleBuffer,
    sample_in_range,
    sum_squares,
    chunk_start,
    chunk_end,
    bucket_value,
    aggregated,
    lemma_sum_squares_extend,
    lemma_sum_squares_nonneg,
};
use vstd::arithmetic::div_mod::{
    lemma_fundamental_div_mod,
    lemma_mod_division_less_than_divisor,
    lemma_div_non_zero,
    lemma_div_is_ordered,
    lemma_div_multiples_vanish,
};

/// Bucket count the store starts with, before the first resize.
pub const DEFAULT_BUCKET_COUNT: usize = 50;

/// Floor on the bucket count derived from the display width, so degenerate
/// narrow displays still render something.
pub const MIN_BUCKET_COUNT: usize = 10;

/// Holds one normalized energy value per display bar.
pub struct BucketStore {
    /// Current bucket values, each in [0, `SCALE`].
    pub values: Vec<u32>,
}

impl BucketStore {
    /// At least one bucket exists and every value is clamped to full scale.
    pub open spec fn wf(&self) -> bool {
        1 <= self.values@.len() && forall|i: int|
            0 <= i < self.values@.len() ==> #[trigger] self.values@[i] <= SCALE
    }

    /// A store of `count` buckets, all at zero energy.
    pub fn with_count(count: usize) -> (store: BucketStore)
        requires
            1 <= count,
        ensures
            store.wf(),
            store.values@.len() == count,
            forall|i: int| 0 <= i < count ==> #[trigger] store.values@[i] == 0,
    {
        let mut values: Vec<u32> = Vec::new();
        while values.len() < count
            invariant
                values@.len() <= count,
                forall|i: int| 0 <= i < values@.len() ==> #[trigger] values@[i] == 0,
            decreases count - values@.len(),
        {
            values.push(0);
        }
        BucketStore { values }
    }

    /// The store a run starts with: the default bucket count, all zero.
    pub fn new() -> (store: BucketStore)
        ensures
            store.wf(),
            store.values@.len() == DEFAULT_BUCKET_COUNT,
            forall|i: int| 0 <= i < DEFAULT_BUCKET_COUNT ==> #[trigger] store.values@[i] == 0,
    {
        Self::with_count(DEFAULT_BUCKET_COUNT)
    }

    /// Truncates or extends the store to `count` buckets: buckets below the
    /// new count keep their values positionally, newly added buckets start
    /// at zero energy.
    pub fn resize(&mut self, count: usize)
        requires
            old(self).wf(),
            1 <= count,
        ensures
            final(self).wf(),
            final(self).values@.len() == count,
            forall|i: int|
                0 <= i < count && i < old(self).values@.len() ==> #[trigger] final(self).values@[i]
                    == old(self).values@[i],
            forall|i: int|
                old(self).values@.len() <= i < count ==> #[trigger] final(self).values@[i] == 0,
    {
        if count <= self.values.len() {
            self.values.truncate(count);
            return ;
        }
        while self.values.len() < count
            invariant
                old(self).values@.len() <= self.values@.len() <= count,
                forall|i: int|
                    0 <= i < old(self).values@.len() ==> #[trigger] self.values@[i]
                        == old(self).values@[i],
                forall|i: int|
                    old(self).values@.len() <= i < self.values@.len() ==> #[trigger] self.values@[i]
                        == 0,
            decreases count - self.values@.len(),
        {
            self.values.push(0);
        }
    }

    /// Folds one sample buffer into the store: each bucket takes the
    /// clamped, gain-scaled RMS of its chunk of the buffer. A buffer with
    /// fewer samples than there are buckets leaves the store untouched.
    #[verifier::loop_isolation(false)]
    pub fn aggregate(&mut self, samples: &SampleBuffer)
        requires
            old(self).wf(),
            samples.wf(),
        ensures
            final(self).wf(),
            final(self).values@.len() == old(self).values@.len(),
            final(self).values@ == aggregated(samples@, old(self).values@),
            samples@.len() < old(self).values@.len() ==> final(self).values@ == old(self).values@,
            samples@.len() >= old(self).values@.len() ==> forall|i: int|
                0 <= i < final(self).values@.len() ==> #[trigger] final(self).values@[i] as int
                    == bucket_value(samples@, i, old(self).values@.len() as int),
    {
        let n = samples.len();
        let b = self.values.len();
        let chunk = n / b;
        proof {
            lemma_fundamental_div_mod(n as int, b as int);
            lemma_mod_division_less_than_divisor(n as int, b as int);
        }
        if chunk == 0 {
            proof {
                if n >= b {
                    lemma_div_non_zero(n as int, b as int);
                }
            }
            return ;
        }
        proof {
            // chunk >= 1, so the buffer covers every bucket: b * chunk <= n and b <= n
            assert((b as int) * (chunk as int) <= n as int);
            assert(b as int <= (b as int) * (chunk as int)) by (nonlinear_arith)
                requires
                    1 <= b as int,
                    1 <= chunk as int;
        }
        let mut i: usize = 0;
        while i < b
            invariant
                i <= b,
                self.values@.len() == b,
                forall|j: int|
                    0 <= j < i ==> #[trigger] self.values@[j] as int == bucket_value(
                        samples@,
                        j,
                        b as int,
                    ) && self.values@[j] <= SCALE,
                forall|j: int| i <= j < b ==> #[trigger] self.values@[j] == old(self).values@[j],
            decreases b - i,
        {
            proof {
                assert((i as int) * (chunk as int) + (chunk as int) == (i as int + 1) * (
                chunk as int)) by (nonlinear_arith);
                assert((i as int + 1) * (chunk as int) <= (b as int) * (chunk as int))
                    by (nonlinear_arith)
                    requires
                        i as int + 1 <= b as int,
                        0 <= chunk as int;
            }
            let lo = i * chunk;
            let hi = if i + 1 == b {
                n
            } else {
                (i + 1) * chunk
            };
            assert(lo as int == chunk_start(i as int, n as int, b as int));
            assert(hi as int == chunk_end(i as int, n as int, b as int));
            assert(lo + chunk <= hi <= n);
            let mut sum: u128 = 0;
            let mut j = lo;
            proof {
                assert(samples@.subrange(lo as int, lo as int) =~= Seq::<i32>::empty());
            }
            while j < hi
                invariant
                    lo <= j <= hi,
                    sum as int == sum_squares(samples@.subrange(lo as int, j as int)),
                    sum as int <= (j as int - lo as int) * ((SCALE as int) * (SCALE as int)),
                decreases hi - j,
            {
                let x = samples.sample(j);
                assert(sample_in_range(x));
                assert(0 <= (x as int) * (x as int) <= (SCALE as int) * (SCALE as int))
                    by (nonlinear_arith)
                    requires
                        -(SCALE as int) <= x as int <= SCALE as int;
                let xx: u64 = ((x as i64) * (x as i64)) as u64;
                proof {
                    assert((j as int - lo as int) * ((SCALE as int) * (SCALE as int)) + ((
                    SCALE as int) * (SCALE as int)) == (j as int + 1 - lo as int) * ((SCALE as int)
                        * (SCALE as int))) by (nonlinear_arith);
                    assert((j as int + 1 - lo as int) * ((SCALE as int) * (SCALE as int)) <= (
                    u64::MAX as int) * ((SCALE as int) * (SCALE as int))) by (nonlinear_arith)
                        requires
                            j as int + 1 - lo as int <= u64::MAX as int;
                    lemma_sum_squares_extend(samples@, lo as int, j as int);
                }
                sum = sum + xx as u128;
                j = j + 1;
            }
            let len = hi - lo;
            let ghost gchunk = samples@.subrange(lo as int, hi as int);
            proof {
                lemma_sum_squares_nonneg(gchunk);
                lemma_div_is_ordered(
                    sum as int,
                    (len as int) * ((SCALE as int) * (SCALE as int)),
                    len as int,
                );
                lemma_div_multiples_vanish((SCALE as int) * (SCALE as int), len as int);
            }
            let mean = (sum / (len as u128)) as u64;
            assert(mean as int == sum_squares(gchunk) / (hi as int - lo as int));
            assert(mean <= (SCALE as u64) * (SCALE as u64));
            let r = isqrt(mean);
            proof {
                assert(r as int <= SCALE as int) by (nonlinear_arith)
                    requires
                        0 <= r as int,
                        (r as int) * (r as int) <= mean as int,
                        mean as int <= (SCALE as int) * (SCALE as int);
            }
            let scaled: u32 = (r as u32) * GAIN;
            let v = if scaled < SCALE {
                scaled
            } else {
                SCALE
            };
            assert(v as int == bucket_value(samples@, i as int, b as int));
            self.values[i] = v;
            i = i + 1;
        }
        proof {
            assert(self.values@ =~= aggregated(samples@, old(self).values@));
        }
    }
}

} // verus!
