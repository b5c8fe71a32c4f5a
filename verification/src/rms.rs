//! Sample buffers and the RMS bucket reduction, stated over fixed-point
//! amplitudes: a value of `SCALE` stands for a full-scale amplitude of 1.0.

use vstd::prelude::*;

verus! {

use crate::math::floor_sqrt;

/// Fixed-point amplitude scale: a sample or bucket value of `SCALE` stands
/// for an amplitude of 1.0.
pub const SCALE: u32 = 10_000;

/// Gain applied to each bucket's RMS before clamping to full scale.
pub const GAIN: u32 = 10;

/// The sample lies in the nominal amplitude range [-1.0, 1.0].
pub open spec fn sample_in_range(x: i32) -> bool {
    -(SCALE as int) <= x as int <= SCALE as int
}

/// An immutable buffer of fixed-point mono samples, as handed over by the
/// capture callback; never mutated after construction.
pub struct SampleBuffer {
    samples: Vec<i32>,
}

impl View for SampleBuffer {
    type V = Seq<i32>;

    closed spec fn view(&self) -> Seq<i32> {
        self.samples@
    }
}

impl SampleBuffer {
    /// Every sample is within the nominal amplitude range.
    pub open spec fn wf(&self) -> bool {
        forall|i: int| 0 <= i < self@.len() ==> sample_in_range(#[trigger] self@[i])
    }

    /// Wraps `samples` as a buffer, provided every sample is within the
    /// nominal range; rejects the buffer otherwise.
    pub fn new(samples: Vec<i32>) -> (r: Option<SampleBuffer>)
        ensures
            r is Some <==> (forall|i: int|
                0 <= i < samples@.len() ==> sample_in_range(#[trigger] samples@[i])),
            r matches Some(buf) ==> buf@ == samples@ && buf.wf(),
    {
        let mut i: usize = 0;
        while i < samples.len()
            invariant
                i <= samples@.len(),
                forall|j: int| 0 <= j < i ==> sample_in_range(#[trigger] samples@[j]),
            decreases samples@.len() - i,
        {
            let x = samples[i];
            if x < -(SCALE as i32) || x > SCALE as i32 {
                assert(!sample_in_range(samples@[i as int]));
                return None;
            }
            i += 1;
        }
        Some(SampleBuffer { samples })
    }

    /// Number of samples in the buffer.
    pub fn len(&self) -> (n: usize)
        ensures
            n == self@.len(),
    {
        self.samples.len()
    }

    /// The sample at index `i`.
    pub fn sample(&self, i: usize) -> (x: i32)
        requires
            i < self@.len(),
        ensures
            x == self@[i as int],
    {
        self.samples[i]
    }
}

/// Sum of the squared samples of `s`.
pub open spec fn sum_squares(s: Seq<i32>) -> int
    decreases s.len(),
{
    if s.len() == 0 {
        0
    } else {
        sum_squares(s.drop_last()) + (s.last() as int) * (s.last() as int)
    }
}

pub proof fn lemma_sum_squares_nonneg(s: Seq<i32>)
    ensures
        sum_squares(s) >= 0,
    decreases s.len(),
{
    if s.len() > 0 {
        lemma_sum_squares_nonneg(s.drop_last());
        assert((s.last() as int) * (s.last() as int) >= 0) by (nonlinear_arith);
    }
}

/// Extending a subrange by one sample adds that sample's square to the sum.
pub proof fn lemma_sum_squares_extend(s: Seq<i32>, lo: int, j: int)
    requires
        0 <= lo <= j < s.len(),
    ensures
        sum_squares(s.subrange(lo, j + 1)) == sum_squares(s.subrange(lo, j)) + (s[j] as int) * (
        s[j] as int),
{
    let a = s.subrange(lo, j + 1);
    assert(a.drop_last() =~= s.subrange(lo, j));
    assert(a.last() == s[j]);
}

/// Number of samples each bucket's chunk covers (integer division).
pub open spec fn chunk_size(n: int, b: int) -> int {
    n / b
}

/// First sample index of bucket `i`'s chunk.
pub open spec fn chunk_start(i: int, n: int, b: int) -> int {
    i * chunk_size(n, b)
}

/// One-past-the-last sample index of bucket `i`'s chunk; the last bucket
/// extends to the end of the buffer to absorb the division remainder.
pub open spec fn chunk_end(i: int, n: int, b: int) -> int {
    if i == b - 1 {
        n
    } else {
        (i + 1) * chunk_size(n, b)
    }
}

/// The normalized energy of bucket `i` out of `b`: the RMS of its chunk,
/// scaled by `GAIN` and clamped to full scale.
pub open spec fn bucket_value(s: Seq<i32>, i: int, b: int) -> int {
    let lo = chunk_start(i, s.len() as int, b);
    let hi = chunk_end(i, s.len() as int, b);
    let mean = sum_squares(s.subrange(lo, hi)) / (hi - lo);
    let scaled = (GAIN as int) * floor_sqrt(mean);
    if scaled < SCALE as int {
        scaled
    } else {
        SCALE as int
    }
}

/// What one aggregation step leaves in a store holding `vals`: the values
/// untouched when the buffer is smaller than the bucket count, else one
/// fresh RMS value per bucket.
pub open spec fn aggregated(s: Seq<i32>, vals: Seq<u32>) -> Seq<u32> {
    let b = vals.len() as int;
    if chunk_size(s.len() as int, b) == 0 {
        vals
    } else {
        Seq::new(vals.len(), |i: int| bucket_value(s, i, b) as u32)
    }
}

/// Aggregating the same buffer a second time changes nothing: the reduction
/// is a pure function of the buffer and the bucket count, so a re-run over
/// unchanged input reproduces the same bucket values.
pub proof fn lemma_aggregation_idempotent(s: Seq<i32>, vals: Seq<u32>)
    ensures
        aggregated(s, aggregated(s, vals)) == aggregated(s, vals),
{
    let once = aggregated(s, vals);
    if chunk_size(s.len() as int, vals.len() as int) != 0 {
        assert(once.len() == vals.len());
        assert(aggregated(s, once) =~= once);
    }
}

} // verus!
