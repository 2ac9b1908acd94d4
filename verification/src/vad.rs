//! Voice-activity detection: a root-mean-square audio level and a
//! hysteresis classifier.
//!
//! Audio samples are fixed-point values in thousandths of full scale: a
//! full-scale sample is `1000`, silence is `0`.  Levels and thresholds use
//! the same scale, so a threshold of `20` corresponds to two percent of
//! full scale.

use vstd::arithmetic::div_mod::{lemma_div_is_ordered, lemma_div_multiples_vanish};
use vstd::arithmetic::mul::lemma_mul_inequality;
use vstd::prelude::*;

verus! {

/// Largest magnitude a sample may carry: a thousand times full scale,
/// far beyond any real signal, but enough headroom that sums of squares
/// stay well inside the machine integers.
pub const SAMPLE_MAGNITUDE_LIMIT: i32 = 1_000_000;

pub open spec fn sample_in_range(s: i32) -> bool {
    -(SAMPLE_MAGNITUDE_LIMIT as int) <= s <= SAMPLE_MAGNITUDE_LIMIT as int
}

pub open spec fn all_samples_in_range(s: Seq<i32>) -> bool {
    forall|i: int| 0 <= i < s.len() ==> sample_in_range(#[trigger] s[i])
}

/// Sum of the squared samples of a chunk.
pub open spec fn sum_squares(s: Seq<i32>) -> int
    decreases s.len(),
{
    if s.len() == 0 {
        0
    } else {
        sum_squares(s.drop_last()) + (s.last() as int) * (s.last() as int)
    }
}

/// The integer square root: the largest `r` with `r * r <= n`.
pub open spec fn spec_isqrt(n: int) -> int
    decreases n,
{
    if n <= 0 {
        0
    } else {
        let r = spec_isqrt(n - 1);
        if (r + 1) * (r + 1) <= n {
            r + 1
        } else {
            r
        }
    }
}

/// The root-mean-square level of a chunk; an empty chunk has level zero.
pub open spec fn spec_level(s: Seq<i32>) -> int {
    if s.len() == 0 {
        0
    } else {
        spec_isqrt(sum_squares(s) / (s.len() as int))
    }
}

/// The hysteresis rule: a speaker already talking stays classified as
/// speech down to the lower threshold; a silent line needs the higher
/// threshold to open.
pub open spec fn spec_classify(
    threshold_start: int,
    threshold_stop: int,
    level: int,
    is_speaking: bool,
) -> bool {
    if is_speaking {
        level >= threshold_stop
    } else {
        level >= threshold_start
    }
}

pub proof fn lemma_sum_squares_nonneg(s: Seq<i32>)
    ensures
        sum_squares(s) >= 0,
    decreases s.len(),
{
    if s.len() > 0 {
        lemma_sum_squares_nonneg(s.drop_last());
        assert((s.last() as int) * (s.last() as int) >= 0) by (nonlinear_arith);
    }
}

proof fn lemma_isqrt_bounds(n: int)
    requires
        n >= 0,
    ensures
        spec_isqrt(n) >= 0,
        spec_isqrt(n) * spec_isqrt(n) <= n,
        n < (spec_isqrt(n) + 1) * (spec_isqrt(n) + 1),
    decreases n,
{
    if n > 0 {
        lemma_isqrt_bounds(n - 1);
        let r = spec_isqrt(n - 1);
        if (r + 1) * (r + 1) <= n {
            assert(n < (r + 2) * (r + 2)) by (nonlinear_arith)
                requires
                    r >= 0,
                    n <= (r + 1) * (r + 1) || n - 1 < (r + 1) * (r + 1),
                    n - 1 < (r + 1) * (r + 1),
            ;
        }
    }
}

proof fn lemma_isqrt_unique(n: int, r: int)
    requires
        n >= 0,
        r >= 0,
        r * r <= n,
        n < (r + 1) * (r + 1),
    ensures
        r == spec_isqrt(n),
{
    lemma_isqrt_bounds(n);
    let q = spec_isqrt(n);
    if r < q {
        assert((r + 1) * (r + 1) <= q * q) by (nonlinear_arith)
            requires
                0 <= r + 1 <= q,
        ;
    }
    if q < r {
        assert((q + 1) * (q + 1) <= r * r) by (nonlinear_arith)
            requires
                0 <= q + 1 <= r,
        ;
    }
}

/// Integer square root of a mean-square value, by bisection.
fn isqrt_u64(n: u64) -> (r: u32)
    requires
        n <= 1_000_000_000_000,
    ensures
        r as int == spec_isqrt(n as int),
        r <= 1_000_000,
{
    let mut lo: u64 = 0;
    let mut hi: u64 = 1_000_001;
    while hi - lo > 1
        invariant
            lo < hi <= 1_000_001,
            n <= 1_000_000_000_000,
            (lo as int) * (lo as int) <= n as int,
            (n as int) < (hi as int) * (hi as int),
        decreases hi - lo,
    {
        let mid = lo + (hi - lo) / 2;
        proof {
            assert((mid as int) * (mid as int) <= 1_000_001 * 1_000_001) by (nonlinear_arith)
                requires
                    0 <= mid as int <= 1_000_001,
            ;
        }
        if mid * mid <= n {
            lo = mid;
        } else {
            hi = mid;
        }
    }
    proof {
        lemma_isqrt_unique(n as int, lo as int);
    }
    lo as u32
}

/// Classifies audio levels against a pair of thresholds, the lower one in
/// force while speech is already open (hysteresis).
pub struct VoiceActivityDetector {
    pub threshold_start: u32,
    pub threshold_stop: u32,
}

#[derive(Debug, Clone, Copy, PartialEq, Eq, Structural)]
pub struct VADResult {
    pub is_speech: bool,
    pub probability: u32,
}

impl VoiceActivityDetector {
    pub fn new(threshold_start: u32, threshold_stop: u32) -> (r: Self)
        ensures
            r.threshold_start == threshold_start,
            r.threshold_stop == threshold_stop,
    {
        Self { threshold_start, threshold_stop }
    }

    /// Classifies a level, applying the lower threshold while speech is open.
    pub fn detect(&self, audio_level: u32, is_speaking: bool) -> (r: VADResult)
        ensures
            r.is_speech == spec_classify(
                self.threshold_start as int,
                self.threshold_stop as int,
                audio_level as int,
                is_speaking,
            ),
            r.probability == audio_level,
    {
        let is_speech = if is_speaking {
            audio_level >= self.threshold_stop
        } else {
            audio_level >= self.threshold_start
        };
        VADResult { is_speech, probability: audio_level }
    }

    /// The root-mean-square of the chunk; the empty chunk yields zero.
    pub fn calculate_audio_level(&self, samples: &[i32]) -> (level: u32)
        requires
            all_samples_in_range(samples@),
        ensures
            level as int == spec_level(samples@),
            level <= 1_000_000,
    {
        if samples.len() == 0 {
            return 0;
        }
        let n = samples.len();
        let mut sum: u128 = 0;
        let mut i: usize = 0;
        proof {
            assert(samples@.subrange(0, 0).len() == 0);
        }
        while i < n
            invariant
                i <= n,
                n == samples@.len(),
                all_samples_in_range(samples@),
                sum as int == sum_squares(samples@.subrange(0, i as int)),
                sum as int <= (i as int) * 1_000_000_000_000,
            decreases n - i,
        {
            let s = samples[i];
            proof {
                let prefix = samples@.subrange(0, i as int);
                let next = samples@.subrange(0, i as int + 1);
                assert(next.drop_last() =~= prefix);
                assert(sample_in_range(samples@[i as int]));
                assert(0 <= (s as int) * (s as int) <= 1_000_000_000_000) by (nonlinear_arith)
                    requires
                        -1_000_000 <= s as int <= 1_000_000,
                ;
                lemma_mul_inequality(i as int + 1, n as int, 1_000_000_000_000);
                assert((n as int) * 1_000_000_000_000 < u128::MAX as int) by {
                    lemma_mul_inequality(n as int, 0x1_0000_0000_0000_0000, 1_000_000_000_000);
                }
            }
            let sq: u64 = (s as i64 * s as i64) as u64;
            sum = sum + sq as u128;
            i = i + 1;
        }
        proof {
            assert(samples@.subrange(0, n as int) =~= samples@);
            lemma_sum_squares_nonneg(samples@);
            lemma_div_is_ordered(
                sum as int,
                (n as int) * 1_000_000_000_000,
                n as int,
            );
            lemma_div_multiples_vanish(1_000_000_000_000, n as int);
            assert((n as int) * 1_000_000_000_000 == 1_000_000_000_000 * (n as int));
        }
        let mean: u64 = (sum / n as u128) as u64;
        isqrt_u64(mean)
    }
}

/// The hysteresis law: a level that sits between the two thresholds keeps
/// an open speech segment open, and does not open a closed one.
pub proof fn lemma_hysteresis(threshold_start: int, threshold_stop: int, level: int)
    requires
        threshold_stop <= level < threshold_start,
    ensures
        spec_classify(threshold_start, threshold_stop, level, true),
        !spec_classify(threshold_start, threshold_stop, level, false),
{
}

proof fn lemma_sum_squares_congruent(s: Seq<i32>, t: Seq<i32>)
    requires
        s.len() == t.len(),
        forall|i: int|
            0 <= i < s.len() ==> (#[trigger] s[i] as int) * (s[i] as int) == (t[i] as int) * (
            #[trigger] t[i] as int),
    ensures
        sum_squares(s) == sum_squares(t),
    decreases s.len(),
{
    if s.len() > 0 {
        lemma_sum_squares_congruent(s.drop_last(), t.drop_last());
    }
}

/// The level depends only on sample magnitudes: the empty chunk has level
/// zero, and flipping the sign of any subset of samples leaves the level
/// unchanged.
pub proof fn lemma_level_magnitude_only(s: Seq<i32>, t: Seq<i32>)
    requires
        s.len() == t.len(),
        forall|i: int|
            0 <= i < s.len() ==> (#[trigger] s[i] as int) * (s[i] as int) == (t[i] as int) * (
            #[trigger] t[i] as int),
    ensures
        spec_level(s) == spec_level(t),
        spec_level(Seq::<i32>::empty()) == 0,
{
    lemma_sum_squares_congruent(s, t);
}

} // verus!
