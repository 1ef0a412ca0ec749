//! Similarity scores and vector components as IEEE-754 single-precision bit patterns.
//!
//! A vector component and a score are both carried as the `u32` bit pattern of a
//! single-precision number. For patterns without the sign bit and without a NaN
//! payload, the order of the patterns as unsigned integers is the order of the
//! numbers they encode, so ranking and thresholds work on the patterns directly.

use vstd::prelude::*;

verus! {

/// Bit pattern of `+0.0`.
pub const ZERO_BITS: u32 = 0u32;

/// Bit pattern of `1.0`.
pub const ONE_BITS: u32 = 0x3F80_0000u32;

/// Bit pattern of `2.0`.
pub const TWO_BITS: u32 = 0x4000_0000u32;

/// Bit pattern of `3.0`.
pub const THREE_BITS: u32 = 0x4040_0000u32;

/// Bit pattern of positive infinity; every larger pattern below the sign bit is a NaN.
pub const INFINITY_BITS: u32 = 0x7F80_0000u32;

/// The sign bit.
pub const SIGN_BIT: u32 = 0x8000_0000u32;

/// The pattern has its sign bit set: a negative number, `-0.0`, or a NaN with a sign.
pub open spec fn is_sign_negative(bits: u32) -> bool {
    bits >= SIGN_BIT
}

/// The pattern with the sign bit cleared.
pub open spec fn magnitude(bits: u32) -> u32 {
    if bits >= SIGN_BIT {
        (bits - SIGN_BIT) as u32
    } else {
        bits
    }
}

/// The pattern encodes a NaN.
pub open spec fn is_nan(bits: u32) -> bool {
    magnitude(bits) > INFINITY_BITS
}

/// The pattern encodes a number in `[0.0, 1.0]`.
pub open spec fn is_unit(bits: u32) -> bool {
    bits <= ONE_BITS
}

/// What a raw cosine becomes as a score: NaN and everything with a sign bit become
/// `0.0`, everything above `1.0` becomes `1.0`, and the rest is kept.
pub open spec fn clamp_unit_spec(raw: u32) -> u32 {
    if is_sign_negative(raw) || is_nan(raw) {
        ZERO_BITS
    } else if raw > ONE_BITS {
        ONE_BITS
    } else {
        raw
    }
}

/// Clamps a raw cosine to the unit interval.
pub fn clamp_unit(raw: u32) -> (score: u32)
    ensures
        score == clamp_unit_spec(raw),
        is_unit(score),
{
    if raw >= SIGN_BIT || raw > INFINITY_BITS {
        ZERO_BITS
    } else if raw > ONE_BITS {
        ONE_BITS
    } else {
        raw
    }
}

/// A score in the unit interval lies strictly below the threshold `min_score`.
///
/// A threshold that is NaN or carries a sign bit has no score below it.
pub open spec fn below_threshold(score: u32, min_score: u32) -> bool {
    !is_sign_negative(min_score) && !is_nan(min_score) && score < min_score
}

/// A score passes the optional inclusive lower bound.
pub open spec fn meets_min_score(score: u32, min_score: Option<u32>) -> bool {
    match min_score {
        Some(m) => !below_threshold(score, m),
        None => true,
    }
}

/// A score that passes a bound that is an ordinary number, zero or more, is at
/// least that bound.
pub proof fn lemma_min_score_bound(score: u32, min_score: u32)
    requires
        meets_min_score(score, Some(min_score)),
        !is_sign_negative(min_score),
        !is_nan(min_score),
    ensures
        score >= min_score,
{
}

/// A bound that is a NaN or carries a sign bit keeps every score.
pub proof fn lemma_min_score_without_effect(score: u32, min_score: u32)
    requires
        is_sign_negative(min_score) || is_nan(min_score),
    ensures
        meets_min_score(score, Some(min_score)),
{
}

/// Decides whether a score passes the optional inclusive lower bound.
pub fn passes_min_score(score: u32, min_score: &Option<u32>) -> (r: bool)
    ensures
        r == meets_min_score(score, *min_score),
{
    match min_score {
        Some(m) => *m >= SIGN_BIT || *m > INFINITY_BITS || score >= *m,
        None => true,
    }
}

/// A kernel can be called on every pair of vectors of equal length.
pub open spec fn kernel_total<K: Fn(&[u32], &[u32]) -> u32>(kernel: &K) -> bool {
    forall|a: &[u32], b: &[u32]| a@.len() == b@.len() ==> call_requires(*kernel, (a, b))
}

/// `score` is a value that scoring `a` against `b` with `kernel` can give.
pub open spec fn is_score_of<K: Fn(&[u32], &[u32]) -> u32>(
    kernel: &K,
    a: &[u32],
    b: &[u32],
    score: u32,
) -> bool {
    if a@.len() != b@.len() {
        score == ZERO_BITS
    } else {
        exists|raw: u32| #[trigger] call_ensures(*kernel, (a, b), raw) && score == clamp_unit_spec(raw)
    }
}

/// Scores `a` against `b`. The kernel computes the raw cosine of two vectors of equal
/// length; vectors of unequal length are never handed to it and score `0.0`.
pub fn similarity<K: Fn(&[u32], &[u32]) -> u32>(kernel: &K, a: &[u32], b: &[u32]) -> (score: u32)
    requires
        kernel_total(kernel),
    ensures
        is_score_of(kernel, a, b, score),
        is_unit(score),
        a@.len() != b@.len() ==> score == ZERO_BITS,
{
    if a.len() != b.len() {
        ZERO_BITS
    } else {
        let raw = kernel(a, b);
        clamp_unit(raw)
    }
}

} // verus!
