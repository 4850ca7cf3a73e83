//! Similarity scores.
//!
//! A score is a single-precision IEEE 754 number. The library holds it as its
//! 32-bit pattern and orders two patterns the way the numbers are ordered, so
//! that no floating-point arithmetic is needed to decide relevance.

use vstd::prelude::*;

verus! {

/// The sign bit of a single-precision pattern.
pub const SIGN_BIT: u32 = 0x8000_0000;

/// The pattern of positive infinity; any larger magnitude is not a number.
pub const INFINITY_BITS: u32 = 0x7F80_0000;

/// The pattern of 0.75, the usual relevance threshold.
pub const DEFAULT_THRESHOLD_BITS: u32 = 0x3F40_0000;

/// The pattern without its sign bit.
pub open spec fn magnitude(bits: u32) -> int {
    if bits < SIGN_BIT {
        bits as int
    } else {
        bits - SIGN_BIT
    }
}

/// Whether the pattern is not a number.
pub open spec fn is_nan_spec(bits: u32) -> bool {
    magnitude(bits) > INFINITY_BITS
}

/// An integer that orders patterns as their numbers are ordered: the
/// magnitude for a cleared sign bit, its negation for a set one. Both zeros
/// get the rank 0.
pub open spec fn rank(bits: u32) -> int {
    if bits < SIGN_BIT {
        magnitude(bits)
    } else {
        -magnitude(bits)
    }
}

/// `score > threshold` on the numbers that the two patterns stand for: false
/// whenever either is not a number.
pub open spec fn exceeds_spec(score_bits: u32, threshold_bits: u32) -> bool {
    &&& !is_nan_spec(score_bits)
    &&& !is_nan_spec(threshold_bits)
    &&& rank(score_bits) > rank(threshold_bits)
}

fn magnitude_of(bits: u32) -> (m: u32)
    ensures
        m == magnitude(bits),
{
    if bits < SIGN_BIT {
        bits
    } else {
        bits - SIGN_BIT
    }
}

fn rank_of(bits: u32) -> (r: i64)
    ensures
        r == rank(bits),
{
    let m: i64 = magnitude_of(bits) as i64;
    if bits < SIGN_BIT {
        m
    } else {
        -m
    }
}

/// Whether the score strictly exceeds the threshold.
pub fn score_exceeds(score_bits: u32, threshold_bits: u32) -> (r: bool)
    ensures
        r == exceeds_spec(score_bits, threshold_bits),
{
    if magnitude_of(score_bits) > INFINITY_BITS || magnitude_of(threshold_bits) > INFINITY_BITS {
        false
    } else {
        rank_of(score_bits) > rank_of(threshold_bits)
    }
}

/// No score exceeds itself: a threshold is exclusive.
pub proof fn lemma_threshold_is_exclusive(bits: u32)
    ensures
        !exceeds_spec(bits, bits),
{
}

/// Exceeding is transitive, so a score above a passing score passes too.
pub proof fn lemma_exceeds_transitive(a: u32, b: u32, c: u32)
    requires
        exceeds_spec(a, b),
        exceeds_spec(b, c),
    ensures
        exceeds_spec(a, c),
{
}

} // verus!
