//! Similarity scores between two tokens.
//!
//! A score is a real number between 0 and 1. It is carried as the IEEE 754
//! binary64 bit pattern of that number: among non-negative doubles the
//! numeric order and the order of the bit patterns read as integers are the
//! same, so scores are compared exactly with integer comparisons.

use vstd::prelude::*;

verus! {

/// Bit pattern of the score 1.0, the largest score.
pub const SCORE_ONE: u64 = 0x3FF0_0000_0000_0000;

/// Bit pattern of 0.5: the least score at which two tokens are taken to fill
/// the same slot during alignment.
pub const ALIGNMENT_THRESHOLD: u64 = 0x3FE0_0000_0000_0000;

/// Bit pattern of 0.7: the least score at which a changed token is accepted
/// as a typo correction.
pub const CORRECTION_THRESHOLD: u64 = 0x3FE6_6666_6666_6666;

/// The Jaro-Winkler similarity of `a` and `b`, as a bit pattern.
pub uninterp spec fn jaro_winkler_bits(a: Seq<char>, b: Seq<char>) -> u64;

/// Calls `strsim::jaro_winkler` and takes the bit pattern of the double that
/// it returns. Trusted, not proved: the score depends on the characters of
/// the two strings alone, and it is a number between 0.0 and 1.0, so that
/// its bit pattern is at most that of 1.0.
#[verifier::external_body]
fn jaro_winkler(a: &str, b: &str) -> (bits: u64)
    ensures
        bits == jaro_winkler_bits(a@, b@),
        bits <= SCORE_ONE,
{
    strsim::jaro_winkler(a, b).to_bits()
}

/// Scores how alike two tokens are.
pub fn similarity(a: &str, b: &str) -> (score: u64)
    ensures
        score == jaro_winkler_bits(a@, b@),
        score <= SCORE_ONE,
{
    jaro_winkler(a, b)
}

} // verus!
