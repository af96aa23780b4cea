//! The correction record and its confidence.
//!
//! A confidence is a number between 0 and 1, held in thousandths: 550 stands
//! for 0.55. It is derived from the number of times that a correction was
//! observed, by `n / (n + 2)`: it grows with every observation, by less each
//! time, and stays below 1.

use vstd::prelude::*;

verus! {

/// The confidence 1.0 in the unit in which confidences are held.
pub const CONFIDENCE_SCALE: u32 = 1000;

/// The least confidence at which a correction is applied unless the engine
/// is told otherwise: 0.55, which the third observation reaches.
pub const MIN_AUTO_APPLY_CONFIDENCE: u32 = 550;

/// The confidence after `occurrences` observations.
pub open spec fn confidence_of(occurrences: nat) -> nat {
    CONFIDENCE_SCALE as nat * occurrences / (occurrences + 2)
}

/// Computes [`confidence_of`].
pub fn confidence_for(occurrences: u32) -> (confidence: u32)
    ensures
        confidence == confidence_of(occurrences as nat),
        confidence < CONFIDENCE_SCALE,
{
    proof {
        lemma_confidence_below_one(occurrences as nat);
    }
    let n: u64 = occurrences as u64;
    let scaled: u64 = 1000 * n;
    let c: u64 = scaled / (n + 2);
    c as u32
}

/// A confidence never reaches 1.
pub proof fn lemma_confidence_below_one(n: nat)
    ensures
        confidence_of(n) < CONFIDENCE_SCALE,
{
    assert(1000 * n / (n + 2) < 1000) by (nonlinear_arith);
}

/// A confidence never falls when the count of observations rises.
pub proof fn lemma_confidence_monotone(m: nat, n: nat)
    requires
        m <= n,
    ensures
        confidence_of(m) <= confidence_of(n),
{
    let a = 1000 * m;
    let b = 1000 * n;
    let p = (m + 2) as int;
    let q = (n + 2) as int;
    // a / p <= x where x = b / q, since a < (x + 1) * p
    let x = b as int / q;
    assert(b < (x + 1) * q) by (nonlinear_arith)
        requires
            x == b as int / q,
            q > 0,
    ;
    assert(a * q <= b * p) by (nonlinear_arith)
        requires
            a == 1000 * m,
            b == 1000 * n,
            p == m + 2,
            q == n + 2,
            m <= n,
    ;
    assert(a < (x + 1) * p) by (nonlinear_arith)
        requires
            a * q <= b * p,
            b < (x + 1) * q,
            q > 0,
            p > 0,
            x >= 0,
            a >= 0,
    ;
    assert(a as int / p <= x) by (nonlinear_arith)
        requires
            a < (x + 1) * p,
            p > 0,
    ;
}

/// Two observations stay below the default threshold, and the third
/// reaches it.
pub proof fn lemma_confidence_calibration()
    ensures
        confidence_of(1) == 333,
        confidence_of(2) == 500,
        confidence_of(3) == 600,
        confidence_of(2) < MIN_AUTO_APPLY_CONFIDENCE <= confidence_of(3),
{
    assert(1000 * 1 / 3 == 333nat) by (nonlinear_arith);
    assert(1000 * 2 / 4 == 500nat) by (nonlinear_arith);
    assert(1000 * 3 / 5 == 600nat) by (nonlinear_arith);
}

/// Returns diminish: but for one unit of rounding, an observation adds no
/// more confidence than the one before it did.
pub proof fn lemma_confidence_concave(n: nat)
    ensures
        confidence_of(n + 2) - confidence_of(n + 1) <= confidence_of(n + 1) - confidence_of(n) + 1,
{
    let a = confidence_of(n) as int;
    let b = confidence_of(n + 1) as int;
    let c = confidence_of(n + 2) as int;
    // exact values, times their denominators
    assert(a * (n + 2) <= 1000 * n) by (nonlinear_arith)
        requires
            a == 1000 * n / (n + 2),
    ;
    assert(1000 * (n + 1) < (b + 1) * (n + 3)) by (nonlinear_arith)
        requires
            b == 1000 * (n + 1) / (n + 3),
    ;
    assert(c * (n + 4) <= 1000 * (n + 2)) by (nonlinear_arith)
        requires
            c == 1000 * (n + 2) / (n + 4),
    ;
    assert(a + c <= 2 * b + 1) by (nonlinear_arith)
        requires
            a * (n + 2) <= 1000 * n,
            1000 * (n + 1) < (b + 1) * (n + 3),
            c * (n + 4) <= 1000 * (n + 2),
            n >= 0,
            a >= 0,
            b >= 0,
            c >= 0,
    ;
}

/// Where a correction comes from.
#[derive(Clone, Copy, Debug, PartialEq, Eq, Structural)]
pub enum CorrectionSource {
    /// It was observed when the user edited transcribed text.
    UserEdit,
}

/// One learned correction, as the store keeps it. The pair of `original` and
/// `corrected` identifies the record.
#[derive(Clone, Debug)]
pub struct Correction {
    /// The mistaken token, in lowercase.
    pub original: String,
    /// The token that replaces it, in the case in which it was last seen.
    pub corrected: String,
    /// Where the correction comes from.
    pub source: CorrectionSource,
    /// How often the pair was observed.
    pub occurrences: u32,
    /// The confidence, in thousandths.
    pub confidence: u32,
}

/// What a [`Correction`] holds.
pub struct CorrectionView {
    pub original: Seq<char>,
    pub corrected: Seq<char>,
    pub source: CorrectionSource,
    pub occurrences: nat,
    pub confidence: nat,
}

impl View for Correction {
    type V = CorrectionView;

    open spec fn view(&self) -> CorrectionView {
        CorrectionView {
            original: self.original@,
            corrected: self.corrected@,
            source: self.source,
            occurrences: self.occurrences as nat,
            confidence: self.confidence as nat,
        }
    }
}

impl DeepView for Correction {
    type V = CorrectionView;

    open spec fn deep_view(&self) -> CorrectionView {
        self@
    }
}

impl Correction {
    /// A correction that was observed once.
    pub fn new(original: String, corrected: String, source: CorrectionSource) -> (record: Self)
        ensures
            record@ == (CorrectionView {
                original: original@,
                corrected: corrected@,
                source,
                occurrences: 1,
                confidence: confidence_of(1),
            }),
    {
        Correction { original, corrected, source, occurrences: 1, confidence: confidence_for(1) }
    }

    /// Derives the confidence anew from the count of observations.
    pub fn update_confidence(&mut self)
        ensures
            final(self)@ == (CorrectionView {
                confidence: confidence_of(old(self).occurrences as nat),
                ..old(self)@
            }),
    {
        self.confidence = confidence_for(self.occurrences);
    }

    /// Counts one more observation and derives the confidence anew. The
    /// count stops at the largest number that it can hold.
    pub fn record_occurrence(&mut self)
        ensures
            final(self)@.occurrences == if old(self).occurrences < u32::MAX {
                old(self).occurrences + 1
            } else {
                u32::MAX as int
            },
            final(self)@ == (CorrectionView {
                occurrences: final(self)@.occurrences,
                confidence: confidence_of(final(self)@.occurrences),
                ..old(self)@
            }),
    {
        if self.occurrences < u32::MAX {
            self.occurrences = self.occurrences + 1;
        }
        self.confidence = confidence_for(self.occurrences);
    }

    /// Whether the two records are of the same pair of tokens.
    pub fn same_pair(&self, other: &Correction) -> (same: bool)
        ensures
            same == (self@.original == other@.original && self@.corrected == other@.corrected),
    {
        self.original == other.original && self.corrected == other.corrected
    }
}

} // verus!
