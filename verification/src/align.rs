//! Word alignment: pairing the tokens of an original text with the tokens of
//! its edited form.
//!
//! The aligner walks both token lists once, from the front, with one cursor in
//! each. At every step it either pairs the two current tokens and moves both
//! cursors, or moves one cursor past a token that it takes to have no
//! partner. It never goes back.

use crate::chars::{eq_ignore_ascii_case, same_ignoring_ascii_case};
use crate::similarity::{jaro_winkler_bits, similarity, ALIGNMENT_THRESHOLD};
use vstd::prelude::*;

verus! {

/// What the aligner does with the two current tokens.
#[derive(Clone, Copy, Debug, PartialEq, Eq, Structural)]
pub enum AlignStep {
    /// Pair them and move both cursors.
    Pair,
    /// Move the cursor in the original only.
    SkipOriginal,
    /// Move the cursor in the edited text only.
    SkipEdited,
}

/// The step for two current tokens, from what is known of them: whether they
/// are equal but for ASCII case, their score, and the scores of the two
/// look-aheads, where there is a next token on that side. `next_original` is
/// the score of the next original token against the current edited one,
/// `next_edited` that of the current original token against the next edited
/// one.
///
/// Tokens that are equal or score at least [`ALIGNMENT_THRESHOLD`] are
/// paired. Otherwise a cursor moves alone where exactly one look-ahead scores
/// higher than the current pair, and the tokens are paired all the same where
/// neither or both do.
pub open spec fn align_step(
    same: bool,
    score: u64,
    next_original: Option<u64>,
    next_edited: Option<u64>,
) -> AlignStep {
    let original_better = next_original is Some && next_original->0 > score;
    let edited_better = next_edited is Some && next_edited->0 > score;
    if same || score >= ALIGNMENT_THRESHOLD {
        AlignStep::Pair
    } else if original_better && !edited_better {
        AlignStep::SkipOriginal
    } else if edited_better && !original_better {
        AlignStep::SkipEdited
    } else {
        AlignStep::Pair
    }
}

/// Computes [`align_step`].
pub fn choose_step(
    same: bool,
    score: u64,
    next_original: Option<u64>,
    next_edited: Option<u64>,
) -> (step: AlignStep)
    ensures
        step == align_step(same, score, next_original, next_edited),
{
    if same || score >= ALIGNMENT_THRESHOLD {
        return AlignStep::Pair;
    }
    let original_better = match next_original {
        Some(s) => s > score,
        None => false,
    };
    let edited_better = match next_edited {
        Some(s) => s > score,
        None => false,
    };
    if original_better && !edited_better {
        AlignStep::SkipOriginal
    } else if edited_better && !original_better {
        AlignStep::SkipEdited
    } else {
        AlignStep::Pair
    }
}

/// The step that the aligner takes with its cursors at `i` and `j`.
pub open spec fn step_at(
    original: Seq<Seq<char>>,
    edited: Seq<Seq<char>>,
    i: int,
    j: int,
) -> AlignStep
    recommends
        0 <= i < original.len(),
        0 <= j < edited.len(),
{
    align_step(
        eq_ignore_ascii_case(original[i], edited[j]),
        jaro_winkler_bits(original[i], edited[j]),
        if i + 1 < original.len() {
            Some(jaro_winkler_bits(original[i + 1], edited[j]))
        } else {
            None
        },
        if j + 1 < edited.len() {
            Some(jaro_winkler_bits(original[i], edited[j + 1]))
        } else {
            None
        },
    )
}

/// The positions that the aligner pairs from cursors `i` and `j` on: each
/// entry holds an index into the original and one into the edited tokens.
pub open spec fn paired_positions(
    original: Seq<Seq<char>>,
    edited: Seq<Seq<char>>,
    i: int,
    j: int,
) -> Seq<(int, int)>
    decreases original.len() - i, edited.len() - j,
{
    if i < 0 || j < 0 || i >= original.len() || j >= edited.len() {
        Seq::empty()
    } else {
        match step_at(original, edited, i, j) {
            AlignStep::Pair => seq![(i, j)] + paired_positions(original, edited, i + 1, j + 1),
            AlignStep::SkipOriginal => paired_positions(original, edited, i + 1, j),
            AlignStep::SkipEdited => paired_positions(original, edited, i, j + 1),
        }
    }
}

/// The tokens at the given positions.
pub open spec fn pairs_at(
    original: Seq<Seq<char>>,
    edited: Seq<Seq<char>>,
    positions: Seq<(int, int)>,
) -> Seq<(Seq<char>, Seq<char>)> {
    Seq::new(positions.len(), |k: int| (original[positions[k].0], edited[positions[k].1]))
}

/// The alignment of two token lists: the pairs of tokens that the aligner
/// makes, in order.
pub open spec fn alignment(original: Seq<Seq<char>>, edited: Seq<Seq<char>>) -> Seq<
    (Seq<char>, Seq<char>),
> {
    pairs_at(original, edited, paired_positions(original, edited, 0, 0))
}

/// The paired positions lie at or behind the cursors, inside both lists, and
/// rise strictly on both sides: no token is paired twice and no pair crosses
/// another.
pub proof fn lemma_positions_rise(
    original: Seq<Seq<char>>,
    edited: Seq<Seq<char>>,
    i: int,
    j: int,
)
    requires
        0 <= i,
        0 <= j,
    ensures
        ({
            let p = paired_positions(original, edited, i, j);
            &&& forall|k: int|
                0 <= k < p.len() ==> i + k <= (#[trigger] p[k]).0 < original.len() && j + k
                    <= p[k].1 < edited.len()
            &&& forall|k: int, l: int|
                0 <= k < l < p.len() ==> (#[trigger] p[k]).0 < (#[trigger] p[l]).0 && p[k].1
                    < p[l].1
        }),
    decreases original.len() - i, edited.len() - j,
{
    let p = paired_positions(original, edited, i, j);
    if i >= original.len() || j >= edited.len() {
        assert(p.len() == 0);
    } else {
        match step_at(original, edited, i, j) {
            AlignStep::Pair => {
                let q = paired_positions(original, edited, i + 1, j + 1);
                lemma_positions_rise(original, edited, i + 1, j + 1);
                assert(p =~= seq![(i, j)] + q);
                assert forall|k: int| 0 <= k < p.len() implies i + k <= (#[trigger] p[k]).0
                    < original.len() && j + k <= p[k].1 < edited.len() by {
                    if k > 0 {
                        assert(p[k] == q[k - 1]);
                    }
                }
                assert forall|k: int, l: int| 0 <= k < l < p.len() implies (#[trigger] p[k]).0 < (
                #[trigger] p[l]).0 && p[k].1 < p[l].1 by {
                    assert(p[l] == q[l - 1]);
                    if k > 0 {
                        assert(p[k] == q[k - 1]);
                    }
                }
            },
            AlignStep::SkipOriginal => {
                lemma_positions_rise(original, edited, i + 1, j);
                assert(p == paired_positions(original, edited, i + 1, j));
            },
            AlignStep::SkipEdited => {
                lemma_positions_rise(original, edited, i, j + 1);
                assert(p == paired_positions(original, edited, i, j + 1));
            },
        }
    }
}

/// An alignment has at most as many pairs as the shorter list has tokens,
/// and none where a list is empty.
pub proof fn lemma_alignment_len(original: Seq<Seq<char>>, edited: Seq<Seq<char>>)
    ensures
        alignment(original, edited).len() <= original.len(),
        alignment(original, edited).len() <= edited.len(),
{
    lemma_positions_rise(original, edited, 0, 0);
    let p = paired_positions(original, edited, 0, 0);
    if p.len() > 0 {
        let last = p[p.len() - 1];
        assert(p.len() - 1 <= last.0 < original.len());
        assert(p.len() - 1 <= last.1 < edited.len());
    }
}

/// Aligns the words of an original text with those of its edited form.
pub fn align_words<'a>(original: &[&'a str], edited: &[&'a str]) -> (pairs: Vec<
    (&'a str, &'a str),
>)
    ensures
        pairs.deep_view() == alignment(original.deep_view(), edited.deep_view()),
        pairs.len() <= original.len(),
        pairs.len() <= edited.len(),
{
    let ghost o = original.deep_view();
    let ghost e = edited.deep_view();
    let mut pairs: Vec<(&'a str, &'a str)> = Vec::new();
    let ghost mut done: Seq<(int, int)> = Seq::empty();
    let mut i: usize = 0;
    let mut j: usize = 0;
    proof {
        lemma_alignment_len(o, e);
        assert(done + paired_positions(o, e, 0, 0) =~= paired_positions(o, e, 0, 0));
    }
    while i < original.len() && j < edited.len()
        invariant
            o == original.deep_view(),
            e == edited.deep_view(),
            i <= original.len(),
            j <= edited.len(),
            done + paired_positions(o, e, i as int, j as int) == paired_positions(o, e, 0, 0),
            pairs.deep_view() == pairs_at(o, e, done),
        decreases original.len() - i + edited.len() - j,
    {
        let orig = original[i];
        let edit = edited[j];
        assert(o[i as int] == orig@);
        assert(e[j as int] == edit@);
        let step = if same_ignoring_ascii_case(orig, edit) {
            AlignStep::Pair
        } else {
            let score = similarity(orig, edit);
            if score >= ALIGNMENT_THRESHOLD {
                AlignStep::Pair
            } else {
                let next_original = if i + 1 < original.len() {
                    assert(o[i + 1] == original[i + 1]@);
                    Some(similarity(original[i + 1], edit))
                } else {
                    None
                };
                let next_edited = if j + 1 < edited.len() {
                    assert(e[j + 1] == edited[j + 1]@);
                    Some(similarity(orig, edited[j + 1]))
                } else {
                    None
                };
                choose_step(false, score, next_original, next_edited)
            }
        };
        assert(step == step_at(o, e, i as int, j as int));
        let ghost rest = paired_positions(o, e, i as int, j as int);
        match step {
            AlignStep::Pair => {
                let ghost before = pairs.deep_view();
                pairs.push((orig, edit));
                proof {
                    let next = paired_positions(o, e, i + 1, j + 1);
                    assert(rest == seq![(i as int, j as int)] + next);
                    assert(done.push((i as int, j as int)) + next =~= done + rest);
                    assert(pairs@.last().deep_view() == (orig@, edit@));
                    assert(pairs.deep_view() =~= before.push((orig@, edit@)));
                    assert(pairs_at(o, e, done.push((i as int, j as int))) =~= pairs_at(
                        o,
                        e,
                        done,
                    ).push((o[i as int], e[j as int])));
                    done = done.push((i as int, j as int));
                }
                i += 1;
                j += 1;
            },
            AlignStep::SkipOriginal => {
                i += 1;
            },
            AlignStep::SkipEdited => {
                j += 1;
            },
        }
    }
    proof {
        assert(paired_positions(o, e, i as int, j as int) =~= Seq::<(int, int)>::empty());
        assert(done + Seq::<(int, int)>::empty() =~= done);
    }
    pairs
}

} // verus!
