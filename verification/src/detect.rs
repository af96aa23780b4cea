//! Finding corrections in an edit: the aligned tokens that the user changed
//! in the way of a typo.

use crate::align::{align_words, alignment, paired_positions, step_at, AlignStep};
use crate::chars::{byte_len, eq_ignore_ascii_case, same_ignoring_ascii_case};
use crate::similarity::{jaro_winkler_bits, similarity, CORRECTION_THRESHOLD};
use crate::tokens::{tokenize, tokens};
use vstd::prelude::*;

verus! {

/// The most by which the lengths in bytes of a token and of its correction
/// may differ.
pub const MAX_LENGTH_DIFF: usize = 1;

/// A correction that was found in an edit.
#[derive(Clone, Debug)]
pub struct LearnedCorrection {
    /// The token of the original text.
    pub original: String,
    /// The token that the user put in its place.
    pub corrected: String,
    /// The similarity of the two, as the bit pattern of a score.
    pub similarity: u64,
}

/// What a [`LearnedCorrection`] holds.
pub struct LearnedView {
    pub original: Seq<char>,
    pub corrected: Seq<char>,
    pub similarity: u64,
}

impl View for LearnedCorrection {
    type V = LearnedView;

    open spec fn view(&self) -> LearnedView {
        LearnedView {
            original: self.original@,
            corrected: self.corrected@,
            similarity: self.similarity,
        }
    }
}

impl DeepView for LearnedCorrection {
    type V = LearnedView;

    open spec fn deep_view(&self) -> LearnedView {
        self@
    }
}

/// Whether a changed token with this score and these lengths in bytes counts
/// as a typo: the score reaches [`CORRECTION_THRESHOLD`], and the lengths
/// differ by [`MAX_LENGTH_DIFF`] at most.
pub open spec fn is_typo(score: u64, original_len: nat, corrected_len: nat) -> bool {
    &&& score >= CORRECTION_THRESHOLD
    &&& original_len <= corrected_len + MAX_LENGTH_DIFF
    &&& corrected_len <= original_len + MAX_LENGTH_DIFF
}

/// Decides [`is_typo`].
pub fn accepts(score: u64, original_len: usize, corrected_len: usize) -> (accepted: bool)
    ensures
        accepted == is_typo(score, original_len as nat, corrected_len as nat),
{
    let diff = if original_len >= corrected_len {
        original_len - corrected_len
    } else {
        corrected_len - original_len
    };
    score >= CORRECTION_THRESHOLD && diff <= MAX_LENGTH_DIFF
}

/// Whether an aligned pair is learned: the tokens differ by more than the
/// case of ASCII letters, and the change counts as a typo.
pub open spec fn is_learnable(original: Seq<char>, corrected: Seq<char>) -> bool {
    &&& !eq_ignore_ascii_case(original, corrected)
    &&& is_typo(jaro_winkler_bits(original, corrected), byte_len(original), byte_len(corrected))
}

/// The corrections among aligned pairs, in the order of the pairs.
pub open spec fn learned_from(pairs: Seq<(Seq<char>, Seq<char>)>) -> Seq<LearnedView>
    decreases pairs.len(),
{
    if pairs.len() == 0 {
        Seq::empty()
    } else {
        let before = learned_from(pairs.drop_last());
        let (original, corrected) = pairs.last();
        if is_learnable(original, corrected) {
            before.push(
                LearnedView {
                    original,
                    corrected,
                    similarity: jaro_winkler_bits(original, corrected),
                },
            )
        } else {
            before
        }
    }
}

/// The corrections that an edit shows: those among the aligned tokens of
/// the two texts.
pub open spec fn detected(original: Seq<char>, edited: Seq<char>) -> Seq<LearnedView> {
    learned_from(alignment(tokens(original), tokens(edited)))
}

/// Every correction that is learned from aligned pairs is one of the pairs,
/// in their order; its tokens differ by more than the case of ASCII letters,
/// its score is that of its tokens and reaches [`CORRECTION_THRESHOLD`], and
/// the lengths of its tokens in bytes differ by [`MAX_LENGTH_DIFF`] at most.
pub proof fn lemma_learned_are_typos(pairs: Seq<(Seq<char>, Seq<char>)>)
    ensures
        learned_from(pairs).len() <= pairs.len(),
        forall|k: int|
            0 <= k < learned_from(pairs).len() ==> {
                let learned = #[trigger] learned_from(pairs)[k];
                &&& pairs.contains((learned.original, learned.corrected))
                &&& !eq_ignore_ascii_case(learned.original, learned.corrected)
                &&& learned.similarity == jaro_winkler_bits(learned.original, learned.corrected)
                &&& learned.similarity >= CORRECTION_THRESHOLD
                &&& byte_len(learned.original) <= byte_len(learned.corrected) + MAX_LENGTH_DIFF
                &&& byte_len(learned.corrected) <= byte_len(learned.original) + MAX_LENGTH_DIFF
            },
    decreases pairs.len(),
{
    if pairs.len() > 0 {
        let init = pairs.drop_last();
        lemma_learned_are_typos(init);
        let all = learned_from(pairs);
        let before = learned_from(init);
        assert forall|k: int| 0 <= k < all.len() implies {
            let learned = #[trigger] all[k];
            &&& pairs.contains((learned.original, learned.corrected))
            &&& !eq_ignore_ascii_case(learned.original, learned.corrected)
            &&& learned.similarity == jaro_winkler_bits(learned.original, learned.corrected)
            &&& learned.similarity >= CORRECTION_THRESHOLD
            &&& byte_len(learned.original) <= byte_len(learned.corrected) + MAX_LENGTH_DIFF
            &&& byte_len(learned.corrected) <= byte_len(learned.original) + MAX_LENGTH_DIFF
        } by {
            if k < before.len() {
                let learned = before[k];
                assert(all[k] == learned);
                let at = choose|at: int|
                    0 <= at < init.len() && init[at] == (learned.original, learned.corrected);
                assert(pairs[at] == init[at]);
            } else {
                assert(pairs[pairs.len() - 1] == pairs.last());
            }
        }
    }
}

/// Pairs of tokens that are equal but for the case of ASCII letters teach
/// nothing.
pub proof fn lemma_equal_pairs_teach_nothing(pairs: Seq<(Seq<char>, Seq<char>)>)
    requires
        forall|k: int|
            0 <= k < pairs.len() ==> eq_ignore_ascii_case((#[trigger] pairs[k]).0, pairs[k].1),
    ensures
        learned_from(pairs) == Seq::<LearnedView>::empty(),
    decreases pairs.len(),
{
    if pairs.len() > 0 {
        let init = pairs.drop_last();
        assert forall|k: int| 0 <= k < init.len() implies eq_ignore_ascii_case(
            (#[trigger] init[k]).0,
            init[k].1,
        ) by {
            assert(init[k] == pairs[k]);
        }
        lemma_equal_pairs_teach_nothing(init);
        assert(pairs.last() == pairs[pairs.len() - 1]);
    }
}

/// A text that was left as it is teaches nothing.
pub proof fn lemma_unchanged_text_teaches_nothing(text: Seq<char>)
    ensures
        detected(text, text) == Seq::<LearnedView>::empty(),
{
    let words = tokens(text);
    lemma_same_words_pair_up(words, 0);
    let pairs = alignment(words, words);
    assert forall|k: int| 0 <= k < pairs.len() implies eq_ignore_ascii_case(
        (#[trigger] pairs[k]).0,
        pairs[k].1,
    ) by {
        assert(pairs[k] == (words[k], words[k]));
    }
    lemma_equal_pairs_teach_nothing(pairs);
}

/// Aligned with itself, a list of words is paired place by place.
proof fn lemma_same_words_pair_up(words: Seq<Seq<char>>, i: int)
    requires
        0 <= i <= words.len(),
    ensures
        paired_positions(words, words, i, i) == Seq::new(
            (words.len() - i) as nat,
            |k: int| (i + k, i + k),
        ),
    decreases words.len() - i,
{
    let here = paired_positions(words, words, i, i);
    let there = Seq::new((words.len() - i) as nat, |k: int| (i + k, i + k));
    if i < words.len() {
        lemma_same_words_pair_up(words, i + 1);
        assert(eq_ignore_ascii_case(words[i], words[i]));
        assert(step_at(words, words, i, i) == AlignStep::Pair);
        assert(here =~= there);
    } else {
        assert(here =~= there);
    }
}

/// The strings as slices.
fn as_strs<'a>(words: &'a Vec<String>) -> (strs: Vec<&'a str>)
    ensures
        strs.deep_view() == words.deep_view(),
{
    let mut strs: Vec<&'a str> = Vec::new();
    for i in 0..words.len()
        invariant
            strs.deep_view() == words.deep_view().take(i as int),
    {
        let ghost before = strs.deep_view();
        strs.push(words[i].as_str());
        assert(strs.deep_view() =~= before.push(words[i as int]@));
        assert(words.deep_view().take(i + 1) =~= before.push(words[i as int]@));
    }
    assert(words.deep_view().take(words.len() as int) =~= words.deep_view());
    strs
}

/// Finds the corrections that an edit shows.
pub fn detect_corrections(original: &str, edited: &str) -> (found: Vec<LearnedCorrection>)
    ensures
        found.deep_view() == detected(original@, edited@),
{
    let original_words = tokenize(original);
    let edited_words = tokenize(edited);
    let original_strs = as_strs(&original_words);
    let edited_strs = as_strs(&edited_words);
    let pairs = align_words(original_strs.as_slice(), edited_strs.as_slice());
    let ghost all = pairs.deep_view();
    let mut found: Vec<LearnedCorrection> = Vec::new();
    assert(found.deep_view() =~= learned_from(all.take(0)));
    for i in 0..pairs.len()
        invariant
            all == pairs.deep_view(),
            found.deep_view() == learned_from(all.take(i as int)),
    {
        let (orig, edit) = pairs[i];
        let ghost upto = all.take(i + 1);
        let ghost before = found.deep_view();
        assert(upto.drop_last() =~= all.take(i as int));
        assert(upto.last() == (orig@, edit@));
        if !same_ignoring_ascii_case(orig, edit) {
            let score = similarity(orig, edit);
            if accepts(score, orig.as_bytes().len(), edit.as_bytes().len()) {
                let learned = LearnedCorrection {
                    original: orig.to_owned(),
                    corrected: edit.to_owned(),
                    similarity: score,
                };
                found.push(learned);
                assert(found.deep_view() =~= before.push(learned@));
            }
        }
    }
    assert(all.take(pairs.len() as int) =~= all);
    found
}

} // verus!
