//! The writing mode that a sample of text suggests.

use crate::chars::{char_is_whitespace, is_upper, is_whitespace, lemma_byte_len_covers, lowercased};
use crate::modes::WritingMode;
use crate::tokens::{tokenize, tokens};
use vstd::prelude::*;

verus! {

/// Whether `c` is a full stop, an exclamation mark, a question mark or a
/// comma.
pub open spec fn is_punctuation(c: char) -> bool {
    c == '.' || c == '!' || c == '?' || c == ','
}

/// Whether `c` ends a sentence: a full stop, an exclamation mark or a
/// question mark.
pub open spec fn ends_sentence(c: char) -> bool {
    c == '.' || c == '!' || c == '?'
}

/// Whether a character of `s` is uppercase.
pub open spec fn has_caps(s: Seq<char>) -> bool {
    exists|i: int| 0 <= i < s.len() && is_upper(#[trigger] s[i])
}

/// Whether a character of `s` is punctuation.
pub open spec fn has_punctuation(s: Seq<char>) -> bool {
    exists|i: int| 0 <= i < s.len() && is_punctuation(#[trigger] s[i])
}

/// The number of exclamation marks in `s`.
pub open spec fn exclamations(s: Seq<char>) -> nat
    decreases s.len(),
{
    if s.len() == 0 {
        0
    } else {
        exclamations(s.drop_last()) + if s.last() == '!' {
            1nat
        } else {
            0nat
        }
    }
}

/// Whether `s` holds more than white space behind its last sentence end.
pub open spec fn in_sentence(s: Seq<char>) -> bool
    decreases s.len(),
{
    if s.len() == 0 || ends_sentence(s.last()) {
        false
    } else {
        in_sentence(s.drop_last()) || !is_whitespace(s.last())
    }
}

/// The number of sentences in `s`: of the pieces between sentence ends that
/// hold more than white space.
pub open spec fn sentences(s: Seq<char>) -> nat
    decreases s.len(),
{
    if s.len() == 0 {
        0
    } else {
        sentences(s.drop_last()) + if in_sentence(s) && !in_sentence(s.drop_last()) {
            1nat
        } else {
            0nat
        }
    }
}

/// The words per sentence, rounded down, a text without a sentence counting
/// as one sentence.
pub open spec fn words_per_sentence(words: nat, sentences: nat) -> nat {
    if sentences == 0 {
        words
    } else {
        words / sentences
    }
}

/// The mode that follows from what was counted and found in a text: the
/// number of exclamation marks, whether the text is its own lowercase form,
/// whether it has punctuation, the number of words, whether it has an
/// uppercase character, and the number of sentences.
///
/// Two exclamation marks make it excited. Else a text of at least one word
/// that has no punctuation and is its own lowercase form is very casual.
/// Else a text with an uppercase character, with punctuation and with eight
/// words or more to the sentence is formal. Any other text is casual.
pub open spec fn style_from(
    exclamations: nat,
    all_lower: bool,
    punctuation: bool,
    words: nat,
    caps: bool,
    sentences: nat,
) -> WritingMode {
    if exclamations >= 2 {
        WritingMode::Excited
    } else if all_lower && !punctuation && words > 0 {
        WritingMode::VeryCasual
    } else if caps && punctuation && words_per_sentence(words, sentences) >= 8 {
        WritingMode::Formal
    } else {
        WritingMode::Casual
    }
}

/// The mode that a text suggests.
pub open spec fn style_of(s: Seq<char>) -> WritingMode {
    style_from(
        exclamations(s),
        lowercased(s) == s,
        has_punctuation(s),
        tokens(s).len(),
        has_caps(s),
        sentences(s),
    )
}

/// Computes [`style_from`].
pub fn choose_style(
    exclamations: usize,
    all_lower: bool,
    punctuation: bool,
    words: usize,
    caps: bool,
    sentences: usize,
) -> (mode: WritingMode)
    ensures
        mode == style_from(
            exclamations as nat,
            all_lower,
            punctuation,
            words as nat,
            caps,
            sentences as nat,
        ),
{
    if exclamations >= 2 {
        return WritingMode::Excited;
    }
    if all_lower && !punctuation && words > 0 {
        return WritingMode::VeryCasual;
    }
    let per_sentence = if sentences == 0 {
        words
    } else {
        words / sentences
    };
    if caps && punctuation && per_sentence >= 8 {
        return WritingMode::Formal;
    }
    WritingMode::Casual
}

/// The number of the samples that suggest `mode`.
pub open spec fn votes(samples: Seq<Seq<char>>, mode: WritingMode) -> nat
    decreases samples.len(),
{
    if samples.len() == 0 {
        0
    } else {
        votes(samples.drop_last(), mode) + if style_of(samples.last()) == mode {
            1nat
        } else {
            0nat
        }
    }
}

/// Neither count is larger than the text is long.
proof fn lemma_counts_bounded(s: Seq<char>)
    ensures
        exclamations(s) <= s.len(),
        sentences(s) <= s.len(),
    decreases s.len(),
{
    if s.len() > 0 {
        lemma_counts_bounded(s.drop_last());
    }
}

/// No mode has more votes than there are samples.
proof fn lemma_votes_bounded(samples: Seq<Seq<char>>, mode: WritingMode)
    ensures
        votes(samples, mode) <= samples.len(),
    decreases samples.len(),
{
    if samples.len() > 0 {
        lemma_votes_bounded(samples.drop_last(), mode);
    }
}

/// Suggests a writing mode from the way a user writes.
pub struct StyleAnalyzer;

impl StyleAnalyzer {
    /// The mode that a sample of text suggests.
    pub fn analyze_style(text: &str) -> (mode: WritingMode)
        ensures
            mode == style_of(text@),
    {
        // no counter below gets larger than the text is long
        let size = text.as_bytes().len();
        proof {
            lemma_byte_len_covers(text@);
        }
        let mut caps = false;
        let mut punctuation = false;
        let mut marks: usize = 0;
        let mut count: usize = 0;
        let mut inside = false;
        for c in it: text.chars()
            invariant
                it.seq() == text@,
                text@.len() <= size,
                caps == has_caps(text@.take(it.index() as int)),
                punctuation == has_punctuation(text@.take(it.index() as int)),
                marks == exclamations(text@.take(it.index() as int)),
                count == sentences(text@.take(it.index() as int)),
                inside == in_sentence(text@.take(it.index() as int)),
        {
            let ghost n = it.index() as int;
            let ghost before = text@.take(n);
            let ghost upto = text@.take(n + 1);
            proof {
                assert(text@[n] == c);
                assert(upto.drop_last() =~= before);
                assert(upto.last() == c);
                lemma_counts_bounded(upto);
                if has_caps(before) {
                    let i = choose|i: int| 0 <= i < before.len() && is_upper(#[trigger] before[i]);
                    assert(is_upper(upto[i]));
                }
                if has_caps(upto) && !is_upper(c) {
                    let i = choose|i: int| 0 <= i < upto.len() && is_upper(#[trigger] upto[i]);
                    assert(is_upper(before[i]));
                }
                if has_punctuation(before) {
                    let i = choose|i: int|
                        0 <= i < before.len() && is_punctuation(#[trigger] before[i]);
                    assert(is_punctuation(upto[i]));
                }
                if has_punctuation(upto) && !is_punctuation(c) {
                    let i = choose|i: int|
                        0 <= i < upto.len() && is_punctuation(#[trigger] upto[i]);
                    assert(is_punctuation(before[i]));
                }
                if is_upper(c) {
                    assert(is_upper(upto[n]));
                }
                if is_punctuation(c) {
                    assert(is_punctuation(upto[n]));
                }
            }
            if c.is_uppercase() {
                caps = true;
            }
            if c == '.' || c == '!' || c == '?' || c == ',' {
                punctuation = true;
            }
            if c == '!' {
                marks += 1;
            }
            if c == '.' || c == '!' || c == '?' {
                inside = false;
            } else if !inside && !char_is_whitespace(c) {
                inside = true;
                count += 1;
            }
        }
        assert(text@.take(text@.len() as int) =~= text@);
        let words = tokenize(text).len();
        let all_lower = text.to_lowercase() == text.to_owned();
        choose_style(marks, all_lower, punctuation, words, caps, count)
    }

    /// The mode that most of the samples suggest, and the default mode
    /// where there is no sample. Of several modes with the most samples the
    /// one that [`WritingMode`] lists first is returned.
    pub fn analyze_samples(samples: &[String]) -> (mode: WritingMode)
        ensures
            samples.len() == 0 ==> mode == WritingMode::Casual,
            samples.len() > 0 ==> forall|other: WritingMode|
                votes(samples.deep_view(), other) <= votes(samples.deep_view(), mode) && (
                other.code_of() < mode.code_of() ==> votes(samples.deep_view(), other) < votes(
                    samples.deep_view(),
                    mode,
                )),
    {
        if samples.len() == 0 {
            return WritingMode::default();
        }
        let ghost all = samples.deep_view();
        let mut formal: usize = 0;
        let mut casual: usize = 0;
        let mut very_casual: usize = 0;
        let mut excited: usize = 0;
        for i in 0..samples.len()
            invariant
                all == samples.deep_view(),
                formal == votes(all.take(i as int), WritingMode::Formal),
                casual == votes(all.take(i as int), WritingMode::Casual),
                very_casual == votes(all.take(i as int), WritingMode::VeryCasual),
                excited == votes(all.take(i as int), WritingMode::Excited),
        {
            proof {
                let upto = all.take(i + 1);
                assert(upto.drop_last() =~= all.take(i as int));
                assert(upto.last() == samples[i as int]@);
                lemma_votes_bounded(upto, WritingMode::Formal);
                lemma_votes_bounded(upto, WritingMode::Casual);
                lemma_votes_bounded(upto, WritingMode::VeryCasual);
                lemma_votes_bounded(upto, WritingMode::Excited);
            }
            match Self::analyze_style(samples[i].as_str()) {
                WritingMode::Formal => {
                    formal += 1;
                },
                WritingMode::Casual => {
                    casual += 1;
                },
                WritingMode::VeryCasual => {
                    very_casual += 1;
                },
                WritingMode::Excited => {
                    excited += 1;
                },
            }
        }
        assert(all.take(samples.len() as int) =~= all);
        let mut best = WritingMode::Formal;
        let mut most = formal;
        if casual > most {
            best = WritingMode::Casual;
            most = casual;
        }
        if very_casual > most {
            best = WritingMode::VeryCasual;
            most = very_casual;
        }
        if excited > most {
            best = WritingMode::Excited;
            most = excited;
        }
        best
    }
}

} // verus!
