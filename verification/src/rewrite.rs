//! Rewriting text with a cache of corrections: which tokens are replaced, by
//! what, and what is reported of it.

use crate::cache::{eligible, is_empty_cache, Cache};
use crate::case::case_matched;
use crate::chars::lowercased;
use crate::tokens::{join, lemma_join_is_normal, tokens};
use vstd::prelude::*;

verus! {

/// A correction that was made in a text.
#[derive(Clone, Debug)]
pub struct AppliedCorrection {
    /// The token as it stood in the text.
    pub original: String,
    /// The token that took its place.
    pub corrected: String,
    /// The confidence of the correction, in thousandths.
    pub confidence: u32,
    /// The index of the token among the tokens of the text.
    pub position: usize,
}

/// What an [`AppliedCorrection`] holds.
pub struct AppliedView {
    pub original: Seq<char>,
    pub corrected: Seq<char>,
    pub confidence: nat,
    pub position: nat,
}

impl View for AppliedCorrection {
    type V = AppliedView;

    open spec fn view(&self) -> AppliedView {
        AppliedView {
            original: self.original@,
            corrected: self.corrected@,
            confidence: self.confidence as nat,
            position: self.position as nat,
        }
    }
}

impl DeepView for AppliedCorrection {
    type V = AppliedView;

    open spec fn deep_view(&self) -> AppliedView {
        self@
    }
}

/// Whether `token` is rewritten: the cache holds its lowercase form with a
/// confidence of at least `min`.
pub open spec fn is_applied(cache: Cache, min: nat, token: Seq<char>) -> bool {
    eligible(cache, min, lowercased(token)) is Some
}

/// The token that stands in the output for `token`.
pub open spec fn replacement(cache: Cache, min: nat, token: Seq<char>) -> Seq<char> {
    if is_applied(cache, min, token) {
        case_matched(cache[lowercased(token)].corrected, token)
    } else {
        token
    }
}

/// The tokens of the output.
pub open spec fn replaced(cache: Cache, min: nat, words: Seq<Seq<char>>) -> Seq<Seq<char>> {
    Seq::new(words.len(), |i: int| replacement(cache, min, words[i]))
}

/// The corrections that are made in the tokens, in the order of the tokens.
pub open spec fn applied(cache: Cache, min: nat, words: Seq<Seq<char>>) -> Seq<AppliedView>
    decreases words.len(),
{
    if words.len() == 0 {
        Seq::empty()
    } else {
        let before = applied(cache, min, words.drop_last());
        let word = words.last();
        if is_applied(cache, min, word) {
            before.push(
                AppliedView {
                    original: word,
                    corrected: replacement(cache, min, word),
                    confidence: cache[lowercased(word)].confidence,
                    position: (words.len() - 1) as nat,
                },
            )
        } else {
            before
        }
    }
}

/// Whether a text goes through untouched: the cache is empty, or the text
/// has no token.
pub open spec fn passes_untouched(cache: Cache, text: Seq<char>) -> bool {
    is_empty_cache(cache) || tokens(text).len() == 0
}

/// The text after correction.
pub open spec fn corrected_text(cache: Cache, min: nat, text: Seq<char>) -> Seq<char> {
    if passes_untouched(cache, text) {
        text
    } else {
        join(replaced(cache, min, tokens(text)))
    }
}

/// The corrections that are made in a text.
pub open spec fn corrections_in(cache: Cache, min: nat, text: Seq<char>) -> Seq<AppliedView> {
    if passes_untouched(cache, text) {
        Seq::empty()
    } else {
        applied(cache, min, tokens(text))
    }
}

/// With an empty cache every text comes back as it is, and no correction is
/// made.
pub proof fn lemma_empty_cache_changes_nothing(min: nat, text: Seq<char>)
    ensures
        corrected_text(Map::empty(), min, text) == text,
        corrections_in(Map::empty(), min, text) == Seq::<AppliedView>::empty(),
{
}

/// The corrections that are made stand in the order of the tokens. Each of
/// them is made at the position of a token that is rewritten, and tells that
/// token, what stands for it in the output, and the cached confidence; and
/// every token that is rewritten has its correction in the list.
pub proof fn lemma_applied_matches_tokens(cache: Cache, min: nat, words: Seq<Seq<char>>)
    ensures
        applied(cache, min, words).len() <= words.len(),
        forall|k: int|
            0 <= k < applied(cache, min, words).len() ==> {
                let made = #[trigger] applied(cache, min, words)[k];
                &&& made.position < words.len()
                &&& is_applied(cache, min, words[made.position as int])
                &&& made.original == words[made.position as int]
                &&& made.corrected == replaced(cache, min, words)[made.position as int]
                &&& made.confidence == cache[lowercased(made.original)].confidence
            },
        forall|k: int, l: int|
            0 <= k < l < applied(cache, min, words).len() ==> (#[trigger] applied(
                cache,
                min,
                words,
            )[k]).position < (#[trigger] applied(cache, min, words)[l]).position,
        forall|i: int|
            0 <= i < words.len() && is_applied(cache, min, #[trigger] words[i]) ==> exists|k: int|
                0 <= k < applied(cache, min, words).len() && (#[trigger] applied(
                    cache,
                    min,
                    words,
                )[k]).position == i,
    decreases words.len(),
{
    if words.len() > 0 {
        let init = words.drop_last();
        let last = (words.len() - 1) as int;
        let all = applied(cache, min, words);
        let before = applied(cache, min, init);
        lemma_applied_matches_tokens(cache, min, init);
        assert forall|k: int| 0 <= k < all.len() implies {
            let made = #[trigger] all[k];
            &&& made.position < words.len()
            &&& is_applied(cache, min, words[made.position as int])
            &&& made.original == words[made.position as int]
            &&& made.corrected == replaced(cache, min, words)[made.position as int]
            &&& made.confidence == cache[lowercased(made.original)].confidence
        } by {
            if k < before.len() {
                let made = before[k];
                assert(all[k] == made);
                assert(init[made.position as int] == words[made.position as int]);
                assert(replaced(cache, min, init)[made.position as int] == replaced(
                    cache,
                    min,
                    words,
                )[made.position as int]);
            }
        }
        assert forall|k: int, l: int| 0 <= k < l < all.len() implies (#[trigger] all[k]).position
            < (#[trigger] all[l]).position by {
            assert(all[k] == before[k]);
            if l < before.len() {
                assert(all[l] == before[l]);
            }
        }
        assert forall|i: int|
            0 <= i < words.len() && is_applied(cache, min, #[trigger] words[i]) implies exists|
            k: int,
        | 0 <= k < all.len() && (#[trigger] all[k]).position == i by {
            if i < last {
                assert(init[i] == words[i]);
                let k = choose|k: int|
                    0 <= k < before.len() && (#[trigger] before[k]).position == i;
                assert(all[k] == before[k]);
            } else {
                assert(all[all.len() - 1].position == i);
            }
        }
    }
}

/// A token whose lowercase form the cache does not hold stands in the output
/// as it is, and no correction is reported at its position.
pub proof fn lemma_unknown_token_passes(cache: Cache, min: nat, words: Seq<Seq<char>>, i: int)
    requires
        0 <= i < words.len(),
        !cache.contains_key(lowercased(words[i])),
    ensures
        replaced(cache, min, words)[i] == words[i],
        forall|k: int|
            0 <= k < applied(cache, min, words).len() ==> (#[trigger] applied(
                cache,
                min,
                words,
            )[k]).position != i,
{
    lemma_applied_matches_tokens(cache, min, words);
}

/// The threshold in force decides alone whether a cached correction is
/// applied: under a threshold that its confidence reaches the token is
/// replaced, under a higher one the same cache leaves the token as it is.
pub proof fn lemma_threshold_gates(cache: Cache, lower: nat, higher: nat, token: Seq<char>)
    requires
        cache.contains_key(lowercased(token)),
        lower <= cache[lowercased(token)].confidence < higher,
    ensures
        is_applied(cache, lower, token),
        replacement(cache, lower, token) == case_matched(cache[lowercased(token)].corrected, token),
        !is_applied(cache, higher, token),
        replacement(cache, higher, token) == token,
{
}

/// Where no token is rewritten, the output holds the tokens as they are and
/// no correction is reported.
pub proof fn lemma_nothing_applied(cache: Cache, min: nat, words: Seq<Seq<char>>)
    requires
        forall|i: int| 0 <= i < words.len() ==> !is_applied(cache, min, #[trigger] words[i]),
    ensures
        replaced(cache, min, words) == words,
        applied(cache, min, words) == Seq::<AppliedView>::empty(),
    decreases words.len(),
{
    assert(replaced(cache, min, words) =~= words);
    if words.len() > 0 {
        let init = words.drop_last();
        assert forall|i: int| 0 <= i < init.len() implies !is_applied(
            cache,
            min,
            #[trigger] init[i],
        ) by {
            assert(init[i] == words[i]);
        }
        lemma_nothing_applied(cache, min, init);
    }
}

/// With a cache that is not empty, a text that has a token comes back as
/// its tokens joined by single spaces, also where no token is rewritten:
/// then the output is the tokens of the text so joined, it has the same
/// tokens as the text, and correcting it again with the same cache leaves it
/// as it is.
pub proof fn lemma_output_is_single_spaced(cache: Cache, min: nat, text: Seq<char>)
    requires
        !passes_untouched(cache, text),
        forall|i: int|
            0 <= i < tokens(text).len() ==> !is_applied(cache, min, #[trigger] tokens(text)[i]),
    ensures
        corrected_text(cache, min, text) == join(tokens(text)),
        corrections_in(cache, min, text) == Seq::<AppliedView>::empty(),
        tokens(corrected_text(cache, min, text)) == tokens(text),
        corrected_text(cache, min, corrected_text(cache, min, text)) == corrected_text(
            cache,
            min,
            text,
        ),
{
    lemma_nothing_applied(cache, min, tokens(text));
    lemma_join_is_normal(text);
}

} // verus!
