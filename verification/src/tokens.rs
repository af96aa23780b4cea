//! Splitting text into whitespace-delimited tokens, and joining tokens back
//! into text with single spaces.

use crate::chars::{char_is_whitespace, is_whitespace};
use vstd::prelude::*;

verus! {

/// Whether no character of `s` is white space.
pub open spec fn is_solid(s: Seq<char>) -> bool {
    forall|k: int| 0 <= k < s.len() ==> !is_whitespace(#[trigger] s[k])
}

/// The number of characters of `s` before its first white space.
pub open spec fn word_len(s: Seq<char>) -> nat
    decreases s.len(),
{
    if s.len() == 0 || is_whitespace(s[0]) {
        0
    } else {
        1 + word_len(s.drop_first())
    }
}

/// The tokens of `s`: its maximal runs of characters that are not white
/// space, in order.
pub open spec fn tokens(s: Seq<char>) -> Seq<Seq<char>>
    decreases s.len(),
    via tokens_decreases
{
    if s.len() == 0 {
        Seq::empty()
    } else if is_whitespace(s[0]) {
        tokens(s.drop_first())
    } else {
        seq![s.take(word_len(s) as int)] + tokens(s.skip(word_len(s) as int))
    }
}

#[via_fn]
proof fn tokens_decreases(s: Seq<char>) {
    lemma_word_len_bounds(s);
}

/// The tokens, with one space between neighbours and nothing around them.
pub open spec fn join(tokens: Seq<Seq<char>>) -> Seq<char>
    decreases tokens.len(),
{
    if tokens.len() == 0 {
        Seq::empty()
    } else if tokens.len() == 1 {
        tokens[0]
    } else {
        join(tokens.drop_last()) + seq![' '] + tokens.last()
    }
}

/// A word is no longer than the text it starts, and is empty only where the
/// text is empty or starts with white space.
pub proof fn lemma_word_len_bounds(s: Seq<char>)
    ensures
        word_len(s) <= s.len(),
        s.len() > 0 && !is_whitespace(s[0]) ==> word_len(s) >= 1,
        is_solid(s.take(word_len(s) as int)),
        word_len(s) < s.len() ==> is_whitespace(s[word_len(s) as int]),
    decreases s.len(),
{
    if s.len() > 0 && !is_whitespace(s[0]) {
        let rest = s.drop_first();
        lemma_word_len_bounds(rest);
        let n = word_len(s) as int;
        assert forall|k: int| 0 <= k < n implies !is_whitespace(#[trigger] s.take(n)[k]) by {
            if k > 0 {
                assert(s.take(n)[k] == rest.take(n - 1)[k - 1]);
            }
        }
        if n < s.len() {
            assert(s[n] == rest[n - 1]);
        }
    }
}

/// A solid run is a whole word of the text it starts, where the text ends
/// behind it or goes on with white space.
proof fn lemma_word_len_of_run(w: Seq<char>, rest: Seq<char>)
    requires
        is_solid(w),
        rest.len() == 0 || is_whitespace(rest[0]),
    ensures
        word_len(w + rest) == w.len(),
    decreases w.len(),
{
    if w.len() == 0 {
        assert(w + rest =~= rest);
    } else {
        let tail = w.drop_first();
        assert((w + rest).drop_first() =~= tail + rest);
        assert((w + rest)[0] == w[0]);
        assert forall|k: int| 0 <= k < tail.len() implies !is_whitespace(#[trigger] tail[k]) by {
            assert(tail[k] == w[k + 1]);
        }
        lemma_word_len_of_run(tail, rest);
    }
}

/// A non-empty solid run at the front of a text is its first token.
pub proof fn lemma_tokens_of_run(w: Seq<char>, rest: Seq<char>)
    requires
        w.len() > 0,
        is_solid(w),
        rest.len() == 0 || is_whitespace(rest[0]),
    ensures
        tokens(w + rest) == seq![w] + tokens(rest),
{
    lemma_word_len_of_run(w, rest);
    let s = w + rest;
    assert(s[0] == w[0]);
    assert(s.take(w.len() as int) =~= w);
    assert(s.skip(w.len() as int) =~= rest);
}

/// A non-empty solid text is its own single token.
pub proof fn lemma_tokens_of_word(w: Seq<char>)
    requires
        w.len() > 0,
        is_solid(w),
    ensures
        tokens(w) == seq![w],
{
    lemma_tokens_of_run(w, Seq::empty());
    assert(w + Seq::<char>::empty() =~= w);
    assert(tokens(Seq::<char>::empty()) =~= Seq::<Seq<char>>::empty());
    assert(seq![w] + Seq::<Seq<char>>::empty() =~= seq![w]);
}

/// Every token is non-empty and holds no white space.
pub proof fn lemma_tokens_are_words(s: Seq<char>)
    ensures
        forall|i: int|
            0 <= i < tokens(s).len() ==> (#[trigger] tokens(s)[i]).len() > 0 && is_solid(
                tokens(s)[i],
            ),
    decreases s.len(),
{
    if s.len() == 0 {
        assert(tokens(s).len() == 0);
    } else if is_whitespace(s[0]) {
        lemma_tokens_are_words(s.drop_first());
        assert(tokens(s) == tokens(s.drop_first()));
    } else {
        lemma_word_len_bounds(s);
        let rest = s.skip(word_len(s) as int);
        lemma_tokens_are_words(rest);
        assert forall|i: int| 0 <= i < tokens(s).len() implies (#[trigger] tokens(s)[i]).len() > 0
            && is_solid(tokens(s)[i]) by {
            if i > 0 {
                assert(tokens(s)[i] == tokens(rest)[i - 1]);
            }
        }
    }
}

/// Tokenizing the text.
pub fn tokenize(text: &str) -> (words: Vec<String>)
    ensures
        words.deep_view() == tokens(text@),
{
    let mut words: Vec<String> = Vec::new();
    let mut word = String::new();
    assert(Seq::<char>::empty() + text@.skip(0) =~= text@);
    assert(words.deep_view() =~= Seq::<Seq<char>>::empty());
    for c in it: text.chars()
        invariant
            it.seq() == text@,
            is_solid(word@),
            tokens(text@) == words.deep_view() + tokens(word@ + text@.skip(it.index() as int)),
    {
        let ghost i = it.index() as int;
        let ghost rest = text@.skip(i);
        let ghost after = text@.skip(i + 1);
        let ghost done = words.deep_view();
        assert(rest[0] == c);
        assert(rest.drop_first() =~= after);
        if char_is_whitespace(c) {
            if word.as_str().is_empty() {
                assert(word@ + rest =~= rest);
                assert(word@ + after =~= after);
            } else {
                let ghost run = word@;
                proof {
                    lemma_tokens_of_run(run, rest);
                }
                words.push(word);
                word = String::new();
                assert(words.deep_view() =~= done + seq![run]);
                assert(word@ + after =~= after);
            }
        } else {
            let ghost before = word@;
            word.push(c);
            assert(word@ + after =~= before + rest);
        }
    }
    assert(word@ + text@.skip(text@.len() as int) =~= word@);
    if !word.as_str().is_empty() {
        proof {
            lemma_tokens_of_word(word@);
        }
        let ghost done = words.deep_view();
        let ghost run = word@;
        words.push(word);
        assert(words.deep_view() =~= done + seq![run]);
    } else {
        assert(tokens(word@) =~= Seq::<Seq<char>>::empty());
        assert(words.deep_view() + Seq::<Seq<char>>::empty() =~= words.deep_view());
    }
    words
}

/// Joining the words with single spaces.
pub fn join_words(words: &Vec<String>) -> (text: String)
    ensures
        text@ == join(words.deep_view()),
{
    let mut text = String::new();
    let ghost all = words.deep_view();
    for i in 0..words.len()
        invariant
            all == words.deep_view(),
            text@ == join(all.take(i as int)),
    {
        let ghost before = text@;
        if i > 0 {
            text.push(' ');
        }
        text.append(words[i].as_str());
        proof {
            let upto = all.take(i + 1);
            assert(upto.drop_last() =~= all.take(i as int));
            assert(upto.last() == words[i as int]@);
            if i > 0 {
                assert(before.push(' ') =~= before + seq![' ']);
            } else {
                assert(before + words[i as int]@ =~= words[i as int]@);
            }
        }
    }
    assert(all.take(words.len() as int) =~= all);
    text
}

/// A space between two texts parts their tokens: those of the first text,
/// then those of the second.
pub proof fn lemma_tokens_around_space(x: Seq<char>, y: Seq<char>)
    ensures
        tokens(x + seq![' '] + y) == tokens(x) + tokens(y),
    decreases x.len(),
{
    let s = x + seq![' '] + y;
    if x.len() == 0 {
        assert(s.drop_first() =~= y);
        assert(tokens(x) + tokens(y) =~= tokens(y));
    } else if is_whitespace(x[0]) {
        assert(s.drop_first() =~= x.drop_first() + seq![' '] + y);
        lemma_tokens_around_space(x.drop_first(), y);
    } else {
        let n = word_len(x) as int;
        lemma_word_len_bounds(x);
        let w = x.take(n);
        let rest = x.skip(n) + seq![' '] + y;
        assert(s =~= w + rest);
        assert(rest[0] == if n < x.len() { x[n] } else { ' ' });
        lemma_tokens_of_run(w, rest);
        lemma_tokens_around_space(x.skip(n), y);
        assert(seq![w] + (tokens(x.skip(n)) + tokens(y)) =~= (seq![w] + tokens(x.skip(n))) + tokens(
            y,
        ));
    }
}

/// Joining words and tokenizing the result gives the words back.
pub proof fn lemma_tokens_of_join(words: Seq<Seq<char>>)
    requires
        forall|i: int|
            0 <= i < words.len() ==> (#[trigger] words[i]).len() > 0 && is_solid(words[i]),
    ensures
        tokens(join(words)) == words,
    decreases words.len(),
{
    if words.len() == 0 {
        assert(tokens(join(words)) =~= words);
    } else if words.len() == 1 {
        lemma_tokens_of_word(words[0]);
        assert(seq![words[0]] =~= words);
    } else {
        let init = words.drop_last();
        lemma_tokens_of_join(init);
        lemma_tokens_around_space(join(init), words.last());
        lemma_tokens_of_word(words.last());
        assert(init + seq![words.last()] =~= words);
    }
}

/// Text that was tokenized and joined is left as it is by doing so again:
/// its tokens are the same, and so is their joining.
pub proof fn lemma_join_is_normal(s: Seq<char>)
    ensures
        tokens(join(tokens(s))) == tokens(s),
        join(tokens(join(tokens(s)))) == join(tokens(s)),
{
    lemma_tokens_are_words(s);
    lemma_tokens_of_join(tokens(s));
}

} // verus!
