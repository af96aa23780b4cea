//! Case matching: giving a replacement the capitalization of the token that
//! it replaces.
//!
//! Two patterns are recognised in the replaced token. In title case the
//! first character is uppercase and every letter behind it is lowercase; in
//! all caps every letter is uppercase. Any other token leaves the replacement
//! as it is stored.

use crate::chars::{
    char_lowercased, char_to_lowercase, char_to_uppercase, char_uppercased, is_letter,
    is_lower, is_upper, uppercased,
};
use vstd::prelude::*;

verus! {

/// Whether the first character is uppercase and every letter behind it is
/// lowercase.
pub open spec fn is_title_case(token: Seq<char>) -> bool {
    &&& token.len() > 0
    &&& is_upper(token[0])
    &&& forall|i: int|
        1 <= i < token.len() ==> !is_letter(#[trigger] token[i]) || is_lower(token[i])
}

/// Whether every letter is uppercase.
pub open spec fn is_all_caps(token: Seq<char>) -> bool {
    forall|i: int|
        0 <= i < token.len() ==> !is_letter(#[trigger] token[i]) || is_upper(token[i])
}

/// The lowercase forms of the characters of `s`, one after the other.
pub open spec fn each_lowercased(s: Seq<char>) -> Seq<char>
    decreases s.len(),
{
    if s.len() == 0 {
        Seq::empty()
    } else {
        each_lowercased(s.drop_last()) + char_lowercased(s.last())
    }
}

/// The uppercase form of the first character, then the lowercase forms of
/// the others.
pub open spec fn title_cased(s: Seq<char>) -> Seq<char>
    recommends
        s.len() > 0,
{
    char_uppercased(s[0]) + each_lowercased(s.skip(1))
}

/// The replacement `corrected` in the case pattern of `original`.
pub open spec fn case_matched(corrected: Seq<char>, original: Seq<char>) -> Seq<char> {
    if original.len() == 0 || corrected.len() == 0 {
        corrected
    } else if is_title_case(original) {
        title_cased(corrected)
    } else if is_all_caps(original) {
        uppercased(corrected)
    } else {
        corrected
    }
}

/// The case pattern of a token.
#[derive(Clone, Copy, Debug, PartialEq, Eq, Structural)]
pub enum CasePattern {
    /// See [`is_title_case`].
    Title,
    /// See [`is_all_caps`]; a token that is also in title case counts as
    /// title case.
    AllCaps,
    /// Neither of the two.
    Other,
}

/// The pattern that follows from what is known of a token: whether it is in
/// title case, and whether it is in all caps.
pub open spec fn pattern_from(title: bool, all_caps: bool) -> CasePattern {
    if title {
        CasePattern::Title
    } else if all_caps {
        CasePattern::AllCaps
    } else {
        CasePattern::Other
    }
}

/// The pattern of a token.
pub open spec fn pattern_of(token: Seq<char>) -> CasePattern {
    pattern_from(is_title_case(token), is_all_caps(token))
}

/// Computes [`pattern_from`].
pub fn choose_pattern(title: bool, all_caps: bool) -> (pattern: CasePattern)
    ensures
        pattern == pattern_from(title, all_caps),
{
    if title {
        CasePattern::Title
    } else if all_caps {
        CasePattern::AllCaps
    } else {
        CasePattern::Other
    }
}

/// Classifies a token in one pass over its characters.
pub fn case_pattern(token: &str) -> (pattern: CasePattern)
    ensures
        pattern == pattern_of(token@),
{
    let mut at_first = true;
    let mut first_upper = false;
    let mut rest_lower = true;
    let mut all_upper = true;
    for c in it: token.chars()
        invariant
            it.seq() == token@,
            at_first == (it.index() == 0),
            first_upper == (it.index() > 0 && is_upper(token@[0])),
            rest_lower == (forall|i: int|
                1 <= i < it.index() ==> !is_letter(#[trigger] token@[i]) || is_lower(
                    token@[i],
                )),
            all_upper == (forall|i: int|
                0 <= i < it.index() ==> !is_letter(#[trigger] token@[i]) || is_upper(
                    token@[i],
                )),
    {
        assert(token@[it.index() as int] == c);
        let letter = c.is_alphabetic();
        if at_first {
            first_upper = c.is_uppercase();
            at_first = false;
        } else if letter && !c.is_lowercase() {
            rest_lower = false;
        }
        if letter && !c.is_uppercase() {
            all_upper = false;
        }
    }
    choose_pattern(first_upper && rest_lower, all_upper)
}

/// Computes [`title_cased`].
fn to_title_case(s: &str) -> (r: String)
    requires
        s@.len() > 0,
    ensures
        r@ == title_cased(s@),
{
    let mut out = String::new();
    let mut at_first = true;
    for c in it: s.chars()
        invariant
            it.seq() == s@,
            at_first == (it.index() == 0),
            it.index() == 0 ==> out@.len() == 0,
            it.index() > 0 ==> out@ == char_uppercased(s@[0]) + each_lowercased(
                s@.subrange(1, it.index() as int),
            ),
    {
        let ghost n = it.index() as int;
        assert(s@[n] == c);
        let ghost before = out@;
        if at_first {
            let upper = char_to_uppercase(c);
            out.append(upper.as_str());
            at_first = false;
            assert(s@.subrange(1, 1) =~= Seq::<char>::empty());
            assert(out@ =~= char_uppercased(s@[0]) + each_lowercased(s@.subrange(1, 1)));
        } else {
            let lower = char_to_lowercase(c);
            out.append(lower.as_str());
            proof {
                let next = s@.subrange(1, n + 1);
                assert(next.drop_last() =~= s@.subrange(1, n));
                assert(next.last() == c);
                assert(out@ =~= char_uppercased(s@[0]) + each_lowercased(next));
            }
        }
    }
    assert(s@.subrange(1, s@.len() as int) =~= s@.skip(1));
    out
}

/// Gives the replacement `corrected` the case pattern of `original`, the
/// token that it replaces.
pub fn match_case(corrected: &str, original: &str) -> (replacement: String)
    ensures
        replacement@ == case_matched(corrected@, original@),
{
    if original.is_empty() || corrected.is_empty() {
        return corrected.to_owned();
    }
    match case_pattern(original) {
        CasePattern::Title => to_title_case(corrected),
        CasePattern::AllCaps => corrected.to_uppercase(),
        CasePattern::Other => corrected.to_owned(),
    }
}

} // verus!
