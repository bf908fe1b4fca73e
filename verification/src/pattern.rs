//! Regular-expression matching, done by the `regex` crate.
//!
//! Nothing here is proved about what an expression matches: each result is a
//! named function of the pattern and the text, and the library's rules state
//! what they do with whatever the match turns out to be.

use crate::text::text_of;
use vstd::prelude::*;

verus! {

/// What `regex::Regex::captures` finds for `pattern` in `text`: the groups of
/// the leftmost match, the whole match first, a group that took no part as
/// `None`. It is `None` where there is no match or `pattern` is no valid
/// expression.
pub uninterp spec fn regex_captures(pattern: Seq<char>, text: Seq<char>) -> Option<
    Seq<Option<Seq<char>>>,
>;

/// What `regex::Regex::replace_all` makes of `text` when every match of
/// `pattern` is replaced by `with`; `None` where `pattern` is no valid
/// expression.
pub uninterp spec fn regex_replace_all(
    pattern: Seq<char>,
    text: Seq<char>,
    with: Seq<char>,
) -> Option<Seq<char>>;

/// The characters that `regex::escape` puts a backslash before.
pub open spec fn is_meta(c: char) -> bool {
    c == '\\' || c == '.' || c == '+' || c == '*' || c == '?' || c == '(' || c == ')' || c == '|'
        || c == '[' || c == ']' || c == '{' || c == '}' || c == '^' || c == '$' || c == '#' || c
        == '&' || c == '-' || c == '~'
}

/// `s` with a backslash before each meta character.
pub open spec fn escaped(s: Seq<char>) -> Seq<char>
    decreases s.len(),
{
    if s.len() == 0 {
        Seq::empty()
    } else if is_meta(s.last()) {
        escaped(s.drop_last()).push('\\').push(s.last())
    } else {
        escaped(s.drop_last()).push(s.last())
    }
}

/// The texts of a list of groups.
pub open spec fn group_texts(groups: Seq<Option<String>>) -> Seq<Option<Seq<char>>> {
    Seq::new(
        groups.len(),
        |i: int|
            match groups[i] {
                Some(g) => Some(g@),
                None => None,
            },
    )
}

/// The groups of a match, or of none, as texts.
pub open spec fn matched(groups: Option<Vec<Option<String>>>) -> Option<Seq<Option<Seq<char>>>> {
    match groups {
        Some(g) => Some(group_texts(g@)),
        None => None,
    }
}

/// Compiles `pattern` with `regex::Regex::new` and asks `Regex::captures` for
/// the leftmost match in `text`. Believed: the result is [`regex_captures`] of
/// the two texts, each group copied out as a string.
#[verifier::external_body]
pub(crate) fn captures(pattern: &str, text: &str) -> (r: Option<Vec<Option<String>>>)
    ensures
        matched(r) == regex_captures(pattern@, text@),
{
    match regex::Regex::new(pattern) {
        Ok(re) => match re.captures(text) {
            Some(found) => {
                let mut groups = Vec::new();
                for g in found.iter() {
                    groups.push(match g { Some(m) => Some(m.as_str().to_string()), None => None });
                }
                Some(groups)
            },
            None => None,
        },
        Err(_) => None,
    }
}

/// Compiles `pattern` with `regex::Regex::new` and runs `Regex::replace_all`
/// on `text`. Believed: the result is [`regex_replace_all`] of the three texts.
#[verifier::external_body]
pub(crate) fn replace_all(pattern: &str, text: &str, with: &str) -> (r: Option<String>)
    ensures
        r matches Some(out) ==> regex_replace_all(pattern@, text@, with@) == Some(out@),
        r is None ==> regex_replace_all(pattern@, text@, with@) is None,
{
    match regex::Regex::new(pattern) {
        Ok(re) => Some(re.replace_all(text, with).into_owned()),
        Err(_) => None,
    }
}

/// `regex::escape` copies the text and puts a backslash before each meta
/// character.
pub assume_specification[ regex::escape ](pattern: &str) -> (r: String)
    ensures
        r@ == escaped(pattern@),
;

/// The text of group `i` of a match, if the match has one.
pub open spec fn group_of(groups: Option<Seq<Option<Seq<char>>>>, i: int) -> Option<Seq<char>> {
    match groups {
        Some(g) => if 0 <= i < g.len() {
            g[i]
        } else {
            None
        },
        None => None,
    }
}

/// The text of group `i` of a match, if the match has one.
pub fn group_at(groups: &Option<Vec<Option<String>>>, i: usize) -> (r: Option<String>)
    ensures
        text_of(r) == group_of(matched(*groups), i as int),
{
    match groups {
        Some(g) => {
            if i < g.len() {
                match &g[i] {
                    Some(t) => Some(t.clone()),
                    None => None,
                }
            } else {
                None
            }
        },
        None => None,
    }
}

} // verus!
