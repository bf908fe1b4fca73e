//! The kinds of rule that the title cascade is made of.
//!
//! Every rule proposes a candidate and keeps it only if it is long enough;
//! otherwise the title stays as it was. Each rule comes as a mathematical
//! function and as the executable function that computes it.

use crate::pattern::{captures, group_at, group_of, regex_captures, regex_replace_all, replace_all};
use crate::text::{
    char_count, chars_of, contains, has_infix, pieces, split, string_of, text_of, trim, trimmed,
};
use vstd::prelude::*;

verus! {

/// The guard on every rule: the candidate if it has more than `min`
/// characters, else the current title.
pub open spec fn kept(current: Seq<char>, candidate: Seq<char>, min: nat) -> Seq<char> {
    if candidate.len() > min {
        candidate
    } else {
        current
    }
}

/// What a deletion rule makes of `current`, given what the deletion returned.
pub open spec fn strip_accepted(current: Seq<char>, outcome: Option<Seq<char>>, min: nat) -> Seq<
    char,
> {
    match outcome {
        Some(out) => kept(current, trimmed(out), min),
        None => current,
    }
}

/// Deletion rule: every match of `pattern` is deleted, the ends are trimmed.
pub open spec fn stripped(current: Seq<char>, pattern: Seq<char>, min: nat) -> Seq<char> {
    strip_accepted(current, regex_replace_all(pattern, current, Seq::empty()), min)
}

/// What an extraction rule makes of `current`, given the group it found.
pub open spec fn extract_accepted(current: Seq<char>, group: Option<Seq<char>>, min: nat) -> Seq<
    char,
> {
    match group {
        Some(g) => kept(current, trimmed(g), min),
        None => current,
    }
}

/// Group `group` of the leftmost match of `pattern` in `text`.
pub open spec fn captured(pattern: Seq<char>, text: Seq<char>, group: int) -> Option<Seq<char>> {
    group_of(regex_captures(pattern, text), group)
}

/// Extraction rule: the title becomes group `group` of the match of `pattern`
/// in `source`, trimmed.
pub open spec fn extracted(
    current: Seq<char>,
    source: Seq<char>,
    pattern: Seq<char>,
    group: int,
    min: nat,
) -> Seq<char> {
    extract_accepted(current, captured(pattern, source, group), min)
}

/// Truncation rule: where `sep` occurs, the title becomes what stands before
/// its first occurrence, trimmed.
pub open spec fn head_kept(current: Seq<char>, sep: Seq<char>, min: nat) -> Seq<char> {
    if has_infix(current, sep) {
        kept(current, trimmed(pieces(current, sep)[0]), min)
    } else {
        current
    }
}

/// Unwrapping rule: a title that begins with `open` and ends with `close`
/// loses both, unless nothing stands between them.
pub open spec fn unwrapped(current: Seq<char>, open: char, close: char) -> Seq<char> {
    if current.len() > 2 && current[0] == open && current.last() == close {
        current.subrange(1, current.len() - 1)
    } else {
        current
    }
}

/// Applies the guard.
pub fn keep_longer(current: String, candidate: String, min: usize) -> (r: String)
    ensures
        r@ == kept(current@, candidate@, min as nat),
{
    if char_count(candidate.as_str()) > min {
        candidate
    } else {
        current
    }
}

/// Judges the outcome of a deletion.
pub fn accept_strip(current: String, outcome: Option<String>, min: usize) -> (r: String)
    ensures
        r@ == strip_accepted(current@, text_of(outcome), min as nat),
{
    match outcome {
        Some(out) => {
            let candidate = trim(out.as_str());
            keep_longer(current, candidate, min)
        },
        None => current,
    }
}

/// Applies a deletion rule.
pub fn strip(current: String, pattern: &str, min: usize) -> (r: String)
    ensures
        r@ == stripped(current@, pattern@, min as nat),
{
    proof {
        reveal_strlit("");
        assert(""@ =~= Seq::<char>::empty());
    }
    let outcome = replace_all(pattern, current.as_str(), "");
    accept_strip(current, outcome, min)
}

/// Judges the group that an extraction found.
pub fn accept_extract(current: String, group: Option<String>, min: usize) -> (r: String)
    ensures
        r@ == extract_accepted(current@, text_of(group), min as nat),
{
    match group {
        Some(g) => {
            let candidate = trim(g.as_str());
            keep_longer(current, candidate, min)
        },
        None => current,
    }
}

/// Group `group` of the leftmost match of `pattern` in `text`.
pub fn capture(pattern: &str, text: &str, group: usize) -> (r: Option<String>)
    ensures
        text_of(r) == captured(pattern@, text@, group as int),
{
    let groups = captures(pattern, text);
    group_at(&groups, group)
}

/// Applies an extraction rule.
pub fn extract(current: String, source: &str, pattern: &str, group: usize, min: usize) -> (r:
    String)
    ensures
        r@ == extracted(current@, source@, pattern@, group as int, min as nat),
{
    let found = capture(pattern, source, group);
    accept_extract(current, found, min)
}

/// Applies a truncation rule.
pub fn keep_head(current: String, sep: &str, min: usize) -> (r: String)
    ensures
        r@ == head_kept(current@, sep@, min as nat),
{
    if contains(current.as_str(), sep) {
        let parts = split(current.as_str(), sep);
        proof {
            crate::text::lemma_pieces_nonempty(current@, sep@);
        }
        let candidate = trim(parts[0].as_str());
        keep_longer(current, candidate, min)
    } else {
        current
    }
}

/// Applies an unwrapping rule.
pub fn unwrap_pair(current: String, open: char, close: char) -> (r: String)
    ensures
        r@ == unwrapped(current@, open, close),
{
    let v = chars_of(current.as_str());
    let n = v.len();
    if n > 2 && v[0] == open && v[n - 1] == close {
        string_of(&v, 1, n - 1)
    } else {
        current
    }
}

/// What a white-space rule makes of `current`: every match of `pattern`
/// becomes one blank, the ends are trimmed.
pub open spec fn respaced(current: Seq<char>, pattern: Seq<char>) -> Seq<char> {
    strip_accepted(current, regex_replace_all(pattern, current, seq![' ']), 0)
}

/// Applies a white-space rule.
pub fn respace(current: String, pattern: &str) -> (r: String)
    ensures
        r@ == respaced(current@, pattern@),
{
    proof {
        reveal_strlit(" ");
        assert(" "@ =~= seq![' ']);
    }
    let outcome = replace_all(pattern, current.as_str(), " ");
    accept_strip(current, outcome, 0)
}

/// Groups `i` and `j` of the leftmost match of `pattern` in `text`.
pub fn capture_pair(pattern: &str, text: &str, i: usize, j: usize) -> (r: (
    Option<String>,
    Option<String>,
))
    ensures
        text_of(r.0) == captured(pattern@, text@, i as int),
        text_of(r.1) == captured(pattern@, text@, j as int),
{
    let groups = captures(pattern, text);
    (group_at(&groups, i), group_at(&groups, j))
}

} // verus!
