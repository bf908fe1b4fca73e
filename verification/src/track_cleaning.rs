//! The title normaliser: from a raw media title to the song's title.
//!
//! A title in quotation brackets is taken as it stands. Otherwise the title
//! goes through a fixed cascade: bracket extraction, noise rules, the split of
//! artist and track, residual cleanup. No rule may empty the title: a rule
//! whose candidate is too short leaves the title as it was.

use crate::noise_rules::{lemma_noise_stripped_keeps_text, noise_stripped, strip_noise, NOISE_RULES};
use crate::pattern::{escaped, regex_replace_all, replace_all};
use crate::text::{char_count, contains, has_infix, lowercase, text_of, trim, trimmed};
use crate::title_residue::{clear_residue, lemma_residue_cleared_keeps_text, residue_cleared};
use crate::title_rules::{capture, captured, strip, stripped};
use crate::title_split::{lemma_split_title_keeps_text, split_artist_and_track, split_title};
use vstd::prelude::*;
use vstd::string::StringExecFns;

verus! {

/// A title in CJK quotation marks.
pub const QUOTED: &'static str = r"「([^」]+)」";

/// A title in CJK corner brackets.
pub const CORNERED: &'static str = r"『([^』]+)』";

/// Text between two lenticular bracket pairs.
pub const BRACKET_MIDDLE: &'static str = r"【[^】]*】([^【】]+)【[^】]*】";

/// Text inside one lenticular bracket pair.
pub const BRACKET_CONTENT: &'static str = r"【([^】]+)】";

/// A run of separators and all that follows it.
pub const SEPARATOR_TAIL: &'static str = r"[\-/｜／|:：‐‑‒–—―]+.*$";

/// The title that a pair of quotation brackets encloses: group 1 of
/// `pattern`, trimmed, if it has at least three characters.
pub open spec fn enclosed(raw: Seq<char>, pattern: Seq<char>) -> Option<Seq<char>> {
    match captured(pattern, raw, 1) {
        Some(g) => if trimmed(g).len() > 2 {
            Some(trimmed(g))
        } else {
            None
        },
        None => None,
    }
}

/// The title that quotation marks or, failing those, corner brackets enclose.
pub open spec fn quoted_title(raw: Seq<char>) -> Option<Seq<char>> {
    match enclosed(raw, QUOTED@) {
        Some(t) => Some(t),
        None => enclosed(raw, CORNERED@),
    }
}

/// Bracket content that names a label, not a title.
pub open spec fn is_label(t: Seq<char>) -> bool {
    let l = lowercase(t);
    has_infix(l, "cover"@) || has_infix(l, "mv"@) || has_infix(l, "video"@) || has_infix(
        l,
        "official"@,
    )
}

/// `t` cut at its first run of separators, if more than one character is left.
pub open spec fn separator_cut(t: Seq<char>) -> Seq<char> {
    stripped(t, SEPARATOR_TAIL@, 1)
}

/// The segment between two bracket pairs, cut at its first separator.
pub open spec fn bracket_middle(s: Seq<char>) -> Option<Seq<char>> {
    match captured(BRACKET_MIDDLE@, s, 1) {
        Some(g) => if trimmed(g).len() > 1 {
            Some(separator_cut(trimmed(g)))
        } else {
            None
        },
        None => None,
    }
}

/// The content of one bracket pair, unless it is a label, cut at its first
/// separator.
pub open spec fn bracket_content(s: Seq<char>) -> Option<Seq<char>> {
    match captured(BRACKET_CONTENT@, s, 1) {
        Some(g) => if trimmed(g).len() > 2 && !is_label(trimmed(g)) {
            Some(separator_cut(trimmed(g)))
        } else {
            None
        },
        None => None,
    }
}

/// Bracket extraction: the middle segment, else the bracket content, else the
/// title as it is.
pub open spec fn bracket_title(s: Seq<char>) -> Seq<char> {
    match bracket_middle(s) {
        Some(t) => t,
        None => match bracket_content(s) {
            Some(t) => t,
            None => s,
        },
    }
}

/// Judges the group that a quotation pattern found.
pub fn accept_enclosed(group: Option<String>) -> (r: Option<String>)
    ensures
        text_of(r) == match text_of(group) {
            Some(g) => if trimmed(g).len() > 2 {
                Some(trimmed(g))
            } else {
                None
            },
            None => None,
        },
{
    match group {
        Some(g) => {
            let t = trim(g.as_str());
            if char_count(t.as_str()) > 2 {
                Some(t)
            } else {
                None
            }
        },
        None => None,
    }
}

/// The title that quotation marks or corner brackets enclose.
pub fn find_quoted_title(raw: &str) -> (r: Option<String>)
    ensures
        text_of(r) == quoted_title(raw@),
{
    let quoted = accept_enclosed(capture(QUOTED, raw, 1));
    match quoted {
        Some(t) => Some(t),
        None => accept_enclosed(capture(CORNERED, raw, 1)),
    }
}

/// Whether bracket content names a label.
pub fn names_label(t: &str) -> (r: bool)
    ensures
        r == is_label(t@),
{
    let l = t.to_lowercase();
    contains(l.as_str(), "cover") || contains(l.as_str(), "mv") || contains(l.as_str(), "video")
        || contains(l.as_str(), "official")
}

/// Judges the group that a bracket pattern found: `min` is the length it
/// must exceed, `labels` says whether a label is refused.
pub fn accept_bracket(group: Option<String>, min: usize, labels: bool) -> (r: Option<String>)
    ensures
        text_of(r) == match text_of(group) {
            Some(g) => if trimmed(g).len() > min && !(labels && is_label(trimmed(g))) {
                Some(separator_cut(trimmed(g)))
            } else {
                None
            },
            None => None,
        },
{
    match group {
        Some(g) => {
            let t = trim(g.as_str());
            if char_count(t.as_str()) > min && !(labels && names_label(t.as_str())) {
                Some(strip(t, SEPARATOR_TAIL, 1))
            } else {
                None
            }
        },
        None => None,
    }
}

/// Applies bracket extraction.
pub fn extract_bracket_title(title: String) -> (r: String)
    ensures
        r@ == bracket_title(title@),
{
    let middle = accept_bracket(capture(BRACKET_MIDDLE, title.as_str(), 1), 1, false);
    match middle {
        Some(t) => t,
        None => {
            let content = accept_bracket(capture(BRACKET_CONTENT, title.as_str(), 1), 2, true);
            match content {
                Some(t) => t,
                None => title,
            }
        },
    }
}

/// The cleaned form of a raw title.
///
/// A title that quotation brackets enclose is the answer at once. Any other
/// title goes through bracket extraction, the noise rules, the split of
/// artist and track and the residual cleanup, each working on what the one
/// before left.
pub open spec fn clean_title(raw: Seq<char>) -> Seq<char> {
    match quoted_title(raw) {
        Some(t) => t,
        None => residue_cleared(
            raw,
            split_title(raw, noise_stripped(bracket_title(raw), NOISE_RULES as nat)),
        ),
    }
}

/// A raw title that has text cleans to a title that has text.
pub proof fn lemma_clean_title_keeps_text(raw: Seq<char>)
    requires
        raw.len() > 0,
    ensures
        clean_title(raw).len() > 0,
{
    if quoted_title(raw) is None {
        let extracted = bracket_title(raw);
        lemma_noise_stripped_keeps_text(extracted, NOISE_RULES as nat);
        let stripped = noise_stripped(extracted, NOISE_RULES as nat);
        lemma_split_title_keeps_text(raw, stripped);
        lemma_residue_cleared_keeps_text(raw, split_title(raw, stripped));
    }
}

/// Cleans a raw media title into the song's title.
pub fn clean_track_name(track_name: &str) -> (r: String)
    ensures
        r@ == clean_title(track_name@),
        track_name@.len() > 0 ==> r@.len() > 0,
{
    proof {
        if track_name@.len() > 0 {
            lemma_clean_title_keeps_text(track_name@);
        }
    }
    match find_quoted_title(track_name) {
        Some(t) => t,
        None => {
            let s = extract_bracket_title(String::from_str(track_name));
            let s = strip_noise(s);
            let s = split_artist_and_track(track_name, s);
            clear_residue(track_name, s)
        },
    }
}

/// Pattern `i` of the three that find an artist beside a dash: the artist and
/// a dash at the start, a dash and the artist at the end, and the same with
/// white space after the artist. Case is not regarded.
pub open spec fn artist_rule(artist: Seq<char>, i: int) -> Seq<char> {
    if i == 0 {
        "(?i)^"@ + escaped(artist) + r"\s*[-–—]\s*"@
    } else if i == 1 {
        r"(?i)\s*[-–—]\s*"@ + escaped(artist) + "$"@
    } else {
        r"(?i)\s*[-–—]\s*"@ + escaped(artist) + r"\s*$"@
    }
}

/// What a deletion makes of `current` when it must shorten it and leave text.
pub open spec fn shortened(current: Seq<char>, outcome: Option<Seq<char>>) -> Seq<char> {
    match outcome {
        Some(out) => if 0 < trimmed(out).len() < current.len() {
            trimmed(out)
        } else {
            current
        },
        None => current,
    }
}

/// `current` after artist pattern `i`.
pub open spec fn artist_stripped(current: Seq<char>, artist: Seq<char>, i: int) -> Seq<char> {
    shortened(current, regex_replace_all(artist_rule(artist, i), current, Seq::empty()))
}

/// The track title without the artist's name beside a dash at its start or
/// end; with a blank artist, the title itself.
pub open spec fn without_artist(track: Seq<char>, artist: Seq<char>) -> Seq<char> {
    if trimmed(artist).len() == 0 {
        track
    } else {
        artist_stripped(artist_stripped(artist_stripped(track, artist, 0), artist, 1), artist, 2)
    }
}

/// Pattern `i` for `artist`.
pub fn artist_rule_for(artist: &str, i: usize) -> (r: String)
    ensures
        r@ == artist_rule(artist@, i as int),
{
    let e = regex::escape(artist);
    if i == 0 {
        String::from_str("(?i)^").concat(e.as_str()).concat(r"\s*[-–—]\s*")
    } else if i == 1 {
        String::from_str(r"(?i)\s*[-–—]\s*").concat(e.as_str()).concat("$")
    } else {
        String::from_str(r"(?i)\s*[-–—]\s*").concat(e.as_str()).concat(r"\s*$")
    }
}

/// Judges the outcome of an artist deletion.
pub fn accept_shorter(current: String, outcome: Option<String>) -> (r: String)
    ensures
        r@ == shortened(current@, text_of(outcome)),
{
    match outcome {
        Some(out) => {
            let candidate = trim(out.as_str());
            let n: usize = char_count(candidate.as_str());
            if 0 < n && n < char_count(current.as_str()) {
                candidate
            } else {
                current
            }
        },
        None => current,
    }
}

/// Removes the artist's name from the start or the end of a track title
/// where a dash joins the two. The title never grows and never loses all its text.
pub fn remove_artist_from_track(track_name: &str, artist_name: &str) -> (r: String)
    ensures
        r@ == without_artist(track_name@, artist_name@),
        r@.len() <= track_name@.len(),
        track_name@.len() > 0 ==> r@.len() > 0,
{
    let mut current = String::from_str(track_name);
    if char_count(trim(artist_name).as_str()) == 0 {
        return current;
    }
    proof {
        reveal_strlit("");
    }
    let mut i: usize = 0;
    while i < 3
        invariant
            i <= 3,
            ""@ == Seq::<char>::empty(),
            current@.len() <= track_name@.len(),
            track_name@.len() > 0 ==> current@.len() > 0,
            current@ == if i == 0 {
                track_name@
            } else if i == 1 {
                artist_stripped(track_name@, artist_name@, 0)
            } else if i == 2 {
                artist_stripped(artist_stripped(track_name@, artist_name@, 0), artist_name@, 1)
            } else {
                without_artist(track_name@, artist_name@)
            },
            trimmed(artist_name@).len() != 0,
        decreases 3 - i,
    {
        let rule = artist_rule_for(artist_name, i);
        let outcome = replace_all(rule.as_str(), current.as_str(), "");
        current = accept_shorter(current, outcome);
        i += 1;
    }
    current
}

} // verus!
