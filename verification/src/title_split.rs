//! The split of a title into artist and track at a separator.

use crate::text::{
    char_count, contains, has_infix, lowercase, pieces, same_text, split, text_of, trim, trimmed,
};
use crate::title_rules::{capture_pair, captured, extract, extracted, keep_longer, kept};
use vstd::prelude::*;

verus! {

/// An artist with a guest credit, a dash, then the track.
pub const FEATURED_LEAD: &'static str = r"^[^-]*\s+feat\.?\s+[^-]*\s*-\s*(.+)$";

/// Artist, a dash of any length, track.
pub const DASH_SPLIT: &'static str = r"^([^-]+)\s*[-–—]\s*(.+)$";

/// Artist, a middle dot, track.
pub const DOT_SPLIT: &'static str = r"^([^·]+)\s*[·]\s*(.+)$";

/// Artist, a multiplication sign, track.
pub const TIMES_SPLIT: &'static str = r"^([^×]+)\s*[×]\s*(.+)$";

/// The text credits a guest artist.
pub open spec fn credits_guest(t: Seq<char>) -> bool {
    let l = lowercase(t);
    has_infix(l, "feat"@) || has_infix(l, "ft."@)
}

/// Where the raw title is an artist with a guest credit, a dash and a track,
/// the track becomes the title.
pub open spec fn featured_track(raw: Seq<char>, current: Seq<char>) -> Seq<char> {
    extracted(current, raw, FEATURED_LEAD@, 1, 0)
}

/// A title with one ` / ` and no guest credit keeps what stands before the
/// slash, if that has more than two characters.
pub open spec fn slash_head(current: Seq<char>) -> Seq<char> {
    if has_infix(current, " / "@) && !credits_guest(current) && pieces(current, " / "@).len()
        == 2 {
        kept(current, trimmed(pieces(current, " / "@)[0]), 2)
    } else {
        current
    }
}

/// The segment after a separator is the track: both segments have text and
/// differ, the artist is shorter than three times the track unless it credits
/// a guest, and the track is no platform label.
pub open spec fn is_track_of(artist: Seq<char>, track: Seq<char>) -> bool {
    &&& track.len() > 0
    &&& artist.len() > 0
    &&& (credits_guest(artist) || artist.len() < 3 * track.len())
    &&& !has_infix(lowercase(track), "youtube"@)
    &&& !has_infix(lowercase(track), "music video"@)
    &&& track != artist
}

/// The track that the two groups of a separator pattern give, if any.
pub open spec fn split_accepted(artist: Option<Seq<char>>, track: Option<Seq<char>>) -> Option<
    Seq<char>,
> {
    match (artist, track) {
        (Some(a), Some(t)) => if is_track_of(trimmed(a), trimmed(t)) {
            Some(trimmed(t))
        } else {
            None
        },
        _ => None,
    }
}

/// The track that `pattern` splits off `current`, if any.
pub open spec fn separated(current: Seq<char>, pattern: Seq<char>) -> Option<Seq<char>> {
    split_accepted(captured(pattern, current, 1), captured(pattern, current, 2))
}

/// The title after the separator split: the first of dash, middle dot and
/// multiplication sign that gives a track decides.
pub open spec fn track_part(current: Seq<char>) -> Seq<char> {
    match separated(current, DASH_SPLIT@) {
        Some(t) => t,
        None => match separated(current, DOT_SPLIT@) {
            Some(t) => t,
            None => match separated(current, TIMES_SPLIT@) {
                Some(t) => t,
                None => current,
            },
        },
    }
}

/// The whole split stage.
pub open spec fn split_title(raw: Seq<char>, current: Seq<char>) -> Seq<char> {
    track_part(slash_head(featured_track(raw, current)))
}

/// The split stage leaves a title that has text with text.
pub proof fn lemma_split_title_keeps_text(raw: Seq<char>, current: Seq<char>)
    requires
        current.len() > 0,
    ensures
        split_title(raw, current).len() > 0,
{
}

/// Whether the text credits a guest artist.
pub fn has_guest_credit(t: &str) -> (r: bool)
    ensures
        r == credits_guest(t@),
{
    let l = t.to_lowercase();
    contains(l.as_str(), "feat") || contains(l.as_str(), "ft.")
}

/// Applies the slash rule.
pub fn keep_slash_head(current: String) -> (r: String)
    ensures
        r@ == slash_head(current@),
{
    if contains(current.as_str(), " / ") && !has_guest_credit(current.as_str()) {
        let parts = split(current.as_str(), " / ");
        if parts.len() == 2 {
            let head = trim(parts[0].as_str());
            keep_longer(current, head, 2)
        } else {
            current
        }
    } else {
        current
    }
}

/// Whether the segment after a separator is the track.
pub fn accepts_track(artist: &String, track: &String) -> (r: bool)
    ensures
        r == is_track_of(artist@, track@),
{
    let a: usize = char_count(artist.as_str());
    let t: usize = char_count(track.as_str());
    if t == 0 || a == 0 {
        return false;
    }
    if !(has_guest_credit(artist.as_str()) || a / 3 < t) {
        return false;
    }
    let l = track.as_str().to_lowercase();
    !contains(l.as_str(), "youtube") && !contains(l.as_str(), "music video") && !same_text(track, artist)
}

/// Judges the two groups of a separator pattern.
pub fn accept_split(artist: Option<String>, track: Option<String>) -> (r: Option<String>)
    ensures
        text_of(r) == split_accepted(text_of(artist), text_of(track)),
{
    match (artist, track) {
        (Some(a), Some(t)) => {
            let artist_part = trim(a.as_str());
            let track_part = trim(t.as_str());
            if accepts_track(&artist_part, &track_part) {
                Some(track_part)
            } else {
                None
            }
        },
        _ => None,
    }
}

/// The track that `pattern` splits off `current`, if any.
pub fn separate(current: &str, pattern: &str) -> (r: Option<String>)
    ensures
        text_of(r) == separated(current@, pattern@),
{
    let (artist, track) = capture_pair(pattern, current, 1, 2);
    accept_split(artist, track)
}

/// Applies the separator split.
pub fn take_track_part(current: String) -> (r: String)
    ensures
        r@ == track_part(current@),
{
    match separate(current.as_str(), DASH_SPLIT) {
        Some(t) => t,
        None => match separate(current.as_str(), DOT_SPLIT) {
            Some(t) => t,
            None => match separate(current.as_str(), TIMES_SPLIT) {
                Some(t) => t,
                None => current,
            },
        },
    }
}

/// Applies the split stage.
pub fn split_artist_and_track(raw: &str, current: String) -> (r: String)
    ensures
        r@ == split_title(raw@, current@),
{
    let current = extract(current, raw, FEATURED_LEAD, 1, 0);
    let current = keep_slash_head(current);
    take_track_part(current)
}

} // verus!
