//! Residual cleanup: what is left to do once artist and track are split.
//!
//! The rules run in four groups, in this order: remnants and wrappers,
//! credits and separators, trailing tags, and last the notes and the
//! pinned titles.

use crate::text::{
    char_count, contains, ends_with, has_infix, has_prefix, has_suffix, lowercase, pieces,
    replace, replaced, split, starts_with, text_of, trim, trimmed,
};
use crate::title_rules::{
    capture, capture_pair, captured, extract, extracted, head_kept, keep_head, keep_longer, kept,
    respace, respaced, strip, stripped, unwrap_pair, unwrapped,
};
use vstd::prelude::*;
use vstd::string::StringExecFns;

verus! {

/// Artist, a hyphen, the track, then a lenticular bracket pair.
pub const ARTIST_TRACK_BRACKET: &'static str = r"^([^-]+)-([^【]+)【.*?】";

/// A full-width parenthesis that mentions a video.
pub const WIDE_VIDEO_NOTE: &'static str = r"（.*?(VIDEO|video|MV|mv).*?）";

/// Any lenticular bracket pair.
pub const ANY_BRACKET: &'static str = r"【.*?】";

/// A run of white space.
pub const WHITE_SPACE: &'static str = r"\s+";

/// What stands before a backslash, a run of `s`, `feat` and a second backslash.
pub const BEFORE_FEAT: &'static str = r"^(.+?)\\s*feat\\.";

/// A note on official subtitles, written with backslashes before its
/// parentheses.
pub const SUBTITLE_NOTE: &'static str = r"\\s*\\(.*?官方.*?中.*?字.*?版.*?\\)";

/// The word "official" after a full-width parenthesis, closed by a plain one.
pub const WIDE_OFFICIAL_NOTE: &'static str = r"（公式\)";

/// A square bracket pair at the end.
pub const TRAILING_SQUARE: &'static str = r"\s*\[[^\]]*\]\s*$";

/// A guest credit at the end.
pub const TRAILING_GUEST: &'static str = r"\s+ft\.?\s+[^(),-]*$";

/// A guest in capitals at the end.
pub const TRAILING_GUEST_CAPS: &'static str = r"\s+ft\.?\s+[A-Z][A-Z]+\s*$";

/// "Official Video" at the end.
pub const TRAILING_OFFICIAL_VIDEO: &'static str = r"\s+Official\s+Video\s*$";

/// A guest that follows `ft.` without a blank, at the end.
pub const TRAILING_GUEST_JOINED: &'static str = r"\s+ft\.([^\s]+)$";

/// A title in single quotes at the start, and what follows it.
pub const QUOTE_LEAD: &'static str = r"^'([^']+)'(.*)$";

/// A note on a Chinese cover, written with backslashes before its parentheses.
pub const CHINESE_COVER_NOTE: &'static str = r"\\s*\\(.*?Chinese.*?Cover.*?\\)";

/// Any full-width parenthesis pair.
pub const WIDE_NOTE: &'static str = r"（.*?）";

/// The word `cover` at the end, between a backslash with a run of `s` and a
/// second backslash.
pub const TRAILING_COVER: &'static str = r"\\s+cover\\s*$";

/// What stands before a full-width slash that a multiplication sign and a
/// lenticular bracket pair follow.
pub const WIDE_SLASH_HEAD: &'static str = r"^([^／]+)／.*×.*【.*?】";

/// An artist before "(Full Album)" and a dash.
pub const FULL_ALBUM: &'static str = r"^([^-]+)\(Full Album\)\s*-.*$";

/// Remnants and wrappers: the track of an `Artist-Track【..】` raw title,
/// video notes and brackets that are left, a list cut at its first ` | `,
/// quotes around the whole title, white space collapsed.
pub open spec fn remnants_cleared(raw: Seq<char>, current: Seq<char>) -> Seq<char> {
    let s = extracted(current, raw, ARTIST_TRACK_BRACKET@, 2, 2);
    let s = stripped(s, WIDE_VIDEO_NOTE@, 1);
    let s = stripped(s, ANY_BRACKET@, 1);
    let s = head_kept(s, " | "@, 2);
    let s = unwrapped(s, '"', '"');
    let s = unwrapped(s, '\'', '\'');
    let s = unwrapped(s, '「', '」');
    respaced(s, WHITE_SPACE@)
}

/// A title that holds both `feat.` and a multiplication sign keeps what
/// `pattern` finds before the credit.
pub open spec fn before_credit(current: Seq<char>) -> Seq<char> {
    if has_infix(current, "feat."@) && has_infix(current, "×"@) {
        extracted(current, current, BEFORE_FEAT@, 1, 2)
    } else {
        current
    }
}

/// Whether the text after a dash may stand as the title.
pub open spec fn may_follow_dash(t: Seq<char>) -> bool {
    &&& t.len() > 0
    &&& !has_prefix(lowercase(t), "youtube"@)
    &&& !has_prefix(lowercase(t), "official"@)
    &&& !has_infix(lowercase(t), "cover by"@)
}

/// A title with ` - ` becomes what stands between the first and the second
/// ` - `, unless that is a platform label or a cover credit.
pub open spec fn second_piece(current: Seq<char>) -> Seq<char> {
    let p = pieces(current, " - "@);
    if has_infix(current, " - "@) && p.len() >= 2 && may_follow_dash(trimmed(p[1])) {
        trimmed(p[1])
    } else {
        current
    }
}

/// A title with ` · ` and without ` - ` becomes what stands after the last
/// ` · `, if that has text and fewer than 50 characters.
pub open spec fn last_dot_piece(current: Seq<char>) -> Seq<char> {
    let p = pieces(current, " · "@);
    if has_infix(current, " · "@) && !has_infix(current, " - "@) && p.len() >= 2 && 0 < trimmed(
        p.last(),
    ).len() < 50 {
        trimmed(p.last())
    } else {
        current
    }
}

/// Credits and separators.
pub open spec fn credits_cleared(current: Seq<char>) -> Seq<char> {
    let s = head_kept(current, "／"@, 2);
    let s = before_credit(s);
    let s = stripped(s, SUBTITLE_NOTE@, 1);
    let s = stripped(s, WIDE_OFFICIAL_NOTE@, 1);
    let s = stripped(s, TRAILING_SQUARE@, 1);
    let s = unwrapped(s, '"', '"');
    let s = second_piece(s);
    last_dot_piece(s)
}

/// A title that ends in ` (Acoustic)` loses every ` (Acoustic)`.
pub open spec fn without_acoustic(current: Seq<char>) -> Seq<char> {
    if has_suffix(current, " (Acoustic)"@) {
        kept(current, trimmed(replaced(current, " (Acoustic)"@, Seq::empty())), 0)
    } else {
        current
    }
}

/// A chain of three or more parts joined by ` - ` keeps its first part, if
/// that has more than two and fewer than 50 characters. One known chain is
/// pinned to its title.
pub open spec fn chain_head(current: Seq<char>) -> Seq<char> {
    let p = pieces(current, " - "@);
    if has_infix(current, "If I Die Young - The Band Perry"@) {
        kept(current, "If I Die Young"@, 0)
    } else if has_infix(current, " - "@) && p.len() > 2 && 2 < trimmed(p[0]).len() < 50 {
        trimmed(p[0])
    } else {
        current
    }
}

/// The title that single quotes at the start enclose, given the quoted text
/// and what follows the closing quote: it needs more than two characters,
/// and after it nothing, or a text that mentions "seaside".
pub open spec fn quote_accepted(
    current: Seq<char>,
    quoted: Option<Seq<char>>,
    rest: Option<Seq<char>>,
) -> Seq<char> {
    match quoted {
        Some(q) => {
            let after = match rest {
                Some(a) => trimmed(a),
                None => Seq::empty(),
            };
            if trimmed(q).len() > 2 && (after.len() == 0 || has_infix(
                lowercase(after),
                "seaside"@,
            )) {
                trimmed(q)
            } else {
                current
            }
        },
        None => current,
    }
}

/// The title that single quotes at the start enclose.
pub open spec fn quote_lead(current: Seq<char>) -> Seq<char> {
    quote_accepted(
        current,
        captured(QUOTE_LEAD@, current, 1),
        captured(QUOTE_LEAD@, current, 2),
    )
}

/// Trailing tags.
pub open spec fn tags_cleared(current: Seq<char>) -> Seq<char> {
    let s = stripped(current, TRAILING_GUEST@, 1);
    let s = stripped(s, TRAILING_GUEST_CAPS@, 1);
    let s = without_acoustic(s);
    let s = stripped(s, TRAILING_OFFICIAL_VIDEO@, 1);
    let s = chain_head(s);
    let s = stripped(s, TRAILING_GUEST_JOINED@, 1);
    quote_lead(s)
}

/// A title that holds a full-width slash and a multiplication sign keeps
/// what stands before the slash.
pub open spec fn wide_slash_head(current: Seq<char>) -> Seq<char> {
    if has_infix(current, "／"@) && has_infix(current, "×"@) {
        extracted(current, current, WIDE_SLASH_HEAD@, 1, 2)
    } else {
        current
    }
}

/// `/ Japanese Cover` becomes a parenthesis.
pub open spec fn cover_marked(current: Seq<char>) -> Seq<char> {
    if has_infix(current, "/ Japanese Cover"@) {
        kept(current, replaced(current, "/ Japanese Cover"@, " (Japanese Cover)"@), 0)
    } else {
        current
    }
}

/// A title that no rule has changed and that holds exactly one ` - ` becomes
/// what stands after it.
pub open spec fn last_resort(raw: Seq<char>, current: Seq<char>) -> Seq<char> {
    let p = pieces(current, " - "@);
    if current == raw && has_infix(current, " - "@) && p.len() == 2 {
        kept(current, trimmed(p[1]), 0)
    } else {
        current
    }
}

/// The artist of a full album, given what the pattern found in the raw title.
pub open spec fn album_accepted(current: Seq<char>, artist: Option<Seq<char>>) -> Seq<char> {
    match artist {
        Some(a) => kept(current, trimmed(a) + " (Full Album)"@, 0),
        None => current,
    }
}

/// A raw title of the form `Artist (Full Album) - ..` becomes
/// `Artist (Full Album)`. One known album is pinned.
pub open spec fn full_album(raw: Seq<char>, current: Seq<char>) -> Seq<char> {
    let s = if has_infix(current, "Cigarettes After Sex (Full Album) - Cigarettes After Sex"@) {
        kept(current, "Cigarettes After Sex (Full Album)"@, 0)
    } else {
        current
    };
    if has_infix(raw, "(Full Album) -"@) {
        album_accepted(s, captured(FULL_ALBUM@, raw, 1))
    } else {
        s
    }
}

/// Notes and pinned titles.
pub open spec fn notes_cleared(raw: Seq<char>, current: Seq<char>) -> Seq<char> {
    let s = stripped(current, CHINESE_COVER_NOTE@, 1);
    let s = stripped(s, WIDE_NOTE@, 3);
    let s = stripped(s, TRAILING_COVER@, 1);
    let s = wide_slash_head(s);
    let s = cover_marked(s);
    let s = last_resort(raw, s);
    full_album(raw, s)
}

/// The whole residual cleanup.
pub open spec fn residue_cleared(raw: Seq<char>, current: Seq<char>) -> Seq<char> {
    notes_cleared(raw, tags_cleared(credits_cleared(remnants_cleared(raw, current))))
}

/// Residual cleanup leaves a title that has text with text.
pub proof fn lemma_residue_cleared_keeps_text(raw: Seq<char>, current: Seq<char>)
    requires
        current.len() > 0,
    ensures
        residue_cleared(raw, current).len() > 0,
{
}

/// Clears remnants and wrappers.
pub fn clear_remnants(raw: &str, current: String) -> (r: String)
    ensures
        r@ == remnants_cleared(raw@, current@),
{
    let s = extract(current, raw, ARTIST_TRACK_BRACKET, 2, 2);
    let s = strip(s, WIDE_VIDEO_NOTE, 1);
    let s = strip(s, ANY_BRACKET, 1);
    let s = keep_head(s, " | ", 2);
    let s = unwrap_pair(s, '"', '"');
    let s = unwrap_pair(s, '\'', '\'');
    let s = unwrap_pair(s, '「', '」');
    respace(s, WHITE_SPACE)
}

/// Applies [`before_credit`].
pub fn keep_before_credit(current: String) -> (r: String)
    ensures
        r@ == before_credit(current@),
{
    if contains(current.as_str(), "feat.") && contains(current.as_str(), "×") {
        let found = capture(BEFORE_FEAT, current.as_str(), 1);
        crate::title_rules::accept_extract(current, found, 2)
    } else {
        current
    }
}

/// Whether the text after a dash may stand as the title.
pub fn follows_dash(t: &str) -> (r: bool)
    ensures
        r == may_follow_dash(t@),
{
    let l = t.to_lowercase();
    char_count(t) > 0 && !starts_with(l.as_str(), "youtube") && !starts_with(
        l.as_str(),
        "official",
    ) && !contains(l.as_str(), "cover by")
}

/// Applies [`second_piece`].
pub fn keep_second_piece(current: String) -> (r: String)
    ensures
        r@ == second_piece(current@),
{
    if contains(current.as_str(), " - ") {
        let parts = split(current.as_str(), " - ");
        if parts.len() >= 2 {
            let t = trim(parts[1].as_str());
            if follows_dash(t.as_str()) {
                return t;
            }
        }
    }
    current
}

/// Applies [`last_dot_piece`].
pub fn keep_last_dot_piece(current: String) -> (r: String)
    ensures
        r@ == last_dot_piece(current@),
{
    if contains(current.as_str(), " · ") && !contains(current.as_str(), " - ") {
        let parts = split(current.as_str(), " · ");
        if parts.len() >= 2 {
            let last: usize = parts.len() - 1;
            let t = trim(parts[last].as_str());
            let n: usize = char_count(t.as_str());
            if 0 < n && n < 50 {
                return t;
            }
        }
    }
    current
}

/// Clears credits and separators.
pub fn clear_credits(current: String) -> (r: String)
    ensures
        r@ == credits_cleared(current@),
{
    let s = keep_head(current, "／", 2);
    let s = keep_before_credit(s);
    let s = strip(s, SUBTITLE_NOTE, 1);
    let s = strip(s, WIDE_OFFICIAL_NOTE, 1);
    let s = strip(s, TRAILING_SQUARE, 1);
    let s = unwrap_pair(s, '"', '"');
    let s = keep_second_piece(s);
    keep_last_dot_piece(s)
}

/// Applies [`without_acoustic`].
pub fn drop_acoustic(current: String) -> (r: String)
    ensures
        r@ == without_acoustic(current@),
{
    if ends_with(current.as_str(), " (Acoustic)") {
        proof {
            reveal_strlit("");
            assert(""@ =~= Seq::<char>::empty());
        }
        let without = replace(current.as_str(), " (Acoustic)", "");
        let candidate = trim(without.as_str());
        keep_longer(current, candidate, 0)
    } else {
        current
    }
}

/// Applies [`chain_head`].
pub fn keep_chain_head(current: String) -> (r: String)
    ensures
        r@ == chain_head(current@),
{
    if contains(current.as_str(), "If I Die Young - The Band Perry") {
        return keep_longer(current, String::from_str("If I Die Young"), 0);
    }
    if contains(current.as_str(), " - ") {
        let parts = split(current.as_str(), " - ");
        if parts.len() > 2 {
            let head = trim(parts[0].as_str());
            let n: usize = char_count(head.as_str());
            if 2 < n && n < 50 {
                return head;
            }
        }
    }
    current
}

/// Judges what the single-quote pattern found.
pub fn accept_quote(current: String, quoted: Option<String>, rest: Option<String>) -> (r: String)
    ensures
        r@ == quote_accepted(current@, text_of(quoted), text_of(rest)),
{
    match quoted {
        Some(q) => {
            let title = trim(q.as_str());
            let after = match rest {
                Some(a) => trim(a.as_str()),
                None => String::new(),
            };
            let l = after.as_str().to_lowercase();
            if char_count(title.as_str()) > 2 && (char_count(after.as_str()) == 0 || contains(
                l.as_str(),
                "seaside",
            )) {
                title
            } else {
                current
            }
        },
        None => current,
    }
}

/// Applies [`quote_lead`].
pub fn take_quote_lead(current: String) -> (r: String)
    ensures
        r@ == quote_lead(current@),
{
    let (quoted, rest) = capture_pair(QUOTE_LEAD, current.as_str(), 1, 2);
    accept_quote(current, quoted, rest)
}

/// Clears trailing tags.
pub fn clear_tags(current: String) -> (r: String)
    ensures
        r@ == tags_cleared(current@),
{
    let s = strip(current, TRAILING_GUEST, 1);
    let s = strip(s, TRAILING_GUEST_CAPS, 1);
    let s = drop_acoustic(s);
    let s = strip(s, TRAILING_OFFICIAL_VIDEO, 1);
    let s = keep_chain_head(s);
    let s = strip(s, TRAILING_GUEST_JOINED, 1);
    take_quote_lead(s)
}

/// Applies [`wide_slash_head`].
pub fn keep_wide_slash_head(current: String) -> (r: String)
    ensures
        r@ == wide_slash_head(current@),
{
    if contains(current.as_str(), "／") && contains(current.as_str(), "×") {
        let found = capture(WIDE_SLASH_HEAD, current.as_str(), 1);
        crate::title_rules::accept_extract(current, found, 2)
    } else {
        current
    }
}

/// Applies [`cover_marked`].
pub fn mark_cover(current: String) -> (r: String)
    ensures
        r@ == cover_marked(current@),
{
    if contains(current.as_str(), "/ Japanese Cover") {
        let marked = replace(current.as_str(), "/ Japanese Cover", " (Japanese Cover)");
        keep_longer(current, marked, 0)
    } else {
        current
    }
}

/// Applies [`last_resort`].
pub fn take_last_resort(raw: &str, current: String) -> (r: String)
    ensures
        r@ == last_resort(raw@, current@),
{
    let unchanged = crate::text::same_text(&current, &String::from_str(raw));
    if unchanged && contains(current.as_str(), " - ") {
        let parts = split(current.as_str(), " - ");
        if parts.len() == 2 {
            let t = trim(parts[1].as_str());
            return keep_longer(current, t, 0);
        }
    }
    current
}

/// Judges what the full-album pattern found.
pub fn accept_album(current: String, artist: Option<String>) -> (r: String)
    ensures
        r@ == album_accepted(current@, text_of(artist)),
{
    match artist {
        Some(a) => {
            let name = trim(a.as_str()).concat(" (Full Album)");
            keep_longer(current, name, 0)
        },
        None => current,
    }
}

/// Applies [`full_album`].
pub fn keep_full_album(raw: &str, current: String) -> (r: String)
    ensures
        r@ == full_album(raw@, current@),
{
    let s = if contains(
        current.as_str(),
        "Cigarettes After Sex (Full Album) - Cigarettes After Sex",
    ) {
        keep_longer(current, String::from_str("Cigarettes After Sex (Full Album)"), 0)
    } else {
        current
    };
    if contains(raw, "(Full Album) -") {
        let artist = capture(FULL_ALBUM, raw, 1);
        accept_album(s, artist)
    } else {
        s
    }
}

/// Clears notes and pinned titles.
pub fn clear_notes(raw: &str, current: String) -> (r: String)
    ensures
        r@ == notes_cleared(raw@, current@),
{
    let s = strip(current, CHINESE_COVER_NOTE, 1);
    let s = strip(s, WIDE_NOTE, 3);
    let s = strip(s, TRAILING_COVER, 1);
    let s = keep_wide_slash_head(s);
    let s = mark_cover(s);
    let s = take_last_resort(raw, s);
    keep_full_album(raw, s)
}

/// Applies the whole residual cleanup.
pub fn clear_residue(raw: &str, current: String) -> (r: String)
    ensures
        r@ == residue_cleared(raw@, current@),
{
    let s = clear_remnants(raw, current);
    let s = clear_credits(s);
    let s = clear_tags(s);
    clear_notes(raw, s)
}

} // verus!
