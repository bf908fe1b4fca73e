//! The ranked query variants that one search for lyrics tries.
//!
//! Free-text queries rank above field queries, and at each rank the raw
//! title is tried beside its cleaned forms. No two candidates share a
//! priority.

use crate::query::{exact_query, exact_url, wildcard_query, wildcard_url};
use crate::text::{char_count, trim, trimmed};
use crate::track_cleaning::{clean_title, clean_track_name, remove_artist_from_track, without_artist};
use vstd::prelude::*;
use vstd::string::StringExecFns;

verus! {

/// One query variant. A higher priority wins.
#[derive(Debug)]
pub struct SearchCandidate {
    pub priority: u8,
    pub url: String,
    pub description: String,
}

/// A candidate as a mathematical value.
pub struct CandidateView {
    pub priority: nat,
    pub url: Seq<char>,
    pub description: Seq<char>,
}

impl View for SearchCandidate {
    type V = CandidateView;

    open spec fn view(&self) -> CandidateView {
        CandidateView {
            priority: self.priority as nat,
            url: self.url@,
            description: self.description@,
        }
    }
}

impl DeepView for SearchCandidate {
    type V = CandidateView;

    open spec fn deep_view(&self) -> CandidateView {
        self@
    }
}

impl SearchCandidate {
    /// A copy of the candidate.
    pub fn copy(&self) -> (r: SearchCandidate)
        ensures
            r@ == self@,
    {
        SearchCandidate {
            priority: self.priority,
            url: self.url.clone(),
            description: self.description.clone(),
        }
    }
}

/// The highest priority: free text, raw title and artist.
pub const TOP_PRIORITY: u8 = 10;

/// The lowest priority: fields, cleaned title without the artist.
pub const LOWEST_PRIORITY: u8 = 3;

/// The text has more than white space.
pub open spec fn has_words(s: Seq<char>) -> bool {
    trimmed(s).len() > 0
}

/// The form of the title that the candidate of a priority asks for: the raw
/// title at 10, 9 and 6, the cleaned title at 8, 7 and 4, the title without
/// the artist at 5, and that, cleaned, at 3.
pub open spec fn query_title(title: Seq<char>, artist: Seq<char>, priority: int) -> Seq<char> {
    if priority == 10 || priority == 9 || priority == 6 {
        title
    } else if priority == 8 || priority == 7 || priority == 4 {
        clean_title(title)
    } else if priority == 5 {
        without_artist(title, artist)
    } else {
        clean_title(without_artist(title, artist))
    }
}

/// Whether the candidate of a priority names the artist.
pub open spec fn names_artist(priority: int) -> bool {
    priority != 9 && priority != 7
}

/// Whether the candidate of a priority is a free-text query.
pub open spec fn is_wildcard(priority: int) -> bool {
    priority >= 7
}

/// The name of the strategy of a priority.
pub open spec fn label(priority: int) -> Seq<char> {
    if priority >= 9 {
        "wildcard"@
    } else if priority >= 7 {
        "wildcard cleaned"@
    } else if priority == 6 {
        "exact"@
    } else if priority == 5 {
        "exact without artist"@
    } else if priority == 4 {
        "exact cleaned"@
    } else {
        "exact cleaned without artist"@
    }
}

/// The URL of the candidate for the title form `t`.
pub open spec fn candidate_url(t: Seq<char>, artist: Seq<char>, priority: int) -> Seq<char> {
    if !is_wildcard(priority) {
        exact_query(t, artist)
    } else if names_artist(priority) {
        wildcard_query(t + " "@ + artist)
    } else {
        wildcard_query(t)
    }
}

/// The description of the candidate for the title form `t`.
pub open spec fn candidate_description(t: Seq<char>, artist: Seq<char>, priority: int) -> Seq<
    char,
> {
    if !names_artist(priority) {
        label(priority) + ": '"@ + t + "'"@
    } else if is_wildcard(priority) {
        label(priority) + ": '"@ + t + "' '"@ + artist + "'"@
    } else {
        label(priority) + ": '"@ + t + "' by '"@ + artist + "'"@
    }
}

/// The candidate of a priority for the title form `t`: none where the title
/// form is blank, or where the candidate names the artist and the artist is
/// blank.
pub open spec fn candidate_of(t: Seq<char>, artist: Seq<char>, priority: int) -> Option<
    CandidateView,
> {
    if !has_words(t) || (names_artist(priority) && !has_words(artist)) {
        None
    } else {
        Some(
            CandidateView {
                priority: priority as nat,
                url: candidate_url(t, artist, priority),
                description: candidate_description(t, artist, priority),
            },
        )
    }
}

/// The candidate of a priority for a title and an artist.
pub open spec fn candidate(title: Seq<char>, artist: Seq<char>, priority: int) -> Option<
    CandidateView,
> {
    candidate_of(query_title(title, artist, priority), artist, priority)
}

/// The candidates of the priorities from 10 down to `lowest`, highest first.
pub open spec fn ranked(title: Seq<char>, artist: Seq<char>, lowest: int) -> Seq<CandidateView>
    decreases 11 - lowest,
{
    if lowest > 10 {
        Seq::empty()
    } else {
        match candidate(title, artist, lowest) {
            Some(c) => ranked(title, artist, lowest + 1).push(c),
            None => ranked(title, artist, lowest + 1),
        }
    }
}

/// All candidates for a title and an artist, highest priority first.
pub open spec fn candidates(title: Seq<char>, artist: Seq<char>) -> Seq<CandidateView> {
    ranked(title, artist, LOWEST_PRIORITY as int)
}

/// The priorities fall strictly along the list.
pub open spec fn strictly_ranked(list: Seq<CandidateView>) -> bool {
    forall|i: int, j: int| 0 <= i < j < list.len() ==> list[i].priority > list[j].priority
}

/// The candidates from 10 down to `lowest` have priorities in that range,
/// falling strictly: no two candidates share a priority.
pub proof fn lemma_ranked(title: Seq<char>, artist: Seq<char>, lowest: int)
    requires
        0 <= lowest,
    ensures
        strictly_ranked(ranked(title, artist, lowest)),
        forall|i: int|
            0 <= i < ranked(title, artist, lowest).len() ==> lowest <= (#[trigger] ranked(
                title,
                artist,
                lowest,
            )[i]).priority <= 10,
    decreases 11 - lowest,
{
    if lowest <= 10 {
        lemma_ranked(title, artist, lowest + 1);
    }
}

/// With a title and an artist that have words, the list begins with the
/// free-text query for both, at the top priority.
pub proof fn lemma_candidates_begin_at_top(title: Seq<char>, artist: Seq<char>)
    requires
        has_words(title),
        has_words(artist),
    ensures
        candidates(title, artist).len() > 0,
        candidates(title, artist)[0] == candidate(title, artist, TOP_PRIORITY as int)->0,
{
    lemma_ranked_begins_at_top(title, artist, LOWEST_PRIORITY as int);
}

proof fn lemma_ranked_begins_at_top(title: Seq<char>, artist: Seq<char>, lowest: int)
    requires
        has_words(title),
        has_words(artist),
        lowest <= 10,
    ensures
        ranked(title, artist, lowest).len() > 0,
        ranked(title, artist, lowest)[0] == candidate(title, artist, 10)->0,
    decreases 11 - lowest,
{
    if lowest < 10 {
        lemma_ranked_begins_at_top(title, artist, lowest + 1);
    } else {
        assert(ranked(title, artist, 11).len() == 0);
    }
}

/// The view of an optional candidate.
pub open spec fn view_of(c: Option<SearchCandidate>) -> Option<CandidateView> {
    match c {
        Some(c) => Some(c@),
        None => None,
    }
}

/// Whether the text has more than white space.
pub fn is_worded(s: &str) -> (r: bool)
    ensures
        r == has_words(s@),
{
    char_count(trim(s).as_str()) > 0
}

/// The name of the strategy of a priority.
pub fn label_of(priority: u8) -> (r: &'static str)
    ensures
        r@ == label(priority as int),
{
    if priority >= 9 {
        "wildcard"
    } else if priority >= 7 {
        "wildcard cleaned"
    } else if priority == 6 {
        "exact"
    } else if priority == 5 {
        "exact without artist"
    } else if priority == 4 {
        "exact cleaned"
    } else {
        "exact cleaned without artist"
    }
}

/// The candidate of a priority for the title form `t`.
pub fn make_candidate(t: &str, artist: &str, priority: u8) -> (r: Option<SearchCandidate>)
    ensures
        view_of(r) == candidate_of(t@, artist@, priority as int),
{
    let with_artist = priority != 9 && priority != 7;
    if !is_worded(t) || (with_artist && !is_worded(artist)) {
        return None;
    }
    let head = String::from_str(label_of(priority)).concat(": '").concat(t);
    let (url, description) = if priority < 7 {
        (exact_url(t, artist), head.concat("' by '").concat(artist).concat("'"))
    } else if with_artist {
        let both = String::from_str(t).concat(" ").concat(artist);
        (wildcard_url(both.as_str()), head.concat("' '").concat(artist).concat("'"))
    } else {
        (wildcard_url(t), head.concat("'"))
    };
    Some(SearchCandidate { priority, url, description })
}

/// The ranked candidates for a title and an artist: free-text queries for
/// the raw and the cleaned title, with and without the artist, then field
/// queries for the raw title, the title without the artist, and both cleaned.
/// Priorities fall strictly from 10 to 3.
pub fn build_candidates(title: &str, artist: &str) -> (r: Vec<SearchCandidate>)
    ensures
        r.deep_view() == candidates(title@, artist@),
        strictly_ranked(r.deep_view()),
        forall|i: int| 0 <= i < r.len() ==> 3 <= (#[trigger] r[i]).priority <= 10,
{
    let cleaned = clean_track_name(title);
    let bare = remove_artist_from_track(title, artist);
    let cleaned_bare = clean_track_name(bare.as_str());
    let mut out: Vec<SearchCandidate> = Vec::new();
    let mut priority: u8 = 10;
    while priority >= 3
        invariant
            2 <= priority <= 10,
            cleaned@ == clean_title(title@),
            bare@ == without_artist(title@, artist@),
            cleaned_bare@ == clean_title(bare@),
            out.deep_view() == ranked(title@, artist@, priority + 1),
            forall|i: int| 0 <= i < out.len() ==> 3 <= (#[trigger] out[i]).priority <= 10,
        decreases priority,
    {
        let t: &str = if priority == 10 || priority == 9 || priority == 6 {
            title
        } else if priority == 8 || priority == 7 || priority == 4 {
            cleaned.as_str()
        } else if priority == 5 {
            bare.as_str()
        } else {
            cleaned_bare.as_str()
        };
        match make_candidate(t, artist, priority) {
            Some(c) => {
                out.push(c);
            },
            None => {},
        }
        priority -= 1;
    }
    proof {
        lemma_ranked(title@, artist@, 3);
    }
    out
}

} // verus!
