//! What one fetch of lyrics asks the provider, and what it makes of the
//! answers. The requests themselves are the caller's work.

use crate::candidates::{
    build_candidates, candidates, has_words, is_worded, strictly_ranked, SearchCandidate,
};
use crate::query::{
    exact_query, exact_url, title_query, title_url, wildcard_query, wildcard_url,
};
use crate::race::{priorities_of, SearchError, SearchRace};
use crate::records::{raw_record, select_raw_record, shape_raw_track, LyricsRecord, RawTrack, text_or_empty};
use vstd::prelude::*;
use vstd::string::StringExecFns;

verus! {

/// How the library names itself to the provider.
pub const USER_AGENT: &'static str = "Lyryc/0.1.0";

/// Seconds that one request may take.
pub const REQUEST_TIMEOUT_SECS: u64 = 10;

/// Seconds that a whole search may take.
pub const OVERALL_TIMEOUT_SECS: u64 = 30;

/// The candidates of a search and the race between them.
pub struct SearchPlan {
    pub candidates: Vec<SearchCandidate>,
    pub race: SearchRace,
}

/// Plans the search for the lyrics of a track: the ranked candidates and a
/// race that waits for each of them. There is no plan where the title
/// leaves nothing to ask for.
pub fn plan_search(track_name: &str, artist_name: &str) -> (r: Result<SearchPlan, SearchError>)
    ensures
        r is Err <==> candidates(track_name@, artist_name@).len() == 0,
        r matches Err(e) ==> e == SearchError::NoCandidates,
        r matches Ok(plan) ==> {
            &&& plan.candidates.deep_view() == candidates(track_name@, artist_name@)
            &&& strictly_ranked(plan.candidates.deep_view())
            &&& plan.race@.initial()
            &&& plan.race@.priorities == priorities_of(plan.candidates@)
        },
{
    let list = build_candidates(track_name, artist_name);
    match SearchRace::start(&list) {
        Some(race) => Ok(SearchPlan { candidates: list, race }),
        None => Err(SearchError::NoCandidates),
    }
}

/// The first query for the provider's own record of a track: by fields, the
/// artist only where it has words.
pub open spec fn raw_exact_query(title: Seq<char>, artist: Seq<char>) -> Seq<char> {
    if has_words(artist) {
        exact_query(title, artist)
    } else {
        title_query(title)
    }
}

/// The second query, asked where the first brought no record: free text,
/// title and artist.
pub open spec fn raw_wildcard_query(title: Seq<char>, artist: Seq<char>) -> Seq<char> {
    wildcard_query(title + " "@ + artist)
}

/// The URL of the first query for a raw record.
pub fn raw_exact_url(track_name: &str, artist_name: &str) -> (r: String)
    ensures
        r@ == raw_exact_query(track_name@, artist_name@),
{
    if is_worded(artist_name) {
        exact_url(track_name, artist_name)
    } else {
        title_url(track_name)
    }
}

/// The URL of the second query for a raw record.
pub fn raw_wildcard_url(track_name: &str, artist_name: &str) -> (r: String)
    ensures
        r@ == raw_wildcard_query(track_name@, artist_name@),
{
    let both = String::from_str(track_name).concat(" ").concat(artist_name);
    wildcard_url(both.as_str())
}

/// Whether the second query is due: the first brought no record.
pub fn needs_fallback(records: &Vec<LyricsRecord>) -> (r: bool)
    ensures
        r == (records.len() == 0),
{
    records.len() == 0
}

/// Why there is no raw record.
#[derive(Debug, Clone, Copy, PartialEq, Eq, Structural)]
pub enum RawError {
    /// Neither query brought a record.
    NoResults,
}

impl RawError {
    /// The message for the caller.
    pub fn message(&self) -> (r: String)
        ensures
            r@ == "No LRCLib results"@,
    {
        "No LRCLib results".to_owned()
    }
}

/// The record to hand out of an answer, with its place in the answer: the
/// first with timed lyrics, else the first; its text fields as they are.
pub fn choose_raw_track(records: &Vec<LyricsRecord>) -> (r: Result<(usize, RawTrack), RawError>)
    ensures
        r is Err <==> records.len() == 0,
        r matches Ok((i, track)) ==> {
            &&& raw_record(records.deep_view()) == Some(i as int)
            &&& i < records.len()
            &&& track.track_name@ == text_or_empty(records[i as int]@.track_name)
            &&& track.artist_name@ == text_or_empty(records[i as int]@.artist_name)
            &&& track.album_name@ == text_or_empty(records[i as int]@.album_name)
            &&& track.plain_lyrics@ == text_or_empty(records[i as int]@.plain_lyrics)
            &&& track.synced_lyrics@ == text_or_empty(records[i as int]@.synced_lyrics)
        },
{
    match select_raw_record(records) {
        Some(i) => Ok((i, shape_raw_track(&records[i]))),
        None => Err(RawError::NoResults),
    }
}

} // verus!
