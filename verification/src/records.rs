//! The records that the lyrics provider answers with, and the choice among
//! them.
//!
//! A record may lack any field. A field that is missing and a field that is
//! blank are the same to the choice.

use crate::candidates::{has_words, is_worded};
use crate::lyrics::{
    convert_plain_lyrics_to_lines, lrc_lines, parse_lrc_format, plain_lines, MAX_PLAIN_LINES,
};
use crate::text::{lines, text_lines, text_of};
use crate::types::{LineView, LyricLine};
use vstd::prelude::*;

verus! {

/// One record of the provider's answer.
#[derive(Debug)]
pub struct LyricsRecord {
    pub track_name: Option<String>,
    pub artist_name: Option<String>,
    pub album_name: Option<String>,
    pub plain_lyrics: Option<String>,
    pub synced_lyrics: Option<String>,
}

/// A record as a mathematical value.
pub struct RecordView {
    pub track_name: Option<Seq<char>>,
    pub artist_name: Option<Seq<char>>,
    pub album_name: Option<Seq<char>>,
    pub plain_lyrics: Option<Seq<char>>,
    pub synced_lyrics: Option<Seq<char>>,
}

impl View for LyricsRecord {
    type V = RecordView;

    open spec fn view(&self) -> RecordView {
        RecordView {
            track_name: text_of(self.track_name),
            artist_name: text_of(self.artist_name),
            album_name: text_of(self.album_name),
            plain_lyrics: text_of(self.plain_lyrics),
            synced_lyrics: text_of(self.synced_lyrics),
        }
    }
}

impl DeepView for LyricsRecord {
    type V = RecordView;

    open spec fn deep_view(&self) -> RecordView {
        self@
    }
}

/// The text fields of the record that a caller gets who asked for the
/// provider's own data: a missing field is empty.
#[derive(Debug)]
pub struct RawTrack {
    pub track_name: String,
    pub artist_name: String,
    pub album_name: String,
    pub plain_lyrics: String,
    pub synced_lyrics: String,
}

/// The field is there and has words.
pub open spec fn worded(field: Option<Seq<char>>) -> bool {
    match field {
        Some(s) => has_words(s),
        None => false,
    }
}

/// The lyrics field of a record: the timed one, or the plain one.
pub open spec fn lyrics_field(r: RecordView, synced: bool) -> Option<Seq<char>> {
    if synced {
        r.synced_lyrics
    } else {
        r.plain_lyrics
    }
}

/// The first record whose lyrics field of the given kind has words.
pub open spec fn first_worded(records: Seq<RecordView>, synced: bool) -> Option<int>
    decreases records.len(),
{
    if records.len() == 0 {
        None
    } else {
        match first_worded(records.drop_last(), synced) {
            Some(i) => Some(i),
            None => if worded(lyrics_field(records.last(), synced)) {
                Some(records.len() - 1)
            } else {
                None
            },
        }
    }
}

/// What [`first_worded`] finds is the first such record, and it finds one
/// whenever there is one.
pub proof fn lemma_first_worded(records: Seq<RecordView>, synced: bool)
    ensures
        match first_worded(records, synced) {
            Some(i) => 0 <= i < records.len() && worded(lyrics_field(records[i], synced))
                && forall|j: int| 0 <= j < i ==> !worded(lyrics_field(#[trigger] records[j], synced)),
            None => forall|j: int|
                0 <= j < records.len() ==> !worded(lyrics_field(#[trigger] records[j], synced)),
        },
    decreases records.len(),
{
    if records.len() > 0 {
        let front = records.drop_last();
        lemma_first_worded(front, synced);
        assert forall|j: int| 0 <= j < front.len() implies front[j] == records[j] by {}
        match first_worded(front, synced) {
            Some(i) => {
            },
            None => {
            },
        }
    }
}

/// The record to decode: the first with timed lyrics, else the first with
/// plain lyrics, else the first of all; none of an empty answer.
pub open spec fn best_record(records: Seq<RecordView>) -> Option<int> {
    match first_worded(records, true) {
        Some(i) => Some(i),
        None => match first_worded(records, false) {
            Some(i) => Some(i),
            None => if records.len() > 0 {
                Some(0)
            } else {
                None
            },
        },
    }
}

/// The record to hand out as it is: the first with timed lyrics, else the
/// first of all; none of an empty answer.
pub open spec fn raw_record(records: Seq<RecordView>) -> Option<int> {
    match first_worded(records, true) {
        Some(i) => Some(i),
        None => if records.len() > 0 {
            Some(0)
        } else {
            None
        },
    }
}

/// The lines of a record: its timed lyrics decoded, else its plain lyrics
/// on an even timeline, else none.
pub open spec fn record_lines(r: RecordView) -> Seq<LineView> {
    if worded(r.synced_lyrics) {
        lrc_lines(r.synced_lyrics->0)
    } else if worded(r.plain_lyrics) {
        plain_lines(r.plain_lyrics->0)
    } else {
        Seq::empty()
    }
}

/// The lines of an answer: those of its best record.
pub open spec fn answer_lines(records: Seq<RecordView>) -> Seq<LineView> {
    match best_record(records) {
        Some(i) => record_lines(records[i]),
        None => Seq::empty(),
    }
}

/// The plain lyrics of the record, if any, have no more lines than can be
/// laid on the timeline.
pub open spec fn plain_fits(r: RecordView) -> bool {
    match r.plain_lyrics {
        Some(p) => text_lines(p).len() <= MAX_PLAIN_LINES,
        None => true,
    }
}

/// The place of an optional index.
pub open spec fn place(i: Option<usize>) -> Option<int> {
    match i {
        Some(i) => Some(i as int),
        None => None,
    }
}

/// Whether the field is there and has words.
pub fn is_worded_field(field: &Option<String>) -> (r: bool)
    ensures
        r == worded(text_of(*field)),
{
    match field {
        Some(s) => is_worded(s.as_str()),
        None => false,
    }
}

/// The first record whose lyrics field of the given kind has words.
pub fn find_worded(records: &Vec<LyricsRecord>, synced: bool) -> (r: Option<usize>)
    ensures
        place(r) == first_worded(records.deep_view(), synced),
{
    let mut i: usize = 0;
    while i < records.len()
        invariant
            i <= records.len(),
            first_worded(records.deep_view().take(i as int), synced) is None,
        decreases records.len() - i,
    {
        let found = if synced {
            is_worded_field(&records[i].synced_lyrics)
        } else {
            is_worded_field(&records[i].plain_lyrics)
        };
        proof {
            let next = records.deep_view().take(i + 1);
            assert(next.drop_last() =~= records.deep_view().take(i as int));
        }
        if found {
            proof {
                lemma_first_worded(records.deep_view(), synced);
                lemma_first_worded(records.deep_view().take(i + 1), synced);
                let whole = first_worded(records.deep_view(), synced);
                if whole->0 < i {
                    assert(records.deep_view().take(i + 1)[whole->0] == records.deep_view()[whole->0]);
                }
            }
            return Some(i);
        }
        i += 1;
    }
    proof {
        assert(records.deep_view().take(records.len() as int) =~= records.deep_view());
    }
    None
}

/// Chooses the record to decode.
pub fn select_best_record(records: &Vec<LyricsRecord>) -> (r: Option<usize>)
    ensures
        place(r) == best_record(records.deep_view()),
        r matches Some(i) ==> i < records.len(),
        r is None <==> records.len() == 0,
{
    proof {
        lemma_first_worded(records.deep_view(), true);
        lemma_first_worded(records.deep_view(), false);
    }
    match find_worded(records, true) {
        Some(i) => Some(i),
        None => match find_worded(records, false) {
            Some(i) => Some(i),
            None => if records.len() > 0 {
                Some(0)
            } else {
                None
            },
        },
    }
}

/// Chooses the record to hand out as it is.
pub fn select_raw_record(records: &Vec<LyricsRecord>) -> (r: Option<usize>)
    ensures
        place(r) == raw_record(records.deep_view()),
        r matches Some(i) ==> i < records.len(),
        r is None <==> records.len() == 0,
{
    proof {
        lemma_first_worded(records.deep_view(), true);
    }
    match find_worded(records, true) {
        Some(i) => Some(i),
        None => if records.len() > 0 {
            Some(0)
        } else {
            None
        },
    }
}

/// Decodes the lyrics of one record.
pub fn decode_record(record: &LyricsRecord) -> (r: Vec<LyricLine>)
    requires
        plain_fits(record@),
    ensures
        r.deep_view() == record_lines(record@),
{
    if is_worded_field(&record.synced_lyrics) {
        match &record.synced_lyrics {
            Some(s) => parse_lrc_format(s.as_str()),
            None => Vec::new(),
        }
    } else if is_worded_field(&record.plain_lyrics) {
        match &record.plain_lyrics {
            Some(p) => convert_plain_lyrics_to_lines(p.as_str()),
            None => Vec::new(),
        }
    } else {
        let none: Vec<LyricLine> = Vec::new();
        none
    }
}

/// Decodes the lyrics of a whole answer: those of its best record, none of
/// an empty answer.
pub fn decode_answer(records: &Vec<LyricsRecord>) -> (r: Vec<LyricLine>)
    requires
        forall|i: int| 0 <= i < records.len() ==> plain_fits(#[trigger] records[i]@),
    ensures
        r.deep_view() == answer_lines(records.deep_view()),
{
    match select_best_record(records) {
        Some(i) => {
            decode_record(&records[i])
        },
        None => {
            let none: Vec<LyricLine> = Vec::new();
            none
        },
    }
}

/// The plain lyrics of every record can be laid on the timeline.
pub open spec fn all_fit(records: Seq<RecordView>) -> bool {
    forall|i: int| 0 <= i < records.len() ==> plain_fits(#[trigger] records[i])
}

/// Whether the plain lyrics of every record can be laid on the timeline.
pub fn records_fit(records: &Vec<LyricsRecord>) -> (r: bool)
    ensures
        r == all_fit(records.deep_view()),
{
    let mut i: usize = 0;
    while i < records.len()
        invariant
            i <= records.len(),
            forall|j: int| 0 <= j < i ==> plain_fits(#[trigger] records.deep_view()[j]),
        decreases records.len() - i,
    {
        proof {
            assert(records.deep_view()[i as int] == records@[i as int]@);
        }
        match &records[i].plain_lyrics {
            Some(p) => {
                let ls = lines(p.as_str());
                if ls.len() as u64 > MAX_PLAIN_LINES {
                    return false;
                }
            },
            None => {},
        }
        i += 1;
    }
    true
}

/// Decodes the lyrics of a whole answer where they can be laid on the
/// timeline, and says so where they cannot.
pub fn try_decode_answer(records: &Vec<LyricsRecord>) -> (r: Option<Vec<LyricLine>>)
    ensures
        r is Some <==> all_fit(records.deep_view()),
        r matches Some(lines) ==> lines.deep_view() == answer_lines(records.deep_view()),
{
    if records_fit(records) {
        proof {
            assert forall|i: int| 0 <= i < records.len() implies plain_fits(
                #[trigger] records[i]@,
            ) by {
                assert(records.deep_view()[i] == records@[i]@);
            }
        }
        Some(decode_answer(records))
    } else {
        None
    }
}

/// The text of a field, empty where the field is missing.
pub open spec fn text_or_empty(field: Option<Seq<char>>) -> Seq<char> {
    match field {
        Some(s) => s,
        None => Seq::empty(),
    }
}

/// The text of a field, empty where the field is missing.
pub fn field_text(field: &Option<String>) -> (r: String)
    ensures
        r@ == text_or_empty(text_of(*field)),
{
    match field {
        Some(s) => s.clone(),
        None => String::new(),
    }
}

/// The text fields of a record, as they are.
pub fn shape_raw_track(record: &LyricsRecord) -> (r: RawTrack)
    ensures
        r.track_name@ == text_or_empty(record@.track_name),
        r.artist_name@ == text_or_empty(record@.artist_name),
        r.album_name@ == text_or_empty(record@.album_name),
        r.plain_lyrics@ == text_or_empty(record@.plain_lyrics),
        r.synced_lyrics@ == text_or_empty(record@.synced_lyrics),
{
    RawTrack {
        track_name: field_text(&record.track_name),
        artist_name: field_text(&record.artist_name),
        album_name: field_text(&record.album_name),
        plain_lyrics: field_text(&record.plain_lyrics),
        synced_lyrics: field_text(&record.synced_lyrics),
    }
}

} // verus!
