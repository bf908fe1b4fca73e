//! Decoding of lyrics: timed lyrics in LRC form, and plain lyrics laid on an
//! even timeline.

use crate::pattern::{captures, regex_captures};
use crate::text::{
    char_count, chars_of, closed_lines, is_one_line, lemma_lines_read_back,
    lemma_trimmed_ends, lemma_worded_lines, lines, string_of, text_lines, trim, trimmed,
    worded_lines,
};
use crate::types::{LineView, LyricLine};
use vstd::prelude::*;

verus! {

/// How long the last timed line is shown: three seconds.
pub const LAST_LINE: u64 = 300;

/// The step of the timeline of plain lyrics, and how long each of their
/// lines is shown: five seconds.
pub const PLAIN_STEP: u64 = 500;

/// The most lines of plain lyrics whose times can be counted.
pub const MAX_PLAIN_LINES: u64 = u64::MAX / 500;

/// Words with the time at which they start.
pub struct Stamped {
    pub time: nat,
    pub text: Seq<char>,
}

/// The value of a decimal digit.
pub open spec fn digit(c: char) -> Option<nat> {
    if '0' <= c && c <= '9' {
        Some((c as u32 - '0' as u32) as nat)
    } else {
        None
    }
}

/// One decimal digit of any script.
pub const ANY_DIGIT: &'static str = r"^\d$";

/// The character is a decimal digit: one of `0` to `9`, or a character that
/// the pattern for digits of any script finds.
pub open spec fn is_decimal(c: char) -> bool {
    digit(c) is Some || regex_captures(ANY_DIGIT@, seq![c]) is Some
}

/// The number that the two-digit field at `at` writes: there is a field
/// where two decimal digits stand; digits `0` to `9` count by their value,
/// and a field with a digit of another script is no number and counts zero.
pub open spec fn pair_value(s: Seq<char>, at: int) -> Option<nat> {
    if 0 <= at && at + 2 <= s.len() && is_decimal(s[at]) && is_decimal(s[at + 1]) {
        if digit(s[at]) is Some && digit(s[at + 1]) is Some {
            Some(10 * digit(s[at])->0 + digit(s[at + 1])->0)
        } else {
            Some(0)
        }
    } else {
        None
    }
}

/// The stamp at the start of a line, `[mm:ss]` or `[mm:ss.cc]`: its time in
/// hundredths of a second, and where the words begin. A field that is no
/// number counts zero; the line keeps its stamp.
pub open spec fn stamp_of(line: Seq<char>) -> Option<(nat, int)> {
    match (pair_value(line, 1), pair_value(line, 4)) {
        (Some(minutes), Some(seconds)) => {
            if line.len() < 7 || line[0] != '[' || line[3] != ':' {
                None
            } else if line[6] == ']' {
                Some((minutes * 6000 + seconds * 100, 7))
            } else if line[6] == '.' && line.len() >= 10 && line[9] == ']' {
                match pair_value(line, 7) {
                    Some(hundredths) => Some((minutes * 6000 + seconds * 100 + hundredths, 10)),
                    None => None,
                }
            } else {
                None
            }
        },
        _ => None,
    }
}

/// The entry that one line of text gives: its stamp and, trimmed, the words
/// behind it. A line without a stamp or without words gives none.
pub open spec fn timed_entry(line: Seq<char>) -> Option<Stamped> {
    match stamp_of(line) {
        Some((time, start)) => if trimmed(line.skip(start)).len() > 0 {
            Some(Stamped { time, text: trimmed(line.skip(start)) })
        } else {
            None
        },
        None => None,
    }
}

/// The entries of the lines, in the order of the lines.
pub open spec fn entries(lines: Seq<Seq<char>>) -> Seq<Stamped>
    decreases lines.len(),
{
    if lines.len() == 0 {
        Seq::empty()
    } else {
        match timed_entry(lines.last()) {
            Some(e) => entries(lines.drop_last()).push(e),
            None => entries(lines.drop_last()),
        }
    }
}

/// Where an entry of time `time` goes into `sorted`: behind the last entry
/// that is not later.
pub open spec fn slot(sorted: Seq<Stamped>, time: nat) -> int
    decreases sorted.len(),
{
    if sorted.len() == 0 {
        0
    } else if sorted.last().time <= time {
        sorted.len() as int
    } else {
        slot(sorted.drop_last(), time)
    }
}

/// The entries by time, entries of one time in their first order.
pub open spec fn by_time(s: Seq<Stamped>) -> Seq<Stamped>
    decreases s.len(),
{
    if s.len() == 0 {
        Seq::empty()
    } else {
        let sorted = by_time(s.drop_last());
        sorted.insert(slot(sorted, s.last().time), s.last())
    }
}

/// No entry is earlier than one before it.
pub open spec fn ascending(s: Seq<Stamped>) -> bool {
    forall|i: int, j: int| 0 <= i <= j < s.len() ==> s[i].time <= s[j].time
}

/// The lines of sorted entries: each lasts until the next begins, the last
/// for [`LAST_LINE`].
pub open spec fn with_durations(s: Seq<Stamped>) -> Seq<LineView> {
    Seq::new(
        s.len(),
        |i: int|
            LineView {
                time: s[i].time,
                text: s[i].text,
                duration: Some(
                    if i + 1 < s.len() {
                        (s[i + 1].time - s[i].time) as nat
                    } else {
                        LAST_LINE as nat
                    },
                ),
            },
    )
}

/// The lines that a text of timed lyrics decodes to.
pub open spec fn lrc_lines(text: Seq<char>) -> Seq<LineView> {
    with_durations(by_time(entries(text_lines(text))))
}

/// A timeline of timed lyrics: ascending times, words in every line, each
/// line lasting until the next begins and the last for [`LAST_LINE`].
pub open spec fn is_timeline(lines: Seq<LineView>) -> bool {
    &&& forall|i: int, j: int| 0 <= i <= j < lines.len() ==> lines[i].time <= lines[j].time
    &&& forall|i: int| 0 <= i < lines.len() ==> (#[trigger] lines[i]).text.len() > 0
    &&& forall|i: int|
        0 <= i < lines.len() - 1 ==> (#[trigger] lines[i]).duration == Some(
            (lines[i + 1].time - lines[i].time) as nat,
        )
    &&& lines.len() > 0 ==> lines.last().duration == Some(LAST_LINE as nat)
}

/// The slot of a time in ascending entries parts those that are not later
/// from those that are.
pub proof fn lemma_slot(sorted: Seq<Stamped>, time: nat)
    requires
        ascending(sorted),
    ensures
        0 <= slot(sorted, time) <= sorted.len(),
        forall|i: int| 0 <= i < slot(sorted, time) ==> sorted[i].time <= time,
        forall|i: int| slot(sorted, time) <= i < sorted.len() ==> sorted[i].time > time,
    decreases sorted.len(),
{
    if sorted.len() > 0 && sorted.last().time > time {
        let front = sorted.drop_last();
        lemma_slot(front, time);
        assert forall|i: int| 0 <= i < slot(sorted, time) implies sorted[i].time <= time by {
            assert(front[i] == sorted[i]);
        }
        assert forall|i: int| slot(sorted, time) <= i < sorted.len() implies sorted[i].time
            > time by {
            if i < front.len() {
                assert(front[i] == sorted[i]);
            }
        }
    }
}

/// Sorting gives ascending times, keeps the number of entries, and keeps
/// words in every entry if every entry had words.
pub proof fn lemma_by_time(s: Seq<Stamped>)
    ensures
        ascending(by_time(s)),
        by_time(s).len() == s.len(),
        (forall|i: int| 0 <= i < s.len() ==> (#[trigger] s[i]).text.len() > 0) ==> (forall|i: int|
            0 <= i < s.len() ==> (#[trigger] by_time(s)[i]).text.len() > 0),
    decreases s.len(),
{
    if s.len() > 0 {
        let front = s.drop_last();
        lemma_by_time(front);
        let sorted = by_time(front);
        let e = s.last();
        lemma_slot(sorted, e.time);
    }
}

/// Entries that are in order already stay as they are.
pub proof fn lemma_by_time_of_ascending(s: Seq<Stamped>)
    requires
        ascending(s),
    ensures
        by_time(s) == s,
    decreases s.len(),
{
    if s.len() > 0 {
        let front = s.drop_last();
        lemma_by_time_of_ascending(front);
    }
}

/// Every entry has words.
pub proof fn lemma_entries_have_words(lines: Seq<Seq<char>>)
    ensures
        forall|i: int| 0 <= i < entries(lines).len() ==> (#[trigger] entries(lines)[i]).text.len() > 0,
        entries(lines).len() <= lines.len(),
    decreases lines.len(),
{
    if lines.len() > 0 {
        lemma_entries_have_words(lines.drop_last());
    }
}

/// What timed lyrics decode to is a timeline, whatever the text.
pub proof fn lemma_lrc_lines_timeline(text: Seq<char>)
    ensures
        is_timeline(lrc_lines(text)),
{
    let e = entries(text_lines(text));
    lemma_entries_have_words(text_lines(text));
    lemma_by_time(e);
}

/// Round trip of timed lyrics whose stamps do not decrease: where every line
/// of the text is a timed line with words and no line is earlier than one
/// before it, the text decodes to as many lines as it has, in the same order,
/// each with its own stamp and words, each lasting until the next begins and
/// the last for three seconds.
pub proof fn lemma_ordered_lyrics_round_trip(text: Seq<char>)
    requires
        forall|i: int|
            0 <= i < text_lines(text).len() ==> timed_entry(#[trigger] text_lines(text)[i]) is Some,
        forall|i: int, j: int|
            0 <= i <= j < text_lines(text).len() ==> timed_entry(text_lines(text)[i])->0.time
                <= timed_entry(text_lines(text)[j])->0.time,
    ensures
        lrc_lines(text).len() == text_lines(text).len(),
        forall|i: int|
            0 <= i < text_lines(text).len() ==> #[trigger] lrc_lines(text)[i] == (LineView {
                time: timed_entry(text_lines(text)[i])->0.time,
                text: timed_entry(text_lines(text)[i])->0.text,
                duration: Some(
                    if i + 1 < text_lines(text).len() {
                        (timed_entry(text_lines(text)[i + 1])->0.time - timed_entry(
                            text_lines(text)[i],
                        )->0.time) as nat
                    } else {
                        LAST_LINE as nat
                    },
                ),
            }),
{
    let ls = text_lines(text);
    lemma_entries_of_timed_lines(ls);
    let e = entries(ls);
    lemma_by_time_of_ascending(e);
}

/// Where every line is a timed line with words, the entries are those of the
/// lines, one for one.
pub proof fn lemma_entries_of_timed_lines(lines: Seq<Seq<char>>)
    requires
        forall|i: int| 0 <= i < lines.len() ==> timed_entry(#[trigger] lines[i]) is Some,
    ensures
        entries(lines).len() == lines.len(),
        forall|i: int| 0 <= i < lines.len() ==> #[trigger] entries(lines)[i] == timed_entry(lines[i])->0,
    decreases lines.len(),
{
    if lines.len() > 0 {
        let front = lines.drop_last();
        lemma_entries_of_timed_lines(front);
    }
}

/// The character of a decimal digit.
pub open spec fn digit_char(d: nat) -> char {
    (0x30 + d) as u8 as char
}

/// A number below 100 in two decimal digits.
pub open spec fn pair_text(n: nat) -> Seq<char> {
    seq![digit_char(n / 10), digit_char(n % 10)]
}

/// The stamp `[mm:ss.cc]` of a time below 100 minutes.
pub open spec fn stamp_text(time: nat) -> Seq<char> {
    seq!['['] + pair_text(time / 6000) + seq![':'] + pair_text(time / 100 % 60) + seq!['.']
        + pair_text(time % 100) + seq![']']
}

/// An entry as a line of timed lyrics.
pub open spec fn line_text(e: Stamped) -> Seq<char> {
    stamp_text(e.time) + e.text
}

/// Entries as timed lyrics: one line each, each closed by a line feed.
pub open spec fn lrc_text(entries: Seq<Stamped>) -> Seq<char> {
    closed_lines(Seq::new(entries.len(), |i: int| line_text(entries[i])))
}

/// An entry that can be written as a line: its time is below 100 minutes,
/// its words are not empty, have no white space at their ends and no line
/// feed.
pub open spec fn writable(e: Stamped) -> bool {
    e.time < 600_000 && e.text.len() > 0 && trimmed(e.text) == e.text && !e.text.contains('\n')
}

/// A written entry is one line, and reading the line gives the entry back.
pub proof fn lemma_line_read_back(e: Stamped)
    requires
        writable(e),
    ensures
        is_one_line(line_text(e)),
        timed_entry(line_text(e)) == Some(e),
{
    let stamp = stamp_text(e.time);
    let line = line_text(e);
    let minutes = e.time / 6000;
    let seconds = e.time / 100 % 60;
    let hundredths = e.time % 100;
    assert(stamp.len() == 10);
    assert(stamp[0] == '[' && stamp[3] == ':' && stamp[6] == '.' && stamp[9] == ']');
    assert forall|i: int| 0 <= i < 10 implies line[i] == stamp[i] by {}
    lemma_pair_read_back(line, 1, minutes);
    lemma_pair_read_back(line, 4, seconds);
    lemma_pair_read_back(line, 7, hundredths);
    assert(minutes * 6000 + seconds * 100 + hundredths == e.time);
    assert(line.skip(10) =~= e.text);
    assert(stamp_of(line) == Some((e.time, 10int)));
    lemma_trimmed_ends(e.text);
    assert(line.last() == e.text.last());
    assert forall|i: int| 0 <= i < line.len() implies line[i] != '\n' by {
        if i >= 10 {
            assert(line[i] == e.text[i - 10]);
            assert(e.text.contains(e.text[i - 10]));
        }
    }
}

/// A written digit is read as the digit it is, and is no line feed.
pub proof fn lemma_digit_read_back(d: nat)
    requires
        d < 10,
    ensures
        digit(digit_char(d)) == Some(d),
        is_decimal(digit_char(d)),
        digit_char(d) != '\n',
{
    let b = (0x30 + d) as u8;
    assert(b as char as u32 == b as u32);
}

/// A number below 100 that is written in two digits is read as it is.
pub proof fn lemma_pair_read_back(s: Seq<char>, at: int, n: nat)
    requires
        n < 100,
        0 <= at,
        at + 2 <= s.len(),
        s[at] == digit_char(n / 10),
        s[at + 1] == digit_char(n % 10),
    ensures
        pair_value(s, at) == Some(n),
        s[at] != '\n',
        s[at + 1] != '\n',
{
    lemma_digit_read_back(n / 10);
    lemma_digit_read_back(n % 10);
}

/// Round trip of timed lyrics: entries that are written down in the order
/// of their times, one stamped line each, decode to one lyric line each, in
/// the same order, with the written time and words, each lasting until the
/// next begins and the last for three seconds.
pub proof fn lemma_written_lyrics_round_trip(list: Seq<Stamped>)
    requires
        forall|i: int| 0 <= i < list.len() ==> writable(#[trigger] list[i]),
        ascending(list),
    ensures
        lrc_lines(lrc_text(list)) == with_durations(list),
        lrc_lines(lrc_text(list)).len() == list.len(),
        is_timeline(lrc_lines(lrc_text(list))),
{
    let written = Seq::new(list.len(), |i: int| line_text(list[i]));
    assert forall|i: int| 0 <= i < written.len() implies is_one_line(#[trigger] written[i])
        && timed_entry(written[i]) == Some(list[i]) by {
        lemma_line_read_back(list[i]);
    }
    lemma_lines_read_back(written);
    lemma_entries_of_timed_lines(written);
    assert(entries(written) =~= list);
    lemma_by_time_of_ascending(list);
}

/// Words with the time at which they start, in hundredths of a second.
pub struct TimedText {
    pub time: u64,
    pub text: String,
}

impl View for TimedText {
    type V = Stamped;

    open spec fn view(&self) -> Stamped {
        Stamped { time: self.time as nat, text: self.text@ }
    }
}

impl DeepView for TimedText {
    type V = Stamped;

    open spec fn deep_view(&self) -> Stamped {
        self@
    }
}

/// Whether the character is a decimal digit.
pub fn is_decimal_digit(c: char) -> (r: bool)
    ensures
        r == is_decimal(c),
{
    if '0' <= c && c <= '9' {
        return true;
    }
    let mut one = String::new();
    one.push(c);
    proof {
        assert(one@ =~= seq![c]);
    }
    captures(ANY_DIGIT, one.as_str()).is_some()
}

/// The number that the two-digit field at `at` writes.
pub fn read_pair(v: &Vec<char>, at: usize) -> (r: Option<u64>)
    ensures
        match r {
            Some(n) => pair_value(v@, at as int) == Some(n as nat) && n <= 99,
            None => pair_value(v@, at as int) is None,
        },
{
    if at >= v.len() || v.len() - at < 2 {
        return None;
    }
    let a = v[at];
    let b = v[at + 1];
    if !is_decimal_digit(a) || !is_decimal_digit(b) {
        return None;
    }
    if '0' <= a && a <= '9' && '0' <= b && b <= '9' {
        let tens: u32 = a as u32 - '0' as u32;
        let ones: u32 = b as u32 - '0' as u32;
        Some((10 * tens + ones) as u64)
    } else {
        Some(0)
    }
}

/// The stamp at the start of a line.
pub fn read_stamp(v: &Vec<char>) -> (r: Option<(u64, usize)>)
    ensures
        match r {
            Some((time, start)) => stamp_of(v@) == Some((time as nat, start as int)) && start
                <= v.len() && time <= 603_999,
            None => stamp_of(v@) is None,
        },
{
    let minutes = match read_pair(v, 1) {
        Some(m) => m,
        None => {
            return None;
        },
    };
    let seconds = match read_pair(v, 4) {
        Some(s) => s,
        None => {
            return None;
        },
    };
    if v.len() < 7 || v[0] != '[' || v[3] != ':' {
        None
    } else if v[6] == ']' {
        Some((minutes * 6000 + seconds * 100, 7))
    } else if v[6] == '.' && v.len() >= 10 && v[9] == ']' {
        match read_pair(v, 7) {
            Some(hundredths) => Some((minutes * 6000 + seconds * 100 + hundredths, 10)),
            None => None,
        }
    } else {
        None
    }
}

/// The entry that one line of text gives.
pub fn read_timed_line(line: &str) -> (r: Option<TimedText>)
    ensures
        match r {
            Some(e) => timed_entry(line@) == Some(e@),
            None => timed_entry(line@) is None,
        },
{
    let v = chars_of(line);
    match read_stamp(&v) {
        Some((time, start)) => {
            let rest = string_of(&v, start, v.len());
            let words = trim(rest.as_str());
            if char_count(words.as_str()) > 0 {
                Some(TimedText { time, text: words })
            } else {
                None
            }
        },
        None => None,
    }
}

/// Puts an entry behind the last entry that is not later.
pub fn insert_by_time(sorted: &mut Vec<TimedText>, entry: TimedText)
    ensures
        final(sorted).deep_view() == old(sorted).deep_view().insert(
            slot(old(sorted).deep_view(), entry@.time),
            entry@,
        ),
{
    let ghost before = sorted.deep_view();
    let mut k: usize = sorted.len();
    proof {
        assert(before.take(k as int) =~= before);
    }
    while k > 0 && sorted[k - 1].time > entry.time
        invariant
            k <= sorted.len(),
            sorted.deep_view() == before,
            slot(before, entry@.time) == slot(before.take(k as int), entry@.time),
        decreases k,
    {
        proof {
            assert(before.take(k as int).drop_last() =~= before.take(k - 1));
        }
        k -= 1;
    }
    sorted.insert(k, entry);
}

/// The lines of sorted entries.
pub fn attach_durations(sorted: &Vec<TimedText>) -> (r: Vec<LyricLine>)
    requires
        ascending(sorted.deep_view()),
    ensures
        r.deep_view() == with_durations(sorted.deep_view()),
{
    let mut out: Vec<LyricLine> = Vec::new();
    let mut i: usize = 0;
    while i < sorted.len()
        invariant
            i <= sorted.len(),
            ascending(sorted.deep_view()),
            out.deep_view() == with_durations(sorted.deep_view()).take(i as int),
        decreases sorted.len() - i,
    {
        let ghost before = out.deep_view();
        let duration: u64 = if i + 1 < sorted.len() {
            sorted[i + 1].time - sorted[i].time
        } else {
            LAST_LINE
        };
        out.push(
            LyricLine {
                time: sorted[i].time,
                text: sorted[i].text.clone(),
                duration: Some(duration),
            },
        );
        proof {
            let line = with_durations(sorted.deep_view())[i as int];
            assert(out.deep_view() =~= before.push(line));
        }
        i += 1;
    }
    out
}

/// Decodes timed lyrics. Lines that are no timed lines, and timed lines
/// without words, are passed over; the rest come out as a timeline.
pub fn parse_lrc_format(lrc_content: &str) -> (r: Vec<LyricLine>)
    ensures
        r.deep_view() == lrc_lines(lrc_content@),
        is_timeline(r.deep_view()),
{
    let ls = lines(lrc_content);
    let mut sorted: Vec<TimedText> = Vec::new();
    let mut i: usize = 0;
    while i < ls.len()
        invariant
            i <= ls.len(),
            ls.deep_view() == text_lines(lrc_content@),
            sorted.deep_view() == by_time(entries(ls.deep_view().take(i as int))),
        decreases ls.len() - i,
    {
        let ghost seen = ls.deep_view().take(i as int);
        proof {
            let next = ls.deep_view().take(i + 1);
            assert(next.drop_last() =~= seen);
        }
        match read_timed_line(ls[i].as_str()) {
            Some(entry) => {
                proof {
                    assert(entries(seen).push(entry@).drop_last() =~= entries(seen));
                }
                insert_by_time(&mut sorted, entry);
            },
            None => {},
        }
        i += 1;
    }
    proof {
        assert(ls.deep_view().take(ls.len() as int) =~= ls.deep_view());
        lemma_by_time(entries(text_lines(lrc_content@)));
        lemma_lrc_lines_timeline(lrc_content@);
    }
    attach_durations(&sorted)
}

/// Line `place` of an even timeline: it begins at five seconds times its
/// place and is shown for five seconds.
pub open spec fn even_line(place: int, words: Seq<char>) -> LineView {
    LineView {
        time: (place * PLAIN_STEP) as nat,
        text: words,
        duration: Some(PLAIN_STEP as nat),
    }
}

/// The lines that plain lyrics give: the lines of the text that have words,
/// trimmed, on an even timeline. Lines without words are passed over and
/// leave no gap.
pub open spec fn plain_lines_of(lines: Seq<Seq<char>>) -> Seq<LineView> {
    Seq::new(worded_lines(lines).len(), |i: int| even_line(i, worded_lines(lines)[i]))
}

/// The lines that a text of plain lyrics gives.
pub open spec fn plain_lines(text: Seq<char>) -> Seq<LineView> {
    plain_lines_of(text_lines(text))
}

/// An even timeline: line `i` begins at five seconds times `i`, every line
/// has words and is shown for five seconds, which is the gap to the next.
pub open spec fn is_even_timeline(lines: Seq<LineView>) -> bool {
    forall|i: int|
        0 <= i < lines.len() ==> (#[trigger] lines[i]).time == i * PLAIN_STEP && lines[i].duration
            == Some(PLAIN_STEP as nat) && lines[i].text.len() > 0
}

/// What plain lyrics give is an even timeline, whatever the text, and has
/// no more lines than the text.
pub proof fn lemma_plain_lines_even(lines: Seq<Seq<char>>)
    ensures
        is_even_timeline(plain_lines_of(lines)),
        plain_lines_of(lines).len() <= lines.len(),
{
    lemma_worded_lines(lines);
}

/// Even spacing of plain lyrics: where every line has words, there is one
/// lyric line for each, in the order of the lines, line `i` with the words
/// of line `i`, trimmed, at five seconds times `i`, each shown for five
/// seconds.
pub proof fn lemma_plain_lines_spacing(lines: Seq<Seq<char>>)
    requires
        forall|i: int| 0 <= i < lines.len() ==> trimmed(#[trigger] lines[i]).len() > 0,
    ensures
        plain_lines_of(lines).len() == lines.len(),
        forall|i: int|
            0 <= i < lines.len() ==> #[trigger] plain_lines_of(lines)[i] == even_line(
                i,
                trimmed(lines[i]),
            ),
{
    lemma_worded_lines(lines);
}

/// Even spacing of written plain lyrics: lines that all have words, written
/// down one after the other, give one lyric line each, line `i` at five
/// seconds times `i`, each shown for five seconds.
pub proof fn lemma_written_plain_lyrics(lines: Seq<Seq<char>>)
    requires
        forall|i: int|
            0 <= i < lines.len() ==> is_one_line(#[trigger] lines[i]) && trimmed(lines[i]).len()
                > 0,
    ensures
        plain_lines(closed_lines(lines)).len() == lines.len(),
        forall|i: int|
            0 <= i < lines.len() ==> #[trigger] plain_lines(closed_lines(lines))[i] == even_line(
                i,
                trimmed(lines[i]),
            ),
{
    lemma_lines_read_back(lines);
    lemma_plain_lines_spacing(lines);
}

/// Lays plain lyrics on an even timeline: every line of the text that has
/// words becomes a lyric line, trimmed, in the order of the text; lyric
/// line `i` begins at five seconds times `i` and is shown for five seconds.
pub fn convert_plain_lyrics_to_lines(plain_lyrics: &str) -> (r: Vec<LyricLine>)
    requires
        text_lines(plain_lyrics@).len() <= MAX_PLAIN_LINES,
    ensures
        r.deep_view() == plain_lines(plain_lyrics@),
        forall|i: int|
            0 <= i < r.len() ==> (#[trigger] r[i]).time == i * PLAIN_STEP && r[i].duration == Some(
                PLAIN_STEP,
            ) && r[i].text@.len() > 0,
        is_even_timeline(r.deep_view()),
{
    let ls = lines(plain_lyrics);
    let mut out: Vec<LyricLine> = Vec::new();
    let mut i: usize = 0;
    proof {
        assert(ls.deep_view().take(0) =~= Seq::<Seq<char>>::empty());
        assert(out.deep_view() =~= plain_lines_of(ls.deep_view().take(0)));
    }
    while i < ls.len()
        invariant
            i <= ls.len(),
            ls.len() <= MAX_PLAIN_LINES,
            out.len() <= i,
            out.deep_view() == plain_lines_of(ls.deep_view().take(i as int)),
            forall|k: int|
                0 <= k < out.len() ==> (#[trigger] out[k]).time == k * PLAIN_STEP && out[k].duration
                    == Some(PLAIN_STEP) && out[k].text@.len() > 0,
        decreases ls.len() - i,
    {
        let ghost before = out.deep_view();
        let ghost seen = ls.deep_view().take(i as int);
        proof {
            let next = ls.deep_view().take(i + 1);
            assert(next.drop_last() =~= seen);
            assert(next.last() == ls@[i as int]@);
        }
        let words = trim(ls[i].as_str());
        if char_count(words.as_str()) > 0 {
            let time: u64 = (out.len() as u64) * PLAIN_STEP;
            out.push(LyricLine { time, text: words, duration: Some(PLAIN_STEP) });
            proof {
                assert(out.deep_view() =~= before.push(even_line(before.len() as int, words@)));
                assert(out.deep_view() =~= plain_lines_of(ls.deep_view().take(i + 1)));
            }
        } else {
            proof {
                assert(out.deep_view() =~= plain_lines_of(ls.deep_view().take(i + 1)));
            }
        }
        i += 1;
    }
    proof {
        assert(ls.deep_view().take(ls.len() as int) =~= ls.deep_view());
        lemma_plain_lines_even(text_lines(plain_lyrics@));
    }
    out
}

} // verus!
