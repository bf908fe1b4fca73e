//! The labelled corpus that the normaliser is graded against: how a line of
//! it is read, how many of its titles the normaliser gets exactly right,
//! and the share that it must reach.

use crate::text::{char_count, chars_of, same_text, trim, trimmed};
use crate::track_cleaning::{clean_title, clean_track_name};
use vstd::prelude::*;

verus! {

/// The share of exact matches that the normaliser must reach, in hundredths.
pub const REQUIRED_ACCURACY: u64 = 95;

/// A raw title and the title it should clean to.
#[derive(Debug)]
pub struct Case {
    pub original: String,
    pub expected: String,
}

/// A case as a mathematical value.
pub struct CaseView {
    pub original: Seq<char>,
    pub expected: Seq<char>,
}

impl View for Case {
    type V = CaseView;

    open spec fn view(&self) -> CaseView {
        CaseView { original: self.original@, expected: self.expected@ }
    }
}

impl DeepView for Case {
    type V = CaseView;

    open spec fn deep_view(&self) -> CaseView {
        self@
    }
}

/// The fields of a line read from `at` on, given the fields that are
/// complete, the field that is being read and whether a quotation is open.
/// A comma outside a quotation ends a field; a quotation mark opens or
/// closes a quotation, and two of them inside a quotation stand for one;
/// every field is trimmed.
pub open spec fn fields_from(
    line: Seq<char>,
    at: int,
    done: Seq<Seq<char>>,
    current: Seq<char>,
    quoted: bool,
) -> Seq<Seq<char>>
    decreases line.len() - at,
{
    if at < 0 || at >= line.len() {
        done.push(trimmed(current))
    } else if line[at] == '"' {
        if quoted && at + 1 < line.len() && line[at + 1] == '"' {
            fields_from(line, at + 2, done, current.push('"'), quoted)
        } else {
            fields_from(line, at + 1, done, current, !quoted)
        }
    } else if line[at] == ',' && !quoted {
        fields_from(line, at + 1, done.push(trimmed(current)), Seq::empty(), quoted)
    } else {
        fields_from(line, at + 1, done, current.push(line[at]), quoted)
    }
}

/// The fields of a line of the corpus.
pub open spec fn fields(line: Seq<char>) -> Seq<Seq<char>> {
    fields_from(line, 0, Seq::empty(), Seq::empty(), false)
}

/// The case that a line of the corpus holds: its first two fields, if it
/// has words, at least two fields, and neither of the two is empty.
pub open spec fn case_of(line: Seq<char>) -> Option<CaseView> {
    if trimmed(line).len() > 0 && fields(line).len() >= 2 && fields(line)[0].len() > 0 && fields(
        line,
    )[1].len() > 0 {
        Some(CaseView { original: fields(line)[0], expected: fields(line)[1] })
    } else {
        None
    }
}

/// The number of cases whose title cleans to exactly the expected one.
pub open spec fn exact_matches(cases: Seq<CaseView>) -> nat
    decreases cases.len(),
{
    if cases.len() == 0 {
        0
    } else {
        exact_matches(cases.drop_last()) + if clean_title(cases.last().original)
            == cases.last().expected {
            1nat
        } else {
            0nat
        }
    }
}

/// The required accuracy is reached: there are cases, and at least 95 in
/// 100 are exact matches.
pub open spec fn accuracy_reached(correct: nat, total: nat) -> bool {
    total > 0 && correct * 100 >= REQUIRED_ACCURACY * total
}

/// Reads the fields of a line of the corpus.
pub fn split_fields(line: &str) -> (r: Vec<String>)
    ensures
        r.deep_view() == fields(line@),
{
    let v = chars_of(line);
    let mut done: Vec<String> = Vec::new();
    let mut current: Vec<char> = Vec::new();
    let mut quoted = false;
    let mut at: usize = 0;
    proof {
        assert(done.deep_view() =~= Seq::<Seq<char>>::empty());
        assert(current@ =~= Seq::<char>::empty());
    }
    while at < v.len()
        invariant
            at <= v.len(),
            v@ == line@,
            fields(line@) == fields_from(v@, at as int, done.deep_view(), current@, quoted),
        decreases v.len() - at,
    {
        let ghost before = done.deep_view();
        let c = v[at];
        if c == '"' {
            if quoted && at + 1 < v.len() && v[at + 1] == '"' {
                current.push('"');
                at += 2;
            } else {
                quoted = !quoted;
                at += 1;
            }
        } else if c == ',' && !quoted {
            let ghost field = trimmed(current@);
            done.push(crate::text::trim_chars(&current));
            current = Vec::new();
            proof {
                assert(done.deep_view() =~= before.push(field));
            }
            at += 1;
        } else {
            current.push(c);
            at += 1;
        }
    }
    let ghost before = done.deep_view();
    done.push(crate::text::trim_chars(&current));
    proof {
        assert(done.deep_view() =~= before.push(trimmed(current@)));
    }
    done
}

/// Reads the case that a line of the corpus holds.
pub fn read_case(line: &str) -> (r: Option<Case>)
    ensures
        match r {
            Some(c) => case_of(line@) == Some(c@),
            None => case_of(line@) is None,
        },
{
    if char_count(trim(line).as_str()) == 0 {
        return None;
    }
    let parts = split_fields(line);
    assert(parts.deep_view().len() == parts.len());
    if parts.len() >= 2 {
        assert(parts.deep_view()[0] == parts@[0]@ && parts.deep_view()[1] == parts@[1]@);
        if char_count(parts[0].as_str()) > 0 && char_count(parts[1].as_str()) > 0 {
            return Some(Case { original: parts[0].clone(), expected: parts[1].clone() });
        }
    }
    None
}

/// Counts the cases whose title cleans to exactly the expected one.
pub fn count_exact_matches(cases: &Vec<Case>) -> (r: usize)
    ensures
        r == exact_matches(cases.deep_view()),
        r <= cases.len(),
{
    let mut correct: usize = 0;
    let mut i: usize = 0;
    while i < cases.len()
        invariant
            i <= cases.len(),
            correct == exact_matches(cases.deep_view().take(i as int)),
            correct <= i,
        decreases cases.len() - i,
    {
        proof {
            let next = cases.deep_view().take(i + 1);
            assert(next.drop_last() =~= cases.deep_view().take(i as int));
            assert(next.last() == cases@[i as int]@);
        }
        let cleaned = clean_track_name(cases[i].original.as_str());
        if same_text(&cleaned, &cases[i].expected) {
            correct += 1;
        }
        i += 1;
    }
    proof {
        assert(cases.deep_view().take(cases.len() as int) =~= cases.deep_view());
    }
    correct
}

/// Whether so many exact matches among so many cases reach the required
/// accuracy.
pub fn reaches_required_accuracy(correct: usize, total: usize) -> (r: bool)
    ensures
        r == accuracy_reached(correct as nat, total as nat),
{
    total > 0 && (correct as u128) * 100 >= (REQUIRED_ACCURACY as u128) * (total as u128)
}

/// Cleaning the cleaned title changes nothing.
pub open spec fn is_stable(raw: Seq<char>) -> bool {
    clean_title(clean_title(raw)) == clean_title(raw)
}

/// The number of cases on whose raw title cleaning is stable.
pub open spec fn stable_cases(cases: Seq<CaseView>) -> nat
    decreases cases.len(),
{
    if cases.len() == 0 {
        0
    } else {
        stable_cases(cases.drop_last()) + if is_stable(cases.last().original) {
            1nat
        } else {
            0nat
        }
    }
}

/// Whether cleaning the cleaned title of `raw` changes nothing.
pub fn cleans_stably(raw: &str) -> (r: bool)
    ensures
        r == is_stable(raw@),
{
    let once = clean_track_name(raw);
    let twice = clean_track_name(once.as_str());
    same_text(&twice, &once)
}

/// Counts the cases on whose raw title cleaning is stable.
pub fn count_stable_cases(cases: &Vec<Case>) -> (r: usize)
    ensures
        r == stable_cases(cases.deep_view()),
        r <= cases.len(),
{
    let mut stable: usize = 0;
    let mut i: usize = 0;
    while i < cases.len()
        invariant
            i <= cases.len(),
            stable == stable_cases(cases.deep_view().take(i as int)),
            stable <= i,
        decreases cases.len() - i,
    {
        proof {
            let next = cases.deep_view().take(i + 1);
            assert(next.drop_last() =~= cases.deep_view().take(i as int));
            assert(next.last() == cases@[i as int]@);
        }
        if cleans_stably(cases[i].original.as_str()) {
            stable += 1;
        }
        i += 1;
    }
    proof {
        assert(cases.deep_view().take(cases.len() as int) =~= cases.deep_view());
    }
    stable
}

} // verus!
