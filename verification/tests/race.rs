use lyryc::candidates::{build_candidates, SearchCandidate};
use lyryc::lyrics::parse_lrc_format;
use lyryc::race::{into_result, SearchError, SearchOutcome, SearchRace};
use lyryc::types::LyricLine;

fn candidates(priorities: &[u8]) -> Vec<SearchCandidate> {
    priorities
        .iter()
        .map(|p| SearchCandidate { priority: *p, url: format!("u{}", p), description: format!("d{}", p) })
        .collect()
}

fn words(text: &str) -> Vec<LyricLine> {
    vec![LyricLine { time: 0, text: text.to_string(), duration: Some(300) }]
}

#[test]
fn no_candidates_no_race() {
    assert!(SearchRace::start(&Vec::new()).is_none());
    assert!(SearchRace::start(&build_candidates("", "")).is_none());
}

#[test]
fn race_starts_with_everyone_at_work() {
    let race = SearchRace::start(&candidates(&[5, 10, 7])).unwrap();
    assert_eq!(race.priorities, vec![5, 10, 7]);
    assert_eq!(race.top, 10);
    assert_eq!(race.reported, vec![false, false, false]);
    assert_eq!(race.cancelled, vec![false, false, false]);
    assert!(race.best.is_none());
    assert!(!race.finished);
}

#[test]
fn top_priority_answer_ends_the_race_and_stops_the_rest() {
    let mut race = SearchRace::start(&candidates(&[10, 9, 8, 7])).unwrap();
    let step = race.on_report(0, Some(words("top")));
    assert_eq!(step.cancel, vec![1, 2, 3]);
    match step.outcome {
        Some(SearchOutcome::Found { winner, lines }) => {
            assert_eq!(winner, 0);
            assert_eq!(lines[0].text, "top");
        }
        other => panic!("{:?}", other),
    }
    assert!(race.finished);
    assert_eq!(race.cancelled, vec![false, true, true, true]);
    // stragglers change nothing
    let late = race.on_report(1, Some(words("late")));
    assert!(late.cancel.is_empty());
    assert!(late.outcome.is_none());
    assert_eq!(race.best, Some(0));
    let late = race.on_timeout();
    assert!(late.cancel.is_empty());
    assert!(late.outcome.is_none());
}

#[test]
fn better_answer_stops_only_the_lower_candidates() {
    let mut race = SearchRace::start(&candidates(&[10, 9, 8, 7, 6])).unwrap();
    let step = race.on_report(2, Some(words("eight")));
    assert_eq!(step.cancel, vec![3, 4]);
    assert!(step.outcome.is_none());
    assert_eq!(race.best, Some(2));
    // a lower answer that was already under way does not replace it
    let step = race.on_report(4, Some(words("six")));
    assert!(step.cancel.is_empty());
    assert!(step.outcome.is_none());
    assert_eq!(race.best, Some(2));
    // a higher one does, and there is no one left to stop below it
    let step = race.on_report(1, Some(words("nine")));
    assert!(step.cancel.is_empty());
    assert!(step.outcome.is_none());
    assert_eq!(race.best, Some(1));
    assert_eq!(race.best_lines[0].text, "nine");
    // the stopped candidate answers with nothing, then the top one fails: the race is exhausted
    assert!(race.on_report(3, None).outcome.is_none());
    let step = race.on_report(0, None);
    match step.outcome {
        Some(SearchOutcome::Found { winner, lines }) => {
            assert_eq!(winner, 1);
            assert_eq!(lines[0].text, "nine");
        }
        other => panic!("{:?}", other),
    }
}

#[test]
fn all_empty_answers_end_in_not_found() {
    for order in [[0usize, 1, 2, 3], [3, 2, 1, 0], [2, 0, 3, 1]] {
        let mut race = SearchRace::start(&candidates(&[10, 9, 8, 7])).unwrap();
        for (n, i) in order.iter().enumerate() {
            let answer = if n % 2 == 0 { None } else { Some(Vec::new()) };
            let step = race.on_report(*i, answer);
            assert!(step.cancel.is_empty());
            if n < 3 {
                assert!(step.outcome.is_none());
            } else {
                let outcome = step.outcome.unwrap();
                assert!(matches!(outcome, SearchOutcome::AllEmpty));
                assert_eq!(into_result(outcome).unwrap_err(), SearchError::AllEmpty);
            }
        }
    }
}

#[test]
fn timeout_returns_what_was_captured() {
    let mut race = SearchRace::start(&candidates(&[10, 9, 3])).unwrap();
    assert!(race.on_report(2, Some(words("low"))).outcome.is_none());
    let step = race.on_timeout();
    assert_eq!(step.cancel, vec![0, 1]);
    let outcome = step.outcome.unwrap();
    match &outcome {
        SearchOutcome::Timeout { partial: Some((winner, lines)) } => {
            assert_eq!(*winner, 2);
            assert_eq!(lines[0].text, "low");
        }
        other => panic!("{:?}", other),
    }
    let lines = into_result(outcome).unwrap();
    assert_eq!(lines[0].text, "low");
}

#[test]
fn timeout_with_nothing_captured_fails() {
    let mut race = SearchRace::start(&candidates(&[10, 9])).unwrap();
    assert!(race.on_report(1, Some(Vec::new())).outcome.is_none());
    let step = race.on_timeout();
    assert_eq!(step.cancel, vec![0]);
    let outcome = step.outcome.unwrap();
    assert!(matches!(outcome, SearchOutcome::Timeout { partial: None }));
    assert_eq!(into_result(outcome).unwrap_err(), SearchError::TimedOut);
}

#[test]
fn answers_that_fit_no_candidate_are_ignored() {
    let mut race = SearchRace::start(&candidates(&[10, 9])).unwrap();
    let step = race.on_report(7, Some(words("x")));
    assert!(step.cancel.is_empty() && step.outcome.is_none());
    assert!(race.on_report(1, None).outcome.is_none());
    // a second answer of the same candidate
    let step = race.on_report(1, Some(words("again")));
    assert!(step.cancel.is_empty() && step.outcome.is_none());
    assert!(race.best.is_none());
    assert_eq!(race.reported, vec![false, true]);
}

#[test]
fn found_lyrics_reach_the_caller() {
    let lines = parse_lrc_format("[00:01.00]a\n[00:02.00]b");
    let got = into_result(SearchOutcome::Found { winner: 0, lines }).unwrap();
    assert_eq!(got.len(), 2);
    assert_eq!(got[1].text, "b");
}

#[test]
fn messages_of_the_errors() {
    assert_eq!(SearchError::NoCandidates.message(), "No valid search candidates");
    assert_eq!(SearchError::AllEmpty.message(), "No lyrics found: All candidates returned empty");
    assert_eq!(SearchError::TimedOut.message(), "No lyrics found: Overall timeout with no results");
}

#[test]
fn race_knows_whether_it_is_sound() {
    let mut race = SearchRace::start(&candidates(&[10, 9, 8])).unwrap();
    assert!(race.is_sound());
    race.on_report(2, Some(words("eight")));
    assert!(race.is_sound());
    race.on_report(0, Some(words("ten")));
    assert!(race.is_sound() && race.finished);
    // a best result at the top priority in a race that goes on
    let mut bad = SearchRace::start(&candidates(&[10, 9])).unwrap();
    bad.best = Some(0);
    bad.best_lines = words("x");
    bad.reported[0] = true;
    assert!(!bad.is_sound());
    // lists of different lengths
    let mut bad = SearchRace::start(&candidates(&[10, 9])).unwrap();
    bad.cancelled.pop();
    assert!(!bad.is_sound());
    // a priority above the top
    let mut bad = SearchRace::start(&candidates(&[10, 9])).unwrap();
    bad.top = 9;
    assert!(!bad.is_sound());
    // a race that goes on though all have answered
    let mut bad = SearchRace::start(&candidates(&[10])).unwrap();
    bad.reported[0] = true;
    assert!(!bad.is_sound());
    // a finished race with someone still at work
    let mut bad = SearchRace::start(&candidates(&[10, 9])).unwrap();
    bad.finished = true;
    assert!(!bad.is_sound());
}
