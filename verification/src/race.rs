//! The race between the candidates of one search.
//!
//! All candidates are asked at once and answer in any order. The race is the
//! record of what has answered so far and the rule for what to do on each
//! answer: which result counts as the best, whom to tell to stop, and when
//! the search is over. Whoever asks the provider feeds the answers in and
//! carries the decisions out.

use crate::candidates::SearchCandidate;
use crate::types::{copy_lines, LineView, LyricLine};
use vstd::prelude::*;

verus! {

/// The state of a race as a mathematical value.
pub struct RaceState {
    /// The priority of each candidate.
    pub priorities: Seq<u8>,
    /// Which candidates have answered.
    pub reported: Seq<bool>,
    /// Which candidates were told to stop.
    pub cancelled: Seq<bool>,
    /// The best result so far: the candidate and its lines.
    pub best: Option<(int, Seq<LineView>)>,
    /// The highest priority among the candidates.
    pub top: u8,
    /// Whether the search is over.
    pub finished: bool,
}

/// How a search ended.
pub enum OutcomeView {
    /// A candidate won.
    Found { winner: int, lines: Seq<LineView> },
    /// Every candidate answered, none with lyrics.
    AllEmpty,
    /// Time ran out; the best result by then, if any.
    Timeout { partial: Option<(int, Seq<LineView>)> },
}

/// What can happen to a race.
pub enum Event {
    /// A candidate answered: with lines, or with nothing where it failed
    /// or was stopped.
    Report { index: int, lines: Option<Seq<LineView>> },
    /// The time for the whole search ran out.
    Timeout,
}

impl RaceState {
    /// The number of candidates.
    pub open spec fn len(self) -> int {
        self.priorities.len() as int
    }

    /// The state is one that a race can be in.
    pub open spec fn wf(self) -> bool {
        &&& self.reported.len() == self.len()
        &&& self.cancelled.len() == self.len()
        &&& forall|i: int| 0 <= i < self.len() ==> self.priorities[i] <= self.top
        &&& match self.best {
            Some((b, lines)) => 0 <= b < self.len() && self.reported[b] && lines.len() > 0 && (
            !self.finished ==> self.priorities[b] < self.top),
            None => true,
        }
        &&& !self.finished ==> exists|i: int| 0 <= i < self.len() && !self.reported[i]
        &&& self.finished ==> forall|i: int|
            0 <= i < self.len() ==> self.reported[i] || self.cancelled[i]
    }

    /// The race still waits for candidate `i`.
    pub open spec fn awaits(self, i: int) -> bool {
        !self.finished && 0 <= i < self.len() && !self.reported[i]
    }

    /// Candidate `i` is at work: it has not answered and was not told to stop.
    pub open spec fn running(self, i: int) -> bool {
        0 <= i < self.len() && !self.reported[i] && !self.cancelled[i]
    }

    /// An answer of candidate `i` takes the place of the best result: it has
    /// lines, and there is no best result yet or `i` ranks strictly higher.
    pub open spec fn supersedes(self, i: int, lines: Option<Seq<LineView>>) -> bool {
        match lines {
            Some(l) => l.len() > 0 && match self.best {
                Some((b, _)) => self.priorities[i] > self.priorities[b],
                None => true,
            },
            None => false,
        }
    }

    /// The race at its start.
    pub open spec fn initial(self) -> bool {
        &&& self.wf()
        &&& !self.finished
        &&& self.best is None
        &&& forall|i: int| 0 <= i < self.len() ==> !self.reported[i] && !self.cancelled[i]
        &&& exists|i: int| 0 <= i < self.len() && self.priorities[i] == self.top
    }
}

/// Every candidate has answered.
pub open spec fn all_true(flags: Seq<bool>) -> bool {
    forall|i: int| 0 <= i < flags.len() ==> flags[i]
}

/// The stop marks after every candidate that has not answered and ranks
/// below `limit` is told to stop.
pub open spec fn stop_below(
    priorities: Seq<u8>,
    reported: Seq<bool>,
    cancelled: Seq<bool>,
    limit: int,
) -> Seq<bool> {
    Seq::new(cancelled.len(), |j: int| cancelled[j] || (!reported[j] && priorities[j] < limit))
}

/// The first `n` candidates that `after` marks and `before` did not, in order.
pub open spec fn newly_stopped(before: Seq<bool>, after: Seq<bool>, n: int) -> Seq<int>
    decreases n,
{
    if n <= 0 {
        Seq::empty()
    } else if after[n - 1] && !before[n - 1] {
        newly_stopped(before, after, n - 1).push(n - 1)
    } else {
        newly_stopped(before, after, n - 1)
    }
}

/// The rank below which candidates are stopped by an answer of `i`: all
/// ranks when the search is over, the rank of `i` when it is the new best,
/// none otherwise.
pub open spec fn stop_limit(s: RaceState, i: int, lines: Option<Seq<LineView>>) -> int {
    if report_finishes(s, i, lines) {
        256
    } else if s.supersedes(i, lines) {
        s.priorities[i] as int
    } else {
        0
    }
}

/// An answer of `i` ends the search: it is the new best at the top rank, or
/// it is the last answer.
pub open spec fn report_finishes(s: RaceState, i: int, lines: Option<Seq<LineView>>) -> bool {
    (s.supersedes(i, lines) && s.priorities[i] == s.top) || all_true(s.reported.update(i, true))
}

/// The race after candidate `i` answered. An answer that the race does not
/// wait for changes nothing.
pub open spec fn after_report(s: RaceState, i: int, lines: Option<Seq<LineView>>) -> RaceState {
    if !s.awaits(i) {
        s
    } else {
        let reported = s.reported.update(i, true);
        RaceState {
            priorities: s.priorities,
            reported,
            cancelled: stop_below(s.priorities, reported, s.cancelled, stop_limit(s, i, lines)),
            best: if s.supersedes(i, lines) {
                Some((i, lines->0))
            } else {
                s.best
            },
            top: s.top,
            finished: report_finishes(s, i, lines),
        }
    }
}

/// How the search ends on an answer of `i`, if it does: with the best result
/// there is, or with none when all have answered without lyrics.
pub open spec fn outcome_of_report(s: RaceState, i: int, lines: Option<Seq<LineView>>) -> Option<
    OutcomeView,
> {
    if s.awaits(i) && report_finishes(s, i, lines) {
        match after_report(s, i, lines).best {
            Some((b, l)) => Some(OutcomeView::Found { winner: b, lines: l }),
            None => Some(OutcomeView::AllEmpty),
        }
    } else {
        None
    }
}

/// The race after the time ran out: over, everyone who has not answered
/// told to stop.
pub open spec fn after_timeout(s: RaceState) -> RaceState {
    if s.finished {
        s
    } else {
        RaceState {
            priorities: s.priorities,
            reported: s.reported,
            cancelled: stop_below(s.priorities, s.reported, s.cancelled, 256),
            best: s.best,
            top: s.top,
            finished: true,
        }
    }
}

/// How the search ends when the time runs out: with whatever was captured.
pub open spec fn outcome_of_timeout(s: RaceState) -> Option<OutcomeView> {
    if s.finished {
        None
    } else {
        Some(OutcomeView::Timeout { partial: s.best })
    }
}

/// The race after an event.
pub open spec fn after_event(s: RaceState, e: Event) -> RaceState {
    match e {
        Event::Report { index, lines } => after_report(s, index, lines),
        Event::Timeout => after_timeout(s),
    }
}

/// How the search ends on an event, if it does.
pub open spec fn outcome_of_event(s: RaceState, e: Event) -> Option<OutcomeView> {
    match e {
        Event::Report { index, lines } => outcome_of_report(s, index, lines),
        Event::Timeout => outcome_of_timeout(s),
    }
}

/// The race after a run of events.
pub open spec fn after_events(s: RaceState, events: Seq<Event>) -> RaceState
    decreases events.len(),
{
    if events.len() == 0 {
        s
    } else {
        after_event(after_events(s, events.drop_last()), events.last())
    }
}

/// How the search ended in a run of events, if it did.
pub open spec fn outcome_of_events(s: RaceState, events: Seq<Event>) -> Option<OutcomeView>
    decreases events.len(),
{
    if events.len() == 0 {
        None
    } else {
        match outcome_of_events(s, events.drop_last()) {
            Some(o) => Some(o),
            None => outcome_of_event(after_events(s, events.drop_last()), events.last()),
        }
    }
}

/// The lyrics that an outcome hands to the caller, if any.
pub open spec fn lyrics_of(o: OutcomeView) -> Option<Seq<LineView>> {
    match o {
        OutcomeView::Found { winner, lines } => Some(lines),
        OutcomeView::AllEmpty => None,
        OutcomeView::Timeout { partial } => match partial {
            Some((_, lines)) => Some(lines),
            None => None,
        },
    }
}

/// An event that brings no lyrics: a failed or empty answer.
pub open spec fn brings_nothing(e: Event) -> bool {
    match e {
        Event::Report { index, lines } => match lines {
            Some(l) => l.len() == 0,
            None => true,
        },
        Event::Timeout => false,
    }
}

/// The event is an answer of candidate `i`.
pub open spec fn is_report_of(e: Event, i: int) -> bool {
    match e {
        Event::Report { index, lines } => index == i,
        Event::Timeout => false,
    }
}

/// Candidate `i` answers somewhere in the run of events.
pub open spec fn answers_in(events: Seq<Event>, i: int) -> bool {
    exists|k: int| 0 <= k < events.len() && #[trigger] is_report_of(events[k], i)
}

/// Every event keeps the race well formed.
pub proof fn lemma_event_keeps_wf(s: RaceState, e: Event)
    requires
        s.wf(),
    ensures
        after_event(s, e).wf(),
        after_event(s, e).priorities == s.priorities,
        after_event(s, e).top == s.top,
        s.finished ==> after_event(s, e) == s,
        outcome_of_event(s, e) is Some <==> !s.finished && after_event(s, e).finished,
{
    match e {
        Event::Report { index, lines } => {
            if s.awaits(index) {
                let t = after_report(s, index, lines);
                if !t.finished {
                    let j = choose|j: int| 0 <= j < t.len() && !#[trigger] t.reported[j];
                }
            }
        },
        Event::Timeout => {},
    }
}

/// Priority short-circuit: when a candidate of the top priority answers with
/// lyrics, the search is over at once, that answer wins, and every candidate
/// that has not answered is told to stop.
pub proof fn lemma_top_answer_wins(s: RaceState, i: int, lines: Seq<LineView>)
    requires
        s.wf(),
        s.awaits(i),
        s.priorities[i] == s.top,
        lines.len() > 0,
    ensures
        outcome_of_report(s, i, Some(lines)) == Some(OutcomeView::Found { winner: i, lines }),
        after_report(s, i, Some(lines)).finished,
        forall|j: int|
            0 <= j < s.len() && j != i && !s.reported[j] ==> after_report(
                s,
                i,
                Some(lines),
            ).cancelled[j],
{
}

/// A better answer stops the worse: when an answer becomes the best result
/// without ending the search, every candidate of lower priority that has not
/// answered is told to stop, and no candidate of equal or higher priority is.
pub proof fn lemma_better_answer_stops_lower(s: RaceState, i: int, lines: Seq<LineView>)
    requires
        s.wf(),
        s.awaits(i),
        s.supersedes(i, Some(lines)),
        !report_finishes(s, i, Some(lines)),
    ensures
        after_report(s, i, Some(lines)).best == Some((i, lines)),
        forall|j: int|
            0 <= j < s.len() && !s.reported[j] && j != i ==> (after_report(
                s,
                i,
                Some(lines),
            ).cancelled[j] <==> (s.cancelled[j] || s.priorities[j] < s.priorities[i])),
{
}

/// While nothing but failed and empty answers come in, no result is
/// captured, and a search that ends, ends with "all empty".
pub proof fn lemma_empty_answers_find_nothing(s: RaceState, events: Seq<Event>)
    requires
        s.wf(),
        !s.finished,
        s.best is None,
        forall|k: int| 0 <= k < events.len() ==> brings_nothing(#[trigger] events[k]),
    ensures
        after_events(s, events).wf(),
        after_events(s, events).best is None,
        after_events(s, events).priorities == s.priorities,
        match outcome_of_events(s, events) {
            Some(o) => o == OutcomeView::AllEmpty && after_events(s, events).finished,
            None => !after_events(s, events).finished,
        },
        forall|i: int|
            0 <= i < s.len() && s.reported[i] ==> #[trigger] after_events(s, events).reported[i],
        forall|k: int, i: int|
            0 <= k < events.len() && 0 <= i < s.len() && #[trigger] is_report_of(events[k], i)
                && !after_events(s, events).finished ==> after_events(s, events).reported[i],
    decreases events.len(),
{
    if events.len() > 0 {
        let front = events.drop_last();
        lemma_empty_answers_find_nothing(s, front);
        let mid = after_events(s, front);
        let e = events[events.len() - 1];
        lemma_event_keeps_wf(mid, e);
        let end = after_events(s, events);
        assert forall|k: int, i: int|
            0 <= k < events.len() && 0 <= i < s.len() && #[trigger] is_report_of(events[k], i)
                && !end.finished implies end.reported[i] by {
            if k < front.len() {
                assert(front[k] == events[k]);
            }
        }
    }
}

/// All-empty exhaustion: when every candidate answers and none brings
/// lyrics, whatever the order, the search ends with "all empty".
pub proof fn lemma_all_empty_exhaustion(s: RaceState, events: Seq<Event>)
    requires
        s.initial(),
        forall|k: int| 0 <= k < events.len() ==> brings_nothing(#[trigger] events[k]),
        forall|i: int| 0 <= i < s.len() ==> #[trigger] answers_in(events, i),
    ensures
        outcome_of_events(s, events) == Some(OutcomeView::AllEmpty),
        lyrics_of(outcome_of_events(s, events)->0) is None,
{
    lemma_empty_answers_find_nothing(s, events);
    let end = after_events(s, events);
    if !end.finished {
        let i = choose|i: int| 0 <= i < end.len() && !end.reported[i];
        assert(answers_in(events, i));
    }
}

/// Partial return at the overall timeout: when the time runs out on a race
/// that has captured a result, that result is handed to the caller.
pub proof fn lemma_timeout_returns_partial(s: RaceState)
    requires
        s.wf(),
        !s.finished,
        s.best is Some,
    ensures
        outcome_of_timeout(s) == Some(OutcomeView::Timeout { partial: s.best }),
        s.best matches Some((_, lines)) && lyrics_of(outcome_of_timeout(s)->0) == Some(lines),
        after_timeout(s).finished,
        forall|j: int| 0 <= j < s.len() && !s.reported[j] ==> after_timeout(s).cancelled[j],
{
}

/// A lower candidate that answers with lyrics while the top candidate never
/// answers: at the timeout the search returns the lower candidate's lyrics.
pub proof fn lemma_low_answer_then_timeout(s: RaceState, i: int, lines: Seq<LineView>)
    requires
        s.initial(),
        0 <= i < s.len(),
        s.priorities[i] < s.top,
        lines.len() > 0,
    ensures
        outcome_of_events(
            s,
            seq![Event::Report { index: i, lines: Some(lines) }, Event::Timeout],
        ) == Some(OutcomeView::Timeout { partial: Some((i, lines)) }),
        lyrics_of(
            outcome_of_events(
                s,
                seq![Event::Report { index: i, lines: Some(lines) }, Event::Timeout],
            )->0,
        ) == Some(lines),
{
    let report = Event::Report { index: i, lines: Some(lines) };
    let events = seq![report, Event::Timeout];
    let first = events.drop_last();
    let top = choose|t: int| 0 <= t < s.len() && s.priorities[t] == s.top;
    assert(!s.reported.update(i, true)[top]);
    assert(outcome_of_events(s, first.drop_last()) is None);
    assert(outcome_of_events(s, first) is None);
}

/// The rank of the best result so far, if there is one.
pub open spec fn best_rank(s: RaceState) -> Option<int> {
    match s.best {
        Some((b, _)) => Some(s.priorities[b] as int),
        None => None,
    }
}

/// Event `k` of a run is an answer of candidate `i` with these lines, and
/// the race took it in: the lines are not empty, and the race was waiting
/// for the candidate when the answer came.
pub open spec fn took_answer(
    s: RaceState,
    events: Seq<Event>,
    k: int,
    i: int,
    lines: Seq<LineView>,
) -> bool {
    &&& 0 <= k < events.len()
    &&& events[k] == (Event::Report { index: i, lines: Some(lines) })
    &&& lines.len() > 0
    &&& after_events(s, events.take(k)).awaits(i)
}

/// The best result is the highest-ranked answer: after any run of events on
/// a fresh race, the best result is one of the answers that the race took
/// in, no answer that it took in ranks above it, and there is a best result
/// as soon as one answer was taken in.
pub proof fn lemma_best_is_highest_answer(s: RaceState, events: Seq<Event>)
    requires
        s.wf(),
        s.best is None,
    ensures
        after_events(s, events).wf(),
        after_events(s, events).priorities == s.priorities,
        after_events(s, events).best matches Some((b, l)) ==> exists|k: int|
            took_answer(s, events, k, b, l),
        forall|k: int, i: int, lines: Seq<LineView>| #[trigger]
            took_answer(s, events, k, i, lines) ==> best_rank(after_events(s, events)) is Some
                && s.priorities[i] <= best_rank(after_events(s, events))->0,
    decreases events.len(),
{
    if events.len() > 0 {
        let front = events.drop_last();
        let last = events.last();
        let n = front.len() as int;
        let mid = after_events(s, front);
        let end = after_events(s, events);
        lemma_best_is_highest_answer(s, front);
        lemma_event_keeps_wf(mid, last);
        assert(events.take(n) =~= front);
        assert forall|k: int| 0 <= k < n implies #[trigger] events.take(k) == front.take(k) by {
            assert(events.take(k) =~= front.take(k));
        }
        assert forall|k: int, i: int, lines: Seq<LineView>|
            0 <= k < n && took_answer(s, events, k, i, lines) implies #[trigger] took_answer(
            s,
            front,
            k,
            i,
            lines,
        ) by {
            assert(events.take(k) == front.take(k));
            assert(front[k] == events[k]);
        }
        assert forall|k: int, i: int, lines: Seq<LineView>|
            took_answer(s, front, k, i, lines) implies #[trigger] took_answer(
            s,
            events,
            k,
            i,
            lines,
        ) by {
            assert(events.take(k) == front.take(k));
            assert(front[k] == events[k]);
        }
        match end.best {
            Some((b, l)) => {
                if mid.best == end.best {
                    let k = choose|k: int| took_answer(s, front, k, b, l);
                    assert(took_answer(s, events, k, b, l));
                } else {
                    assert(took_answer(s, events, n, b, l));
                }
            },
            None => {},
        }
        assert forall|k: int, i: int, lines: Seq<LineView>| #[trigger]
            took_answer(s, events, k, i, lines) implies best_rank(end) is Some && s.priorities[i]
            <= best_rank(end)->0 by {
            if k < n {
                assert(took_answer(s, front, k, i, lines));
            }
        }
    }
}

/// The race of one search.
pub struct SearchRace {
    /// The priority of each candidate, by its place in the list.
    pub priorities: Vec<u8>,
    /// Which candidates have answered.
    pub reported: Vec<bool>,
    /// Which candidates were told to stop.
    pub cancelled: Vec<bool>,
    /// The candidate of the best result so far.
    pub best: Option<usize>,
    /// The lines of the best result so far.
    pub best_lines: Vec<LyricLine>,
    /// The highest priority among the candidates.
    pub top: u8,
    /// Whether the search is over.
    pub finished: bool,
}

impl View for SearchRace {
    type V = RaceState;

    open spec fn view(&self) -> RaceState {
        RaceState {
            priorities: self.priorities@,
            reported: self.reported@,
            cancelled: self.cancelled@,
            best: match self.best {
                Some(b) => Some((b as int, self.best_lines.deep_view())),
                None => None,
            },
            top: self.top,
            finished: self.finished,
        }
    }
}

/// How a search ended.
#[derive(Debug)]
pub enum SearchOutcome {
    /// A candidate won.
    Found { winner: usize, lines: Vec<LyricLine> },
    /// Every candidate answered, none with lyrics.
    AllEmpty,
    /// Time ran out; the best result by then, if any.
    Timeout { partial: Option<(usize, Vec<LyricLine>)> },
}

impl View for SearchOutcome {
    type V = OutcomeView;

    open spec fn view(&self) -> OutcomeView {
        match self {
            SearchOutcome::Found { winner, lines } => OutcomeView::Found {
                winner: *winner as int,
                lines: lines.deep_view(),
            },
            SearchOutcome::AllEmpty => OutcomeView::AllEmpty,
            SearchOutcome::Timeout { partial } => OutcomeView::Timeout {
                partial: match partial {
                    Some((b, lines)) => Some((*b as int, lines.deep_view())),
                    None => None,
                },
            },
        }
    }
}

/// What to do after an event.
#[derive(Debug)]
pub struct Step {
    /// The candidates to tell to stop now.
    pub cancel: Vec<usize>,
    /// How the search ended, if it is over.
    pub outcome: Option<SearchOutcome>,
}

/// Why a search returned no lyrics.
#[derive(Debug, Clone, Copy, PartialEq, Eq, Structural)]
pub enum SearchError {
    /// There was nothing to ask for.
    NoCandidates,
    /// Every candidate answered, none with lyrics.
    AllEmpty,
    /// Time ran out before any lyrics came.
    TimedOut,
}

/// The view of an optional outcome.
pub open spec fn outcome_view(o: Option<SearchOutcome>) -> Option<OutcomeView> {
    match o {
        Some(o) => Some(o@),
        None => None,
    }
}

/// The candidates as numbers.
pub open spec fn indices(v: Seq<usize>) -> Seq<int> {
    Seq::new(v.len(), |i: int| v[i] as int)
}

/// The lines of an optional answer.
pub open spec fn answer_view(lines: Option<Vec<LyricLine>>) -> Option<Seq<LineView>> {
    match lines {
        Some(l) => Some(l.deep_view()),
        None => None,
    }
}

/// The priorities of a list of candidates.
pub open spec fn priorities_of(candidates: Seq<SearchCandidate>) -> Seq<u8> {
    Seq::new(candidates.len(), |i: int| candidates[i].priority)
}

impl SearchRace {
    /// Opens the race for a list of candidates; there is none to open
    /// without candidates.
    pub fn start(candidates: &Vec<SearchCandidate>) -> (r: Option<SearchRace>)
        ensures
            r is None <==> candidates.len() == 0,
            r matches Some(race) ==> race@.initial() && race@.priorities == priorities_of(
                candidates@,
            ),
    {
        if candidates.len() == 0 {
            return None;
        }
        let mut priorities: Vec<u8> = Vec::new();
        let mut reported: Vec<bool> = Vec::new();
        let mut cancelled: Vec<bool> = Vec::new();
        let mut top: u8 = candidates[0].priority;
        let ghost mut at: int = 0;
        let mut i: usize = 0;
        while i < candidates.len()
            invariant
                i <= candidates.len(),
                priorities.len() == i,
                reported.len() == i,
                cancelled.len() == i,
                forall|j: int| 0 <= j < i ==> priorities[j] == candidates[j].priority,
                forall|j: int| 0 <= j < i ==> priorities[j] <= top,
                forall|j: int| 0 <= j < i ==> !reported[j] && !cancelled[j],
                0 <= at < candidates.len(),
                at <= i,
                top == candidates[at].priority,
            decreases candidates.len() - i,
        {
            let p = candidates[i].priority;
            if p > top {
                top = p;
                proof {
                    at = i as int;
                }
            }
            priorities.push(p);
            reported.push(false);
            cancelled.push(false);
            i += 1;
        }
        let race = SearchRace {
            priorities,
            reported,
            cancelled,
            best: None,
            best_lines: Vec::new(),
            top,
            finished: false,
        };
        proof {
            assert(!race@.reported[0]);
            assert(race@.priorities[at] == race@.top);
        }
        Some(race)
    }

    /// Whether the race is in a state that a race can be in.
    pub fn is_sound(&self) -> (r: bool)
        ensures
            r == self@.wf(),
    {
        let n = self.priorities.len();
        if self.reported.len() != n || self.cancelled.len() != n {
            return false;
        }
        match self.best {
            Some(b) => {
                if b >= n || !self.reported[b] || self.best_lines.len() == 0 || (!self.finished
                    && self.priorities[b] >= self.top) {
                    assert(self.best_lines.deep_view().len() == self.best_lines.len());
                    return false;
                }
            },
            None => {},
        }
        let mut waiting = false;
        let ghost mut who: int = 0;
        let mut i: usize = 0;
        while i < n
            invariant
                i <= n,
                n == self.priorities.len(),
                self.reported.len() == n,
                self.cancelled.len() == n,
                forall|j: int| 0 <= j < i ==> self.priorities[j] <= self.top,
                self.finished ==> forall|j: int|
                    0 <= j < i ==> self.reported[j] || self.cancelled[j],
                waiting ==> 0 <= who < i && !self.reported[who],
                !waiting ==> forall|j: int| 0 <= j < i ==> self.reported[j],
            decreases n - i,
        {
            if self.priorities[i] > self.top {
                return false;
            }
            if !self.reported[i] {
                if self.finished && !self.cancelled[i] {
                    return false;
                }
                waiting = true;
                proof {
                    who = i as int;
                }
            }
            i += 1;
        }
        if !self.finished && !waiting {
            return false;
        }
        proof {
            assert(self.best_lines.deep_view().len() == self.best_lines.len());
        }
        true
    }

    /// Whether every candidate has answered.
    fn all_reported(&self) -> (r: bool)
        ensures
            r == all_true(self.reported@),
    {
        let mut i: usize = 0;
        while i < self.reported.len()
            invariant
                i <= self.reported.len(),
                forall|j: int| 0 <= j < i ==> self.reported[j],
            decreases self.reported.len() - i,
        {
            if !self.reported[i] {
                return false;
            }
            i += 1;
        }
        true
    }

    /// Tells every candidate that has not answered and ranks below `limit`
    /// to stop, and lists those that were at work until now.
    fn stop(&mut self, limit: u16) -> (r: Vec<usize>)
        requires
            old(self).reported.len() == old(self).priorities.len(),
            old(self).cancelled.len() == old(self).priorities.len(),
        ensures
            final(self).cancelled@ == stop_below(
                old(self).priorities@,
                old(self).reported@,
                old(self).cancelled@,
                limit as int,
            ),
            indices(r@) == newly_stopped(
                old(self).cancelled@,
                final(self).cancelled@,
                old(self).priorities.len() as int,
            ),
            final(self).priorities == old(self).priorities,
            final(self).reported == old(self).reported,
            final(self).best == old(self).best,
            final(self).best_lines == old(self).best_lines,
            final(self).top == old(self).top,
            final(self).finished == old(self).finished,
    {
        let ghost before = self.cancelled@;
        let ghost after = stop_below(self.priorities@, self.reported@, before, limit as int);
        let mut out: Vec<usize> = Vec::new();
        let n = self.priorities.len();
        let mut j: usize = 0;
        while j < n
            invariant
                j <= n,
                n == self.priorities.len(),
                self.reported.len() == n,
                self.cancelled.len() == n,
                self.priorities == old(self).priorities,
                self.reported == old(self).reported,
                self.best == old(self).best,
                self.best_lines == old(self).best_lines,
                self.top == old(self).top,
                self.finished == old(self).finished,
                before == old(self).cancelled@,
                before.len() == n,
                after.len() == n,
                after == stop_below(self.priorities@, self.reported@, before, limit as int),
                forall|k: int| 0 <= k < j ==> self.cancelled[k] == after[k],
                forall|k: int| j <= k < n ==> self.cancelled[k] == before[k],
                indices(out@) == newly_stopped(before, after, j as int),
            decreases n - j,
        {
            if !self.cancelled[j] && !self.reported[j] && (self.priorities[j] as u16) < limit {
                self.cancelled[j] = true;
                out.push(j);
            }
            j += 1;
        }
        out
    }

    /// Takes in the answer of candidate `index`: its lines, or nothing where
    /// it failed or was stopped. Says whom to stop now and whether the
    /// search is over.
    pub fn on_report(&mut self, index: usize, lines: Option<Vec<LyricLine>>) -> (step: Step)
        requires
            old(self)@.wf(),
        ensures
            final(self)@ == after_report(old(self)@, index as int, answer_view(lines)),
            final(self)@.wf(),
            outcome_view(step.outcome) == outcome_of_report(
                old(self)@,
                index as int,
                answer_view(lines),
            ),
            indices(step.cancel@) == newly_stopped(
                old(self)@.cancelled,
                final(self)@.cancelled,
                old(self)@.len(),
            ),
    {
        let ghost s = self@;
        let ghost answer = answer_view(lines);
        proof {
            lemma_event_keeps_wf(s, Event::Report { index: index as int, lines: answer });
        }
        if self.finished || index >= self.priorities.len() || self.reported[index] {
            proof {
                lemma_nothing_stopped(s.cancelled, s.len());
            }
            return Step { cancel: Vec::new(), outcome: None };
        }
        self.reported[index] = true;
        let priority = self.priorities[index];
        let better = match &lines {
            Some(l) => l.len() > 0 && match self.best {
                Some(b) => priority > self.priorities[b],
                None => true,
            },
            None => false,
        };
        if better {
            match lines {
                Some(l) => {
                    self.best = Some(index);
                    self.best_lines = l;
                },
                None => {},
            }
        }
        let over = (better && priority == self.top) || self.all_reported();
        let limit: u16 = if over {
            256
        } else if better {
            priority as u16
        } else {
            0
        };
        self.finished = over;
        let cancel = self.stop(limit);
        let outcome = if over {
            match self.best {
                Some(b) => Some(
                    SearchOutcome::Found { winner: b, lines: copy_lines(&self.best_lines) },
                ),
                None => Some(SearchOutcome::AllEmpty),
            }
        } else {
            None
        };
        Step { cancel, outcome }
    }

    /// Takes in the end of the time for the whole search.
    pub fn on_timeout(&mut self) -> (step: Step)
        requires
            old(self)@.wf(),
        ensures
            final(self)@ == after_timeout(old(self)@),
            final(self)@.wf(),
            outcome_view(step.outcome) == outcome_of_timeout(old(self)@),
            indices(step.cancel@) == newly_stopped(
                old(self)@.cancelled,
                final(self)@.cancelled,
                old(self)@.len(),
            ),
    {
        let ghost s = self@;
        if self.finished {
            proof {
                lemma_nothing_stopped(s.cancelled, s.len());
            }
            return Step { cancel: Vec::new(), outcome: None };
        }
        self.finished = true;
        let cancel = self.stop(256);
        let partial = match self.best {
            Some(b) => Some((b, copy_lines(&self.best_lines))),
            None => None,
        };
        Step { cancel, outcome: Some(SearchOutcome::Timeout { partial }) }
    }
}

/// Where no mark changes, no one is newly stopped.
pub proof fn lemma_nothing_stopped(marks: Seq<bool>, n: int)
    ensures
        newly_stopped(marks, marks, n) == Seq::<int>::empty(),
    decreases n,
{
    if n > 0 {
        lemma_nothing_stopped(marks, n - 1);
    }
}

/// What the caller gets of an outcome: the lyrics, or the reason why there
/// are none.
pub open spec fn result_view(o: OutcomeView) -> Result<Seq<LineView>, SearchError> {
    match o {
        OutcomeView::Found { winner, lines } => Ok(lines),
        OutcomeView::AllEmpty => Err(SearchError::AllEmpty),
        OutcomeView::Timeout { partial } => match partial {
            Some((_, lines)) => Ok(lines),
            None => Err(SearchError::TimedOut),
        },
    }
}

/// Hands the lyrics of an outcome to the caller, or the reason why there
/// are none.
pub fn into_result(outcome: SearchOutcome) -> (r: Result<Vec<LyricLine>, SearchError>)
    ensures
        match r {
            Ok(lines) => result_view(outcome@) == Ok::<Seq<LineView>, SearchError>(
                lines.deep_view(),
            ),
            Err(e) => result_view(outcome@) == Err::<Seq<LineView>, SearchError>(e),
        },
        r is Ok <==> lyrics_of(outcome@) is Some,
{
    match outcome {
        SearchOutcome::Found { winner, lines } => Ok(lines),
        SearchOutcome::AllEmpty => Err(SearchError::AllEmpty),
        SearchOutcome::Timeout { partial } => match partial {
            Some((_, lines)) => Ok(lines),
            None => Err(SearchError::TimedOut),
        },
    }
}

impl SearchError {
    /// The message for the caller.
    pub fn message(&self) -> (r: String)
        ensures
            r@ == match self {
                SearchError::NoCandidates => "No valid search candidates"@,
                SearchError::AllEmpty => "No lyrics found: All candidates returned empty"@,
                SearchError::TimedOut => "No lyrics found: Overall timeout with no results"@,
            },
    {
        match self {
            SearchError::NoCandidates => "No valid search candidates".to_owned(),
            SearchError::AllEmpty => "No lyrics found: All candidates returned empty".to_owned(),
            SearchError::TimedOut => "No lyrics found: Overall timeout with no results".to_owned(),
        }
    }
}

} // verus!
