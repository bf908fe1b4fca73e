use lyryc::fetch::{
    choose_raw_track, needs_fallback, plan_search, raw_exact_url, raw_wildcard_url, RawError,
    OVERALL_TIMEOUT_SECS, REQUEST_TIMEOUT_SECS, USER_AGENT,
};
use lyryc::race::SearchError;
use lyryc::records::LyricsRecord;
use lyryc::tracks::{classify_message, observe_track, track_changed, MessageKind};
use lyryc::types::TrackInfo;

fn track(title: &str, artist: &str) -> TrackInfo {
    TrackInfo {
        title: title.to_string(),
        artist: artist.to_string(),
        album: None,
        duration: Some(21_300),
        thumbnail: None,
    }
}

#[test]
fn messages_are_told_apart_by_type() {
    for t in ["TRACK_DETECTED", "TRACK_PAUSED", "TRACK_STOPPED", "TRACK_PROGRESS"] {
        assert_eq!(classify_message(&t.to_string()), MessageKind::TrackUpdate);
    }
    assert_eq!(classify_message(&"ping".to_string()), MessageKind::Ping);
    assert_eq!(classify_message(&"PING".to_string()), MessageKind::Other);
    assert_eq!(classify_message(&"track_detected".to_string()), MessageKind::Other);
    assert_eq!(classify_message(&"".to_string()), MessageKind::Other);
}

#[test]
fn first_track_is_announced() {
    let mut known = None;
    assert!(observe_track(&mut known, track("Song", "Artist"), None));
    assert_eq!(known.as_ref().unwrap().title, "Song");
}

#[test]
fn same_track_is_not_announced_again() {
    let mut known = Some(track("Song", "Artist"));
    assert!(!observe_track(&mut known, track("Song", "Artist"), Some(0)));
    assert!(observe_track(&mut known, track("Song", "Other"), Some(0)));
    assert_eq!(known.as_ref().unwrap().artist, "Other");
    assert!(observe_track(&mut known, track("Next", "Other"), None));
    assert_eq!(known.as_ref().unwrap().title, "Next");
}

#[test]
fn update_in_the_middle_of_a_track_changes_nothing() {
    let mut known = Some(track("Song", "Artist"));
    assert!(!observe_track(&mut known, track("Next", "Artist"), Some(1)));
    assert_eq!(known.as_ref().unwrap().title, "Song");
    let mut none = None;
    assert!(!observe_track(&mut none, track("Next", "Artist"), Some(250)));
    assert!(none.is_none());
    assert!(track_changed(&None, &track("a", "b")));
    assert!(!track_changed(&Some(track("a", "b")), &track("a", "b")));
}

#[test]
fn search_is_planned_with_candidates_and_a_race() {
    let plan = plan_search("Song", "Artist").unwrap();
    assert_eq!(plan.candidates.len(), 8);
    assert_eq!(plan.race.priorities, vec![10, 9, 8, 7, 6, 5, 4, 3]);
    assert_eq!(plan.race.top, 10);
    assert!(matches!(plan_search("  ", "Artist"), Err(SearchError::NoCandidates)));
    assert_eq!(USER_AGENT, "Lyryc/0.1.0");
    assert_eq!((REQUEST_TIMEOUT_SECS, OVERALL_TIMEOUT_SECS), (10, 30));
}

#[test]
fn raw_queries() {
    assert_eq!(
        raw_exact_url("My Song", "The Band"),
        "https://lrclib.net/api/search?track_name=My%20Song&artist_name=The%20Band"
    );
    assert_eq!(raw_exact_url("My Song", " "), "https://lrclib.net/api/search?track_name=My%20Song");
    assert_eq!(raw_wildcard_url("My Song", "The Band"), "https://lrclib.net/api/search?q=My%20Song%20The%20Band");
    assert_eq!(raw_wildcard_url("My Song", ""), "https://lrclib.net/api/search?q=My%20Song%20");
}

#[test]
fn raw_track_is_chosen_with_its_place() {
    let rec = |name: &str, synced: Option<&str>| LyricsRecord {
        track_name: Some(name.to_string()),
        artist_name: None,
        album_name: None,
        plain_lyrics: Some("p".to_string()),
        synced_lyrics: synced.map(|s| s.to_string()),
    };
    let records = vec![rec("a", None), rec("b", Some("[00:01.00]x"))];
    let (i, t) = choose_raw_track(&records).unwrap();
    assert_eq!((i, t.track_name.as_str(), t.plain_lyrics.as_str()), (1, "b", "p"));
    let (i, t) = choose_raw_track(&vec![rec("a", Some(" "))]).unwrap();
    assert_eq!((i, t.synced_lyrics.as_str()), (0, " "));
    let e = choose_raw_track(&Vec::new()).unwrap_err();
    assert_eq!(e, RawError::NoResults);
    assert_eq!(e.message(), "No LRCLib results");
    assert!(needs_fallback(&Vec::new()));
    assert!(!needs_fallback(&records));
}
