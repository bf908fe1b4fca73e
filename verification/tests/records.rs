use lyryc::records::{
    decode_answer, decode_record, records_fit, select_best_record, select_raw_record,
    shape_raw_track, try_decode_answer, LyricsRecord,
};

fn record(name: &str, plain: Option<&str>, synced: Option<&str>) -> LyricsRecord {
    LyricsRecord {
        track_name: Some(name.to_string()),
        artist_name: None,
        album_name: Some("Album".to_string()),
        plain_lyrics: plain.map(|s| s.to_string()),
        synced_lyrics: synced.map(|s| s.to_string()),
    }
}

#[test]
fn timed_lyrics_are_preferred() {
    let records = vec![
        record("a", Some("plain"), None),
        record("b", None, Some("  ")),
        record("c", Some("plain"), Some("[00:01.00]timed")),
        record("d", None, Some("[00:02.00]later")),
    ];
    assert_eq!(select_best_record(&records), Some(2));
    assert_eq!(select_raw_record(&records), Some(2));
    let lines = decode_answer(&records);
    assert_eq!(lines.len(), 1);
    assert_eq!((lines[0].time, lines[0].text.as_str(), lines[0].duration), (100, "timed", Some(300)));
}

#[test]
fn plain_lyrics_come_second() {
    let records = vec![
        record("a", None, None),
        record("b", Some(" \n "), Some("")),
        record("c", Some("one\ntwo"), None),
    ];
    assert_eq!(select_best_record(&records), Some(2));
    assert_eq!(select_raw_record(&records), Some(0));
    let lines = decode_answer(&records);
    assert_eq!(lines.len(), 2);
    assert_eq!((lines[1].time, lines[1].text.as_str(), lines[1].duration), (500, "two", Some(500)));
}

#[test]
fn first_record_is_the_fallback() {
    let records = vec![record("a", None, None), record("b", Some(""), Some(" "))];
    assert_eq!(select_best_record(&records), Some(0));
    assert_eq!(select_raw_record(&records), Some(0));
    assert!(decode_answer(&records).is_empty());
}

#[test]
fn empty_answer_has_no_record() {
    assert_eq!(select_best_record(&Vec::new()), None);
    assert_eq!(select_raw_record(&Vec::new()), None);
    assert!(decode_answer(&Vec::new()).is_empty());
}

#[test]
fn blank_timed_lyrics_fall_back_to_plain() {
    let lines = decode_record(&record("a", Some("words"), Some("   ")));
    assert_eq!(lines.len(), 1);
    assert_eq!(lines[0].duration, Some(500));
    // timed lyrics without one timed line decode to nothing; the plain ones are not consulted
    assert!(decode_record(&record("a", Some("words"), Some("no stamps"))).is_empty());
}

#[test]
fn raw_track_takes_the_fields_as_they_are() {
    let raw = shape_raw_track(&record("Name", None, Some("[00:01.00]x")));
    assert_eq!(raw.track_name, "Name");
    assert_eq!(raw.artist_name, "");
    assert_eq!(raw.album_name, "Album");
    assert_eq!(raw.plain_lyrics, "");
    assert_eq!(raw.synced_lyrics, "[00:01.00]x");
}

#[test]
fn answers_of_ordinary_size_are_decoded() {
    let records = vec![record("a", Some("one\ntwo\nthree"), None)];
    assert!(records_fit(&records));
    let lines = try_decode_answer(&records).unwrap();
    assert_eq!(lines.len(), 3);
    assert_eq!(lines[2].time, 1000);
    assert!(try_decode_answer(&Vec::new()).unwrap().is_empty());
}
