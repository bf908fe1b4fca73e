use lyryc::candidates::{build_candidates, is_worded, make_candidate, LOWEST_PRIORITY, TOP_PRIORITY};
use lyryc::query::{exact_url, title_url, wildcard_url};

#[test]
fn all_eight_candidates_in_order() {
    let c = build_candidates("Artist - Song (Official Video)", "Artist");
    let shown: Vec<(u8, &str, &str)> =
        c.iter().map(|c| (c.priority, c.url.as_str(), c.description.as_str())).collect();
    assert_eq!(
        shown,
        vec![
            (
                10,
                "https://lrclib.net/api/search?q=Artist%20-%20Song%20%28Official%20Video%29%20Artist",
                "wildcard: 'Artist - Song (Official Video)' 'Artist'"
            ),
            (
                9,
                "https://lrclib.net/api/search?q=Artist%20-%20Song%20%28Official%20Video%29",
                "wildcard: 'Artist - Song (Official Video)'"
            ),
            (8, "https://lrclib.net/api/search?q=Song%20Artist", "wildcard cleaned: 'Song' 'Artist'"),
            (7, "https://lrclib.net/api/search?q=Song", "wildcard cleaned: 'Song'"),
            (
                6,
                "https://lrclib.net/api/search?track_name=Artist%20-%20Song%20%28Official%20Video%29&artist_name=Artist",
                "exact: 'Artist - Song (Official Video)' by 'Artist'"
            ),
            (
                5,
                "https://lrclib.net/api/search?track_name=Song%20%28Official%20Video%29&artist_name=Artist",
                "exact without artist: 'Song (Official Video)' by 'Artist'"
            ),
            (
                4,
                "https://lrclib.net/api/search?track_name=Song&artist_name=Artist",
                "exact cleaned: 'Song' by 'Artist'"
            ),
            (
                3,
                "https://lrclib.net/api/search?track_name=Song&artist_name=Artist",
                "exact cleaned without artist: 'Song' by 'Artist'"
            ),
        ]
    );
}

#[test]
fn priorities_fall_strictly() {
    for (title, artist) in [("Song", "Artist"), ("Artist - Song", "Artist"), ("Song", ""), ("「題名です」", "歌手")] {
        let c = build_candidates(title, artist);
        for w in c.windows(2) {
            assert!(w[0].priority > w[1].priority);
        }
        for x in &c {
            assert!(LOWEST_PRIORITY <= x.priority && x.priority <= TOP_PRIORITY);
        }
    }
}

#[test]
fn blank_artist_leaves_the_title_queries() {
    let c = build_candidates("Song Title - YouTube", "  ");
    let shown: Vec<(u8, &str)> = c.iter().map(|c| (c.priority, c.url.as_str())).collect();
    assert_eq!(
        shown,
        vec![
            (9, "https://lrclib.net/api/search?q=Song%20Title%20-%20YouTube"),
            (7, "https://lrclib.net/api/search?q=Song%20Title"),
        ]
    );
}

#[test]
fn blank_title_leaves_no_candidate() {
    assert!(build_candidates("", "Artist").is_empty());
    assert!(build_candidates("   ", "Artist").is_empty());
    assert!(build_candidates("", "").is_empty());
}

#[test]
fn queries_are_percent_encoded_byte_by_byte() {
    assert_eq!(
        wildcard_url("AZaz09-._~ !*'();:@&=+$,/?#[]%"),
        "https://lrclib.net/api/search?q=AZaz09-._~%20%21%2A%27%28%29%3B%3A%40%26%3D%2B%24%2C%2F%3F%23%5B%5D%25"
    );
    assert_eq!(title_url("é私"), "https://lrclib.net/api/search?track_name=%C3%A9%E7%A7%81");
    assert_eq!(
        exact_url("a b", "c&d"),
        "https://lrclib.net/api/search?track_name=a%20b&artist_name=c%26d"
    );
    assert_eq!(wildcard_url(""), "https://lrclib.net/api/search?q=");
}

#[test]
fn one_candidate_at_a_time() {
    let c = make_candidate("Title", "Artist", 10).unwrap();
    assert_eq!(c.url, "https://lrclib.net/api/search?q=Title%20Artist");
    assert_eq!(c.description, "wildcard: 'Title' 'Artist'");
    assert_eq!(c.copy().url, c.url);
    let c = make_candidate("Title", "", 7).unwrap();
    assert_eq!(c.priority, 7);
    assert_eq!(c.description, "wildcard cleaned: 'Title'");
    assert!(make_candidate("Title", "", 8).is_none());
    assert!(make_candidate(" ", "Artist", 9).is_none());
    assert!(is_worded(" x "));
    assert!(!is_worded(" \t"));
}
