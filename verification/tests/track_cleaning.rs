use lyryc::track_cleaning::{clean_track_name, remove_artist_from_track};

#[test]
fn cleans_youtube_suffixes_and_brackets() {
    let input = "【MV】私じゃなかったんだね。(Official Video) - YouTube Music";
    let cleaned = clean_track_name(input);
    assert!(cleaned.contains("私じゃなかったんだね"));
    assert!(!cleaned.contains("YouTube"));
}

#[test]
fn test_individual_cleaning_patterns() {
    let test_cases = vec![
        ("【MV】春に揺られど君想う【Official】", "春に揺られど君想う"),
        ("アーティスト「タイトル」/Album", "タイトル"),
        ("Song Title - YouTube Music", "Song Title"),
        ("Song Title (Official Music Video)", "Song Title"),
        ("Song Title (feat. Artist)", "Song Title"),
        ("Artist - Song Title / Album", "Artist"),
        (
            "ロクデナシ「About You」/ Rokudenashi - About You【Official Music Video】",
            "About You",
        ),
    ];

    for (input, _expected) in test_cases {
        let cleaned = clean_track_name(input);
        println!("'{}' -> '{}'", input, cleaned);
    }
}

#[test]
fn cleans_japanese_title_with_romaji_suffix_after_hyphen() {
    // both segments have text, the first is not three times the second:
    // the segment after the dash is the track
    let input = "私じゃなかったんだね。 - Watashijyanakattandane.";
    let cleaned = clean_track_name(input);
    assert_eq!(cleaned, "Watashijyanakattandane.");
}

#[test]
fn segment_after_a_dash_is_the_track() {
    assert_eq!(clean_track_name("Artist - Song Title"), "Song Title");
    assert_eq!(clean_track_name("歌手 - 曲名"), "曲名");
}

#[test]
fn featured_artist_in_parentheses_is_removed() {
    assert_eq!(clean_track_name("Song Title (feat. Artist)"), "Song Title");
}

#[test]
fn quoted_title_is_taken_at_once() {
    assert_eq!(clean_track_name("アーティスト「タイトル」/Album"), "タイトル");
    assert_eq!(
        clean_track_name("ロクデナシ「About You」/ Rokudenashi - About You【Official Music Video】"),
        "About You"
    );
    assert_eq!(clean_track_name("Band『Long Title』(Official Video)"), "Long Title");
}

#[test]
fn quotation_marks_come_before_corner_brackets() {
    assert_eq!(clean_track_name("『Second』 and 「First One」"), "First One");
}

#[test]
fn corner_brackets_come_before_lenticular_brackets() {
    assert_eq!(clean_track_name("【Some Artist】『Song Name』"), "Song Name");
}

#[test]
fn short_quoted_text_is_not_extracted() {
    // two characters inside the marks: the cascade goes on and unwraps the whole title
    assert_eq!(clean_track_name("「ab」"), "ab");
    assert_eq!(clean_track_name("「a」"), "a");
}

#[test]
fn middle_between_two_bracket_pairs_is_the_title() {
    assert_eq!(clean_track_name("【MV】春に揺られど君想う【Official】"), "春に揺られど君想う");
    assert_eq!(clean_track_name("【A】Middle Part | more【B】"), "Middle Part");
}

#[test]
fn bracket_content_is_the_title_unless_it_is_a_label() {
    assert_eq!(clean_track_name("【Real Title】"), "Real Title");
    assert_eq!(clean_track_name("Song Name【Official Video】"), "Song Name");
    assert_eq!(clean_track_name("Song Name【Cover】"), "Song Name");
}

#[test]
fn platform_suffix_is_removed() {
    assert_eq!(clean_track_name("Song Title - YouTube Music"), "Song Title");
    assert_eq!(clean_track_name("Song Title - YouTube"), "Song Title");
    assert_eq!(clean_track_name("Song Title (Official Music Video)"), "Song Title");
    assert_eq!(clean_track_name("Song Title [4K Remaster]"), "Song Title");
    assert_eq!(clean_track_name("Song Title.mp4"), "Song Title");
}

#[test]
fn rule_that_would_leave_too_little_is_dropped() {
    // deleting the parenthesis would leave nothing
    assert_eq!(clean_track_name("(Official Video)"), "(Official Video)");
    // one character left is too short for a noise rule
    assert_eq!(clean_track_name("A (Official Video)"), "A (Official Video)");
}

#[test]
fn slash_keeps_what_stands_before_it() {
    assert_eq!(clean_track_name("Song Title / Album Name"), "Song Title");
}

#[test]
fn slash_rule_yields_to_a_guest_credit() {
    assert_eq!(clean_track_name("Song feat. B / Album"), "Song");
}

#[test]
fn artist_much_longer_than_track_is_no_artist() {
    // 30 characters before the dash, 3 after it: the dash split is refused,
    // the later rule on " - " takes the second part
    assert_eq!(clean_track_name("An Extremely Long Title Indeed - Abc"), "Abc");
    // without blanks round the hyphen nothing splits
    assert_eq!(clean_track_name("An Extremely Long Title Indeed-Abc"), "An Extremely Long Title Indeed-Abc");
}

#[test]
fn track_same_as_artist_is_refused() {
    assert_eq!(clean_track_name("Same-Same"), "Same-Same");
}

#[test]
fn middle_dot_and_times_sign_split() {
    assert_eq!(clean_track_name("Artist · Track Name"), "Track Name");
    assert_eq!(clean_track_name("Artist × Track Name"), "Track Name");
}

#[test]
fn pipe_list_keeps_its_first_part() {
    assert_eq!(clean_track_name("First Song | Second Song | Third"), "First Song");
}

#[test]
fn quotes_around_the_whole_title_are_removed() {
    assert_eq!(clean_track_name("\"Whole Title\""), "Whole Title");
    assert_eq!(clean_track_name("'Whole Title'"), "Whole Title");
}

#[test]
fn white_space_is_collapsed() {
    assert_eq!(clean_track_name("  Some   Spaced \t Title  "), "Some Spaced Title");
}

#[test]
fn blank_title_stays_as_it_is() {
    assert_eq!(clean_track_name("   "), "   ");
    assert_eq!(clean_track_name(""), "");
    assert_eq!(clean_track_name("\" \""), " ");
}

#[test]
fn cleaned_title_is_never_empty() {
    for input in [
        "a", " ", "-", " - ", "()", "(feat. X)", "【】", "「」", "『』", "\"\"", "''", "/", " / ",
        "ft. X", "x ft. Y", "【MV】", "(Official Video) - YouTube", "|", " | ", "·", "×",
        "（）", "[x]", "(Acoustic)", " (Acoustic)", "/ Japanese Cover",
    ] {
        assert!(!clean_track_name(input).is_empty(), "{:?}", input);
    }
}

#[test]
fn cleaning_a_cleaned_title_changes_nothing() {
    for input in [
        "【MV】私じゃなかったんだね。(Official Video) - YouTube Music",
        "Song Title (feat. Artist)",
        "Song Title - YouTube Music",
        "Song Title (Official Music Video)",
        "【MV】春に揺られど君想う【Official】",
        "アーティスト「タイトル」/Album",
        "Artist - Song Title / Album",
        "Artist - Song Title",
        "First Song | Second Song",
        "  Some   Spaced  Title ",
    ] {
        let once = clean_track_name(input);
        let twice = clean_track_name(&once);
        assert_eq!(twice, once, "{:?}", input);
    }
}

#[test]
fn trailing_tags_are_removed() {
    assert_eq!(clean_track_name("Without You ft. SKYLR"), "Without You");
    assert_eq!(clean_track_name("Song Name (Acoustic)"), "Song Name");
    assert_eq!(clean_track_name("Song Name Official Video"), "Song Name");
    assert_eq!(clean_track_name("Song Name [Some Artist]"), "Song Name");
    assert_eq!(clean_track_name("Song Name（フル）"), "Song Name");
}

#[test]
fn dash_chain_keeps_the_right_part() {
    assert_eq!(
        clean_track_name("If I Die Young - The Band Perry - Cover by Someone"),
        "The Band Perry - Cover by Someone"
    );
    assert_eq!(clean_track_name("Aaa - Bbb - Ccc"), "Ccc");
    assert_eq!(
        clean_track_name("If I Die Young - The Band Perry (youtube cover by Z)"),
        "If I Die Young"
    );
}

#[test]
fn japanese_cover_becomes_a_parenthesis() {
    assert_eq!(clean_track_name("Song Name/ Japanese Cover"), "Song Name (Japanese Cover)");
}

#[test]
fn full_album_is_kept_with_its_artist() {
    assert_eq!(
        clean_track_name("Cigarettes After Sex (Full Album) - Cigarettes After Sex"),
        "Cigarettes After Sex (Full Album)"
    );
    assert_eq!(clean_track_name("Some Band (Full Album) - 2019"), "Some Band (Full Album)");
}

#[test]
fn artist_is_removed_from_either_end() {
    assert_eq!(remove_artist_from_track("Artist - Song", "Artist"), "Song");
    assert_eq!(remove_artist_from_track("Song - Artist", "Artist"), "Song");
    assert_eq!(remove_artist_from_track("Song – ARTIST  ", "artist"), "Song");
    assert_eq!(remove_artist_from_track("artist—Song", "Artist"), "Song");
}

#[test]
fn artist_is_kept_where_nothing_else_would_be_left() {
    // the dash cannot go, but trimming alone shortens the title
    assert_eq!(remove_artist_from_track("Artist - ", "Artist"), "Artist -");
    assert_eq!(remove_artist_from_track("Artist", "Artist"), "Artist");
    assert_eq!(remove_artist_from_track("Song", "Artist"), "Song");
    assert_eq!(remove_artist_from_track("Artist Song", "Artist"), "Artist Song");
}

#[test]
fn blank_artist_removes_nothing() {
    assert_eq!(remove_artist_from_track("Artist - Song", ""), "Artist - Song");
    assert_eq!(remove_artist_from_track(" - Song", "  "), " - Song");
}

#[test]
fn artist_name_is_matched_letter_for_letter() {
    // the dot of the name is no wildcard
    assert_eq!(remove_artist_from_track("AxB - Song", "A.B"), "AxB - Song");
    assert_eq!(remove_artist_from_track("A.B - Song", "a.b"), "Song");
    assert_eq!(remove_artist_from_track("Song - AC/DC (Live)", "AC/DC (Live)"), "Song");
    assert_eq!(remove_artist_from_track("a+b - Song", "a+b"), "Song");
}

#[test]
fn artist_must_be_shorter_than_three_times_the_track() {
    // nine characters before the hyphen, three after it
    assert_eq!(clean_track_name("Abcdefghi-Xyz"), "Abcdefghi-Xyz");
    // eight before, three after
    assert_eq!(clean_track_name("Abcdefgh-Xyz"), "Xyz");
    // a guest credit lifts the limit
    assert_eq!(clean_track_name("Abcdefghi ft.-Xyz"), "Xyz");
}

#[test]
fn platform_label_after_the_separator_is_no_track() {
    assert_eq!(clean_track_name("Some Song-YouTube Mix"), "Some Song-YouTube Mix");
    assert_eq!(clean_track_name("Some Song × Music Video"), "Some Song × Music Video");
}

#[test]
fn label_is_told_without_regard_to_case() {
    assert_eq!(clean_track_name("Song Name【OFFICIAL】"), "Song Name");
    assert_eq!(clean_track_name("Song Name【Mv】"), "Song Name");
    assert_eq!(clean_track_name("Song Name【ViDeO】"), "Song Name");
}

#[test]
fn track_before_a_bracket_label_is_taken_from_the_raw_title() {
    assert_eq!(clean_track_name("Artist-Track Name【MV】"), "Track Name");
}

#[test]
fn wide_notes_are_removed() {
    assert_eq!(clean_track_name("Song Name（Music VIDEO）"), "Song Name");
    assert_eq!(clean_track_name("Song Name（公式)"), "Song Name");
}

#[test]
fn wide_slash_keeps_what_stands_before_it() {
    assert_eq!(clean_track_name("Song Name／Artist Name"), "Song Name");
}

#[test]
fn last_part_after_middle_dots_is_the_track() {
    assert_eq!(clean_track_name("Aa · Bb · Cc"), "Cc");
}

#[test]
fn guest_joined_to_its_credit_is_removed() {
    assert_eq!(clean_track_name("Song Name ft.Someone"), "Song Name");
}

#[test]
fn title_in_single_quotes_at_the_start() {
    assert_eq!(clean_track_name("'Quoted Title' Seaside Session"), "Quoted Title");
    assert_eq!(clean_track_name("'Quoted Title' and more"), "'Quoted Title' and more");
}

#[test]
fn untouched_title_with_one_dash_keeps_its_second_part() {
    assert_eq!(clean_track_name("Some Song - YouTube Mix"), "YouTube Mix");
}

#[test]
fn every_noise_rule_removes_its_noise() {
    for (input, expected) in [
        ("Title - YouTube Music", "Title"),
        ("Title - youtube", "Title"),
        ("Title (Official Lyric Video)", "Title"),
        ("Title【Official Audio】", "Title"),
        ("Title [Music Video]", "Title"),
        ("Title (MV)", "Title"),
        ("Title [mv]", "Title"),
        ("Title.MKV", "Title"),
        ("Title [Playlist 2020]", "Title"),
        ("Title (English Sub)", "Title"),
        ("Title (Lyrics)", "Title"),
        ("Title [HD]", "Title"),
        ("Title (4K)", "Title"),
        ("Title (ft. Someone)", "Title"),
        ("Title (featuring Someone)", "Title"),
        ("Title feat. Someone", "Title"),
        ("Title (prod. Someone)", "Title"),
        ("Title (Visualizer)", "Title"),
        ("Title (Acoustic Video)", "Title"),
        ("Title (Chinese Version)", "Title"),
        ("Title (Eng Sub)", "Title"),
        ("Title (Twin Ver.)", "Title"),
        ("Title (Demo)", "Title"),
        ("Title (Remix)", "Title"),
        ("Title (Piano Version)", "Title"),
        ("Title (Acoustic Session)", "Title"),
        ("Title (Stripped)", "Title"),
        ("Title (行ってらっしゃい)", "Title"),
        ("Title (Original)", "Title"),
        ("Title (Live At The Hub)", "Title"),
        ("Title / 2019", "Title"),
    ] {
        assert_eq!(clean_track_name(input), expected, "{:?}", input);
    }
}
