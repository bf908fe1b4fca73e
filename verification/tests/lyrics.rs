use lyryc::lyrics::{
    convert_plain_lyrics_to_lines, is_decimal_digit, parse_lrc_format, read_pair, read_stamp,
    read_timed_line,
    LAST_LINE, MAX_PLAIN_LINES, PLAIN_STEP,
};
use lyryc::types::{copy_lines, LyricLine};

fn line(time: u64, text: &str, duration: u64) -> (u64, String, Option<u64>) {
    (time, text.to_string(), Some(duration))
}

fn shown(lines: &Vec<LyricLine>) -> Vec<(u64, String, Option<u64>)> {
    lines.iter().map(|l| (l.time, l.text.clone(), l.duration)).collect()
}

#[test]
fn timed_lines_decode_with_their_gaps() {
    let lrc = "[00:12.34]First line\n[00:15.00]Second line\n[01:02.50]Third line\n";
    assert_eq!(
        shown(&parse_lrc_format(lrc)),
        vec![
            line(1234, "First line", 266),
            line(1500, "Second line", 4750),
            line(6250, "Third line", 300),
        ]
    );
}

#[test]
fn stamp_without_hundredths_counts_whole_seconds() {
    assert_eq!(shown(&parse_lrc_format("[02:05] words ")), vec![line(12500, "words", 300)]);
    assert_eq!(shown(&parse_lrc_format("[99:59.99]x")), vec![line(599_999, "x", 300)]);
}

#[test]
fn synthetic_timed_lyrics_round_trip() {
    let n: u64 = 40;
    let mut lrc = String::new();
    for i in 0..n {
        let t = i * 137;
        lrc.push_str(&format!("[{:02}:{:02}.{:02}]line {}\n", t / 6000, t / 100 % 60, t % 100, i));
    }
    let lines = parse_lrc_format(&lrc);
    assert_eq!(lines.len() as u64, n);
    for i in 0..n {
        let l = &lines[i as usize];
        assert_eq!(l.time, i * 137);
        assert_eq!(l.text, format!("line {}", i));
        assert_eq!(l.duration, Some(if i + 1 < n { 137 } else { LAST_LINE }));
    }
}

#[test]
fn lines_come_out_sorted_and_equal_stamps_keep_their_order() {
    let lrc = "[00:30.00]c\n[00:10.00]a1\n[00:20.00]b\n[00:10.00]a2\n";
    assert_eq!(
        shown(&parse_lrc_format(lrc)),
        vec![line(1000, "a1", 0), line(1000, "a2", 1000), line(2000, "b", 1000), line(3000, "c", 300)]
    );
}

#[test]
fn lines_that_are_no_timed_lines_are_passed_over() {
    let lrc = "[ar:Artist]\nplain words\n[00:01.00]\n[00:02.00]   \n[0:03.00]short\n[00:04.0]short\n [00:05.00]late\n[00:06.00]kept\r\n[00:07.123]more";
    assert_eq!(shown(&parse_lrc_format(lrc)), vec![line(600, "kept", 300)]);
}

#[test]
fn empty_text_gives_no_lines() {
    assert!(parse_lrc_format("").is_empty());
    assert!(parse_lrc_format("\n\n").is_empty());
}

#[test]
fn field_that_is_no_number_counts_zero() {
    // Arabic-Indic and full-width digits are digits to the stamp and no number to the reader
    assert_eq!(shown(&parse_lrc_format("[٠١:05.50]words")), vec![line(550, "words", 300)]);
    assert_eq!(shown(&parse_lrc_format("[01:٠٥.٥٠]words")), vec![line(6000, "words", 300)]);
    assert_eq!(shown(&parse_lrc_format("[0１:02]words")), vec![line(200, "words", 300)]);
    assert_eq!(shown(&parse_lrc_format("[٣٣:٤٤.٥٥]words")), vec![line(0, "words", 300)]);
    // the line stays among the others, at the time that is left
    assert_eq!(
        shown(&parse_lrc_format("[00:10.00]ten\n[٠٠:05.00]five\n[00:20.00]twenty")),
        vec![line(500, "five", 500), line(1000, "ten", 1000), line(2000, "twenty", 300)]
    );
}

#[test]
fn stamp_needs_its_shape() {
    assert!(parse_lrc_format("[0a:05]words").is_empty());
    assert!(parse_lrc_format("[½½:05]words").is_empty());
    assert!(parse_lrc_format("[01:05.5]words").is_empty());
    assert!(parse_lrc_format("[01:05,50]words").is_empty());
    assert!(parse_lrc_format("[01-05]words").is_empty());
    assert!(parse_lrc_format("(01:05)words").is_empty());
    assert!(parse_lrc_format("[01:05.50 words").is_empty());
}

#[test]
fn seconds_above_59_count_as_they_are() {
    assert_eq!(shown(&parse_lrc_format("[00:75.00]x")), vec![line(7500, "x", 300)]);
    assert_eq!(shown(&parse_lrc_format("[99:99.99]x")), vec![line(603_999, "x", 300)]);
}

#[test]
fn words_may_hold_brackets_and_stamps() {
    assert_eq!(
        shown(&parse_lrc_format("[00:01.00][00:02.00] la [la] ")),
        vec![line(100, "[00:02.00] la [la]", 300)]
    );
}

#[test]
fn stamps_are_read_digit_by_digit() {
    let chars = |s: &str| s.chars().collect::<Vec<char>>();
    assert_eq!(read_pair(&chars("x07"), 1), Some(7));
    assert_eq!(read_pair(&chars("99"), 0), Some(99));
    assert_eq!(read_pair(&chars("9"), 0), None);
    assert_eq!(read_pair(&chars("123"), 2), None);
    assert_eq!(read_pair(&chars("1x"), 0), None);
    assert_eq!(read_pair(&chars("12"), 7), None);
    assert_eq!(read_pair(&chars("٤٥"), 0), Some(0));
    assert_eq!(read_pair(&chars("4٥"), 0), Some(0));
    assert_eq!(read_pair(&chars("Ⅷ1"), 0), None);
    assert!(is_decimal_digit('7') && is_decimal_digit('٧') && is_decimal_digit('７'));
    assert!(!is_decimal_digit('x') && !is_decimal_digit('½') && !is_decimal_digit(' '));
    assert_eq!(read_stamp(&chars("[12:34]")), Some((75_400, 7)));
    assert_eq!(read_stamp(&chars("[12:34.56]rest")), Some((75_456, 10)));
    assert_eq!(read_stamp(&chars("[12:34.5]")), None);
    assert_eq!(read_stamp(&chars("[12:34")), None);
    assert_eq!(read_stamp(&chars("")), None);
    let e = read_timed_line("[00:03.21]  words  ").unwrap();
    assert_eq!((e.time, e.text.as_str()), (321, "words"));
    assert!(read_timed_line("[00:03.21]   ").is_none());
    assert!(read_timed_line("words").is_none());
}

#[test]
fn plain_lines_are_spaced_evenly() {
    let m: u64 = 25;
    let mut text = String::new();
    for i in 0..m {
        text.push_str(&format!("  words {} \n", i));
    }
    let lines = convert_plain_lyrics_to_lines(&text);
    assert_eq!(lines.len() as u64, m);
    for i in 0..m {
        assert_eq!(
            (lines[i as usize].time, lines[i as usize].text.clone(), lines[i as usize].duration),
            (i * PLAIN_STEP, format!("words {}", i), Some(PLAIN_STEP))
        );
    }
}

#[test]
fn blank_plain_lines_leave_no_gap_on_the_timeline() {
    assert_eq!(
        shown(&convert_plain_lyrics_to_lines("a\n\nb")),
        vec![line(0, "a", 500), line(500, "b", 500)]
    );
    assert_eq!(
        shown(&convert_plain_lyrics_to_lines("\n\none\n\n  \nfour\r\nfive\n\n")),
        vec![line(0, "one", 500), line(500, "four", 500), line(1000, "five", 500)]
    );
    assert!(convert_plain_lyrics_to_lines("").is_empty());
    assert!(convert_plain_lyrics_to_lines(" \n\t\n").is_empty());
}

#[test]
fn every_plain_line_lasts_until_the_next_begins() {
    let lines = convert_plain_lyrics_to_lines("x\n \ny\n\n\nz\nw\n");
    assert_eq!(lines.len(), 4);
    for i in 0..lines.len() {
        assert_eq!(lines[i].time, 500 * i as u64);
        assert_eq!(lines[i].duration, Some(500));
        if i + 1 < lines.len() {
            assert_eq!(lines[i].duration, Some(lines[i + 1].time - lines[i].time));
        }
    }
}

#[test]
fn constants_of_the_timelines() {
    assert_eq!(LAST_LINE, 300);
    assert_eq!(PLAIN_STEP, 500);
    assert_eq!(MAX_PLAIN_LINES, u64::MAX / 500);
}

#[test]
fn lines_are_copied_field_by_field() {
    let lines = parse_lrc_format("[00:01.00]a\n[00:02.00]b");
    assert_eq!(shown(&copy_lines(&lines)), shown(&lines));
    assert_eq!(shown(&vec![lines[0].copy()]), vec![line(100, "a", 100)]);
}
