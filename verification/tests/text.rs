use lyryc::text::{
    char_count, chars_of, contains, ends_with, join, lines, replace, same_text, split,
    starts_with, trim,
};

#[test]
fn trim_removes_unicode_white_space_at_both_ends() {
    assert_eq!(trim("  a b  "), "a b");
    assert_eq!(trim("\t\n\u{3000}タイトル\u{a0}\r\n"), "タイトル");
    assert_eq!(trim("   "), "");
    assert_eq!(trim(""), "");
    assert_eq!(trim("\u{200b}x"), "\u{200b}x");
}

#[test]
fn trim_agrees_with_std() {
    for s in ["", " ", "a", " a", "a ", "\u{85}a\u{1680}", "\u{2000}\u{200a}x\u{2028}\u{2029}\u{202f}\u{205f}", "\u{b}\u{c}y\u{1c}"] {
        assert_eq!(trim(s), s.trim(), "{:?}", s);
    }
}

#[test]
fn contains_finds_a_needle_anywhere() {
    assert!(contains("abc", "bc"));
    assert!(contains("abc", ""));
    assert!(contains("", ""));
    assert!(!contains("abc", "cb"));
    assert!(!contains("ab", "abc"));
    assert!(contains("あいう", "いう"));
}

#[test]
fn prefix_and_suffix() {
    assert!(starts_with("youtube music", "youtube"));
    assert!(!starts_with("my youtube", "youtube"));
    assert!(ends_with("Song (Acoustic)", " (Acoustic)"));
    assert!(!ends_with("(Acoustic) Song", " (Acoustic)"));
    assert!(starts_with("x", ""));
    assert!(!ends_with("", "x"));
}

#[test]
fn split_cuts_at_each_separator_from_the_left() {
    assert_eq!(split("a - b - c", " - "), vec!["a", "b", "c"]);
    assert_eq!(split("abc", " - "), vec!["abc"]);
    assert_eq!(split("", " - "), vec![""]);
    assert_eq!(split(" - ", " - "), vec!["", ""]);
    assert_eq!(split("aaa", "aa"), vec!["", "a"]);
    assert_eq!(split("abc", ""), vec!["abc"]);
}

#[test]
fn join_puts_the_separator_between() {
    let parts = vec!["a".to_string(), "b".to_string(), "c".to_string()];
    assert_eq!(join(&parts, ", "), "a, b, c");
    assert_eq!(join(&Vec::new(), ", "), "");
    assert_eq!(join(&vec!["x".to_string()], ", "), "x");
}

#[test]
fn replace_replaces_every_occurrence() {
    assert_eq!(replace("a (Acoustic) b (Acoustic)", " (Acoustic)", ""), "a b");
    assert_eq!(replace("x/ Japanese Cover", "/ Japanese Cover", " (Japanese Cover)"), "x (Japanese Cover)");
    assert_eq!(replace("abc", "z", "y"), "abc");
}

#[test]
fn lines_follow_line_feeds() {
    assert_eq!(lines("a\nb"), vec!["a", "b"]);
    assert_eq!(lines("a\r\nb\r\n"), vec!["a", "b"]);
    assert_eq!(lines("a\n\nb\n"), vec!["a", "", "b"]);
    assert_eq!(lines(""), Vec::<String>::new());
    assert_eq!(lines("\n"), vec![""]);
    assert_eq!(lines("a\r"), vec!["a\r"]);
    assert_eq!(lines("a\rb\n"), vec!["a\rb"]);
}

#[test]
fn lines_agree_with_std() {
    for s in ["", "\n", "\r\n", "a", "a\n", "a\r\n", "\r", "a\r", "a\n\r", "\n\n", "a\r\r\nb", "x\ny\r\nz\r"] {
        let expected: Vec<String> = s.lines().map(|l| l.to_string()).collect();
        assert_eq!(lines(s), expected, "{:?}", s);
    }
}

#[test]
fn characters_are_counted_not_bytes() {
    assert_eq!(char_count("タイトル"), 4);
    assert_eq!(char_count(""), 0);
    assert_eq!(chars_of("aé"), vec!['a', 'é']);
    assert!(same_text(&"a".to_string(), &"a".to_string()));
    assert!(!same_text(&"a".to_string(), &"b".to_string()));
}
