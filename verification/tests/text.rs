use tenex::text::{
    after_first, after_last, concat4, contains, decimal_string, first_word, is_whitespace, join_lines,
    parse_u64, split_char, split_lines, splitn_char, starts_with, strip_prefix, trim, trim_end, trim_end_char,
    trim_start, trim_start_breaks,
};

const SAMPLES: &[&str] = &[
    "",
    "  padded\t\n",
    "\u{a0}nbsp\u{3000}",
    "one\ntwo\r\nthree",
    "trailing\n",
    "\n\nleading",
    "a\u{1f}b\u{1f}\u{1f}c",
    "émoji 🚀 text",
];

#[test]
fn whitespace_matches_std() {
    for c in ('\0'..='\u{3100}').chain(['\u{feff}', '\u{10ffff}']) {
        assert_eq!(is_whitespace(c), c.is_whitespace(), "{c:?}");
    }
}

#[test]
fn trims_match_std() {
    for s in SAMPLES {
        assert_eq!(trim(s), s.trim());
        assert_eq!(trim_start(s), s.trim_start());
        assert_eq!(trim_end(s), s.trim_end());
        assert_eq!(trim_end_char(s, '\n'), s.trim_end_matches('\n'));
    }
}

#[test]
fn lines_match_std() {
    for s in SAMPLES {
        assert_eq!(split_lines(s), s.lines().collect::<Vec<_>>(), "{s:?}");
    }
}

#[test]
fn splits_match_std() {
    for s in SAMPLES {
        assert_eq!(split_char(s, '\u{1f}'), s.split('\u{1f}').collect::<Vec<_>>());
        assert_eq!(splitn_char(s, '\u{1f}', 2), s.splitn(2, '\u{1f}').collect::<Vec<_>>());
        assert_eq!(first_word(s), s.split_whitespace().next());
    }
}

#[test]
fn searches_match_std() {
    assert!(contains("abc CONFLICT x", "CONFLICT"));
    assert!(!contains("abc", "abcd"));
    assert!(contains("abc", ""));
    assert!(starts_with("feature/x", "feature/"));
    assert!(!starts_with("feat", "feature/"));
    assert_eq!(strip_prefix("worktree /a", "worktree "), Some("/a"));
    assert_eq!(strip_prefix("branch x", "worktree "), None);
    assert_eq!(after_last("origin/release/v2", '/'), Some("v2"));
    assert_eq!(after_last("main", '/'), None);
    assert_eq!(after_first("x Created from main y", "Created from "), Some("main y"));
    assert_eq!(after_first("nothing", "Created from "), None);
}

#[test]
fn numbers_match_std() {
    for s in ["0", "42", "+7", "-1", "", "18446744073709551615", "18446744073709551616", "1_000", " 5"] {
        assert_eq!(parse_u64(s), s.parse::<u64>().ok(), "{s:?}");
    }
    for n in [0u64, 7, 10, 12345, u64::MAX] {
        assert_eq!(decimal_string(n), n.to_string());
    }
}

#[test]
fn joining_and_concatenating() {
    assert_eq!(join_lines(&vec!["a".to_string(), "b".to_string()]), "a\nb");
    assert_eq!(join_lines(&Vec::new()), "");
    assert_eq!(concat4("a", "b", "c", "d"), "abcd");
    assert_eq!(trim_start_breaks("\n\r\n  x\n"), "  x\n");
}
