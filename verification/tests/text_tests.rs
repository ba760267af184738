use coding_agent::text::{
    chars_of, count_occurrences, replace_occurrences, same_text, split_text, starts_with_text,
    text_after, text_lines, trim_end_text, u64_to_text, usize_to_text, white_space,
};

#[test]
fn decimal_rendering() {
    assert_eq!(usize_to_text(0), "0");
    assert_eq!(usize_to_text(42), "42");
    assert_eq!(usize_to_text(1000), "1000");
    assert_eq!(u64_to_text(u64::MAX), "18446744073709551615");
}

#[test]
fn counting_is_leftmost_and_non_overlapping() {
    assert_eq!(count_occurrences(&chars_of("aaa"), &chars_of("aa")), 1);
    assert_eq!(count_occurrences(&chars_of("aaaa"), &chars_of("aa")), 2);
    assert_eq!(count_occurrences(&chars_of("abcabc"), &chars_of("bc")), 2);
    assert_eq!(count_occurrences(&chars_of("abc"), &chars_of("z")), 0);
}

#[test]
fn empty_pattern_matches_every_boundary() {
    assert_eq!(count_occurrences(&chars_of(""), &chars_of("")), 1);
    assert_eq!(count_occurrences(&chars_of("ab"), &chars_of("")), 3);
    assert_eq!(count_occurrences(&chars_of("é"), &chars_of("")), 2);
    assert_eq!(replace_occurrences(&chars_of("ab"), &chars_of(""), "X"), "XaXbX");
    assert_eq!(replace_occurrences(&chars_of(""), &chars_of(""), "X"), "X");
}

#[test]
fn replacement_matches_str_replace() {
    for (s, p, r) in [("aaa", "aa", "b"), ("hello world", "o", "0"), ("xyz", "q", "!"), ("ünï", "n", "N")] {
        assert_eq!(replace_occurrences(&chars_of(s), &chars_of(p), r), s.replace(p, r));
    }
}

#[test]
fn lines_follow_str_lines() {
    for s in ["a\r\nb\n\nc", "a\n", "", "\n", "x\ry", "one\r\n", "a\n\r\n"] {
        let expected: Vec<String> = s.lines().map(|l| l.to_string()).collect();
        assert_eq!(text_lines(s), expected, "input {:?}", s);
    }
}

#[test]
fn split_keeps_empty_pieces() {
    assert_eq!(split_text("a\n\nb\n", '\n'), vec!["a", "", "b", ""]);
    assert_eq!(split_text("", '\n'), vec![""]);
    assert_eq!(split_text("plain", '\n'), vec!["plain"]);
}

#[test]
fn trim_end_removes_unicode_white_space() {
    assert_eq!(trim_end_text("x \t\n"), "x");
    assert_eq!(trim_end_text("x\u{3000}\u{A0}"), "x");
    assert_eq!(trim_end_text("  lead"), "  lead");
    for c in (0u32..0x11_0000).filter_map(char::from_u32) {
        assert_eq!(white_space(c), c.is_whitespace(), "char {:?}", c);
    }
}

#[test]
fn prefixes_and_equality() {
    assert!(starts_with_text("data: x", "data: "));
    assert!(!starts_with_text("data", "data: "));
    assert!(same_text("abc", "abc"));
    assert!(!same_text("abc", "abd"));
    assert_eq!(text_after("data: [DONE]", 6), "[DONE]");
}
