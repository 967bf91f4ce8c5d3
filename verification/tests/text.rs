use wt::text::{chars_of, equals_at, has_prefix_at, join_strings, next_line, substring, trimmed_bounds};

#[test]
fn characters_and_substrings() {
    let s = "añb";
    assert_eq!(chars_of(s), vec!['a', 'ñ', 'b']);
    assert_eq!(substring(s, 1, 3), "ñb");
    assert_eq!(substring(s, 2, 2), "");
}

#[test]
fn prefixes_and_words() {
    let c = chars_of("branch refs/heads/x");
    assert!(has_prefix_at(&c, 0, c.len(), "branch "));
    assert!(has_prefix_at(&c, 7, c.len(), "refs/heads/"));
    assert!(!has_prefix_at(&c, 0, 3, "branch "));
    let b = chars_of("xbarey");
    assert!(equals_at(&b, 1, 5, "bare"));
    assert!(!equals_at(&b, 1, 6, "bare"));
}

#[test]
fn lines_end_before_their_terminator() {
    let c = chars_of("ab\r\ncd\n\re");
    assert_eq!(next_line(&c, 0), (2, 4));
    assert_eq!(next_line(&c, 4), (6, 7));
    assert_eq!(next_line(&c, 7), (9, 9));
}

#[test]
fn trimming_unicode_whitespace() {
    let c = chars_of("\u{3000} x y\t\u{a0}");
    assert_eq!(trimmed_bounds(&c, 0, c.len()), (2, 5));
    let blank = chars_of(" \t ");
    let (a, b) = trimmed_bounds(&blank, 0, blank.len());
    assert_eq!(a, b);
}

#[test]
fn joining_lists() {
    assert_eq!(join_strings(&vec![], ", "), "");
    assert_eq!(join_strings(&vec!["a".to_string()], ", "), "a");
    assert_eq!(join_strings(&vec!["a".to_string(), "b".to_string()], ", "), "a, b");
}
