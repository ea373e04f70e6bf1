use http_server::text::{bytes_eq, contains_byte, find, occurs, push_bytes, starts_with, CR, LF, SP};

#[test]
fn separators_are_the_ascii_codes() {
    assert_eq!(SP, b' ');
    assert_eq!(CR, b'\r');
    assert_eq!(LF, b'\n');
}

#[test]
fn find_returns_the_leftmost_occurrence() {
    assert_eq!(find(b"a: b: c", b": "), Some(1));
    assert_eq!(find(b"abcabc", b"bc"), Some(1));
    assert_eq!(find(b"abc", b"abc"), Some(0));
    assert_eq!(find(b"xxabc", b"abc"), Some(2));
}

#[test]
fn find_returns_none_without_an_occurrence() {
    assert_eq!(find(b"a:b", b": "), None);
    assert_eq!(find(b"", b"x"), None);
    assert_eq!(find(b"ab", b"abc"), None);
    assert_eq!(find(b"a\rb\nc", b"\r\n"), None);
}

#[test]
fn find_of_the_empty_token_is_the_start() {
    assert_eq!(find(b"abc", b""), Some(0));
    assert_eq!(find(b"", b""), Some(0));
}

#[test]
fn find_of_overlapping_candidates() {
    assert_eq!(find(b"\r\r\n", b"\r\n"), Some(1));
    assert_eq!(find(b"aab", b"ab"), Some(1));
}

#[test]
fn occurs_checks_one_index() {
    assert!(occurs(b"hello", b"ll", 2));
    assert!(!occurs(b"hello", b"ll", 1));
    assert!(occurs(b"hello", b"", 5));
    assert!(!occurs(b"hello", b"", 6));
    assert!(!occurs(b"hello", b"lo!", 3));
    assert!(!occurs(b"hello", b"o", usize::MAX));
}

#[test]
fn starts_with_is_a_prefix_test() {
    assert!(starts_with(b"/echo/abc", b"/echo/"));
    assert!(starts_with(b"/echo/", b"/echo/"));
    assert!(!starts_with(b"/echo", b"/echo/"));
    assert!(!starts_with(b"x/echo/", b"/echo/"));
    assert!(starts_with(b"anything", b""));
}

#[test]
fn bytes_eq_compares_byte_for_byte() {
    assert!(bytes_eq(b"User-Agent", b"User-Agent"));
    assert!(!bytes_eq(b"User-Agent", b"user-agent"));
    assert!(!bytes_eq(b"User-Agent", b"User-Agent "));
    assert!(bytes_eq(b"", b""));
}

#[test]
fn contains_byte_finds_a_byte() {
    assert!(contains_byte(b"a\rb", CR));
    assert!(!contains_byte(b"a\rb", LF));
    assert!(!contains_byte(b"", SP));
}

#[test]
fn push_bytes_appends() {
    let mut out = b"ab".to_vec();
    push_bytes(&mut out, b"cd");
    push_bytes(&mut out, b"");
    assert_eq!(out, b"abcd".to_vec());
}
