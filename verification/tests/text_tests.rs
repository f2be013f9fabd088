use rubyshd::text::{
    bytes_start_with, decimal_string, from_chars, str_concat, str_ends_with, str_eq,
    str_first_line, str_remove_all, str_split_last_line, str_starts_with, str_strip_suffix,
    to_chars,
};

#[test]
fn characters_go_there_and_back() {
    let text = "a\u{e9}\u{1f600}z";
    let chars = to_chars(text);
    assert_eq!(chars, vec!['a', '\u{e9}', '\u{1f600}', 'z']);
    assert_eq!(from_chars(&chars), text);
    assert_eq!(to_chars(""), Vec::<char>::new());
}

#[test]
fn texts_are_compared_by_their_characters() {
    assert!(str_eq("abc", "abc"));
    assert!(str_eq("", ""));
    assert!(!str_eq("abc", "abd"));
    assert!(!str_eq("abc", "ab"));
    assert!(!str_eq("ab", "abc"));
}

#[test]
fn prefixes_and_suffixes() {
    assert!(str_starts_with("gemini://x", "gemini:"));
    assert!(!str_starts_with("gem", "gemini:"));
    assert!(str_starts_with("x", ""));
    assert!(str_ends_with("page.md", ".md"));
    assert!(!str_ends_with("md", ".md"));
    assert!(str_ends_with("x", ""));
    assert!(bytes_start_with(b"gemini://", b"gemini:"));
    assert!(!bytes_start_with(b"Gemini://", b"gemini:"));
    assert_eq!(str_strip_suffix("page.md", ".md"), "page");
    assert_eq!(str_strip_suffix("page.md", ".gmi"), "page.md");
    assert_eq!(str_strip_suffix(".md", ".md"), "");
    assert_eq!(str_concat("ab", "cd"), "abcd");
}

#[test]
fn the_first_line_ends_at_the_first_line_feed() {
    assert_eq!(str_first_line("one\ntwo\nthree"), "one");
    assert_eq!(str_first_line("one\r\ntwo"), "one");
    assert_eq!(str_first_line("one"), "one");
    assert_eq!(str_first_line(""), "");
    assert_eq!(str_first_line("\nrest"), "");
    assert_eq!(str_first_line("\r\nrest"), "");
    assert_eq!(str_first_line("one\r"), "one\r");
    assert_eq!(str_first_line("one\r\r\ntwo"), "one\r");
    assert_eq!(str_first_line("a\rb\nc"), "a\rb");
}

#[test]
fn the_last_line_is_split_off_at_the_last_line_feed() {
    assert_eq!(
        str_split_last_line("a\nb\nc"),
        Some(("a\nb".to_string(), "c".to_string()))
    );
    assert_eq!(str_split_last_line("a\n"), Some(("a".to_string(), "".to_string())));
    assert_eq!(str_split_last_line("\n"), Some(("".to_string(), "".to_string())));
    assert_eq!(str_split_last_line("abc"), None);
    assert_eq!(str_split_last_line(""), None);
}

#[test]
fn every_occurrence_of_a_pattern_is_taken_out() {
    assert_eq!(str_remove_all("aXYbXYc", "XY"), "abc");
    assert_eq!(str_remove_all("aaa", "aa"), "a");
    assert_eq!(str_remove_all("XYXY", "XY"), "");
    assert_eq!(str_remove_all("abc", "XY"), "abc");
    assert_eq!(str_remove_all("abc", ""), "abc");
    assert_eq!(str_remove_all("", "x"), "");
}

#[test]
fn numbers_are_written_in_decimal() {
    assert_eq!(decimal_string(0), "0");
    assert_eq!(decimal_string(7), "7");
    assert_eq!(decimal_string(10), "10");
    assert_eq!(decimal_string(14_400), "14400");
    assert_eq!(decimal_string(1_234_567_890), "1234567890");
}
