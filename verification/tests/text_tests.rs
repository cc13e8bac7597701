use vedit::editor::split_lines;
use vedit::text::{byte_offset_search, byte_to_char, char_to_byte, chars_of, find_chars, rfind_chars};

#[test]
fn char_to_byte_counts_utf8_bytes() {
    assert_eq!(char_to_byte("hello", 2), 2);
    assert_eq!(char_to_byte("héllo", 2), 3);
    assert_eq!(char_to_byte("héllo", 0), 0);
    assert_eq!(char_to_byte("a€b", 2), 4);
}

#[test]
fn char_to_byte_past_end_is_byte_length() {
    assert_eq!(char_to_byte("héllo", 5), 6);
    assert_eq!(char_to_byte("héllo", 99), 6);
    assert_eq!(char_to_byte("", 3), 0);
}

#[test]
fn byte_to_char_counts_characters() {
    assert_eq!(byte_to_char("héllo", 0), 0);
    assert_eq!(byte_to_char("héllo", 3), 2);
    assert_eq!(byte_to_char("héllo", 6), 5);
    assert_eq!(byte_to_char("a€b", 4), 2);
}

#[test]
fn byte_offset_search_finds_at_or_after_start() {
    assert_eq!(byte_offset_search("abcabc", 0, "abc"), Some(0));
    assert_eq!(byte_offset_search("abcabc", 1, "abc"), Some(3));
    assert_eq!(byte_offset_search("abcabc", 4, "abc"), None);
    assert_eq!(byte_offset_search("héllo héllo", 1, "hé"), Some(7));
    assert_eq!(byte_offset_search("abc", 10, "c"), None);
}

#[test]
fn byte_offset_search_empty_query_matches_at_start() {
    assert_eq!(byte_offset_search("abc", 1, ""), Some(1));
    assert_eq!(byte_offset_search("abc", 10, ""), Some(3));
}

#[test]
fn char_search_first_and_last() {
    let s = chars_of("xaxbxa");
    let q = chars_of("xa");
    assert_eq!(find_chars(&s, &q, 0, 6), Some(0));
    assert_eq!(find_chars(&s, &q, 1, 6), Some(4));
    assert_eq!(find_chars(&s, &q, 1, 5), None);
    assert_eq!(rfind_chars(&s, &q, 0, 6), Some(4));
    assert_eq!(rfind_chars(&s, &q, 0, 5), Some(0));
    assert_eq!(rfind_chars(&s, &q, 1, 5), None);
}

#[test]
fn split_lines_like_str_lines() {
    assert_eq!(split_lines("a\nb\r\nc"), vec!["a", "b", "c"]);
    assert_eq!(split_lines("a\n"), vec!["a"]);
    assert_eq!(split_lines(""), Vec::<String>::new());
    assert_eq!(split_lines("\n"), vec![""]);
    assert_eq!(split_lines("x\r"), vec!["x\r"]);
    assert_eq!(split_lines("a\n\nb"), vec!["a", "", "b"]);
    let text = "one\r\ntwo\n\nthree\n";
    let expected: Vec<String> = text.lines().map(String::from).collect();
    assert_eq!(split_lines(text), expected);
}
