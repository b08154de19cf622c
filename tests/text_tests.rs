use story_crawler::text::{
    contains, has_char, i32_to_decimal, parse_i32_or_zero, parse_u8_or_zero, split_chars,
    starts_with, text_after_last, text_trim_end_char, unescape_slashes_of,
};

#[test]
fn parses_i32_values() {
    assert_eq!(parse_i32_or_zero("42"), 42);
    assert_eq!(parse_i32_or_zero("-7"), -7);
    assert_eq!(parse_i32_or_zero("+3"), 3);
    assert_eq!(parse_i32_or_zero("2147483647"), i32::MAX);
    assert_eq!(parse_i32_or_zero("-2147483648"), i32::MIN);
}

#[test]
fn bad_i32_reads_as_zero() {
    assert_eq!(parse_i32_or_zero(""), 0);
    assert_eq!(parse_i32_or_zero("-"), 0);
    assert_eq!(parse_i32_or_zero("12a"), 0);
    assert_eq!(parse_i32_or_zero(" 12"), 0);
    assert_eq!(parse_i32_or_zero("2147483648"), 0);
    assert_eq!(parse_i32_or_zero("99999999999999999999"), 0);
}

#[test]
fn parses_trimmed_u8() {
    assert_eq!(parse_u8_or_zero(" 255 "), 255);
    assert_eq!(parse_u8_or_zero("\t65"), 65);
    assert_eq!(parse_u8_or_zero("256"), 0);
    assert_eq!(parse_u8_or_zero("x"), 0);
    assert_eq!(parse_u8_or_zero("+7"), 7);
}

#[test]
fn segments_and_trims() {
    assert_eq!(text_after_last("https://a.b/c/d", '/'), "d");
    assert_eq!(text_after_last("https://a.b/c/d/", '/'), "");
    assert_eq!(text_after_last("chuong-12", '-'), "12");
    assert_eq!(text_after_last("plain", '-'), "plain");
    assert_eq!(text_trim_end_char("x/y///", '/'), "x/y");
}

#[test]
fn unescapes_slashes() {
    assert_eq!(unescape_slashes_of("a\\/b\\/c"), "a/b/c");
    assert_eq!(unescape_slashes_of("\\\\/"), "\\/");
    assert_eq!(unescape_slashes_of("plain"), "plain");
}

#[test]
fn writes_decimals() {
    assert_eq!(i32_to_decimal(0), "0");
    assert_eq!(i32_to_decimal(1234), "1234");
    assert_eq!(i32_to_decimal(-56), "-56");
    assert_eq!(i32_to_decimal(i32::MIN), "-2147483648");
}

#[test]
fn splits_keeping_empty_pieces() {
    let parts = split_chars("1,,2", ',');
    assert_eq!(parts.len(), 3);
    assert_eq!(parts[0], vec!['1']);
    assert!(parts[1].is_empty());
    assert_eq!(parts[2], vec!['2']);
    assert_eq!(split_chars("", ',').len(), 1);
}

#[test]
fn searches_text() {
    assert!(contains("var window.bookData = {}", "window.bookData"));
    assert!(!contains("window.book", "window.bookData"));
    assert!(contains("abc", ""));
    assert!(starts_with("https://x.y/z", "https://x.y"));
    assert!(!starts_with("http", "https"));
    assert!(has_char("a-b", '-'));
    assert!(!has_char("ab", '-'));
}
