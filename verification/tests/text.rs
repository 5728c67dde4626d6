use twit_clone::text::{to_chars, to_text};
use twit_clone::text::number::{parse_decimal, push_decimal};
use twit_clone::text::pieces::{join_chars, split_chars, split_lines};
use twit_clone::text::search::{
    find_last, find_text, has_text, matches_at, replace_text, text_after,
};

fn chars(s: &str) -> Vec<char> {
    s.chars().collect()
}

fn rows(items: &[&str]) -> Vec<Vec<char>> {
    items.iter().map(|s| chars(s)).collect()
}

#[test]
fn text_goes_to_characters_and_back() {
    assert_eq!(to_chars("a\u{e9}\u{20ac}"), vec!['a', '\u{e9}', '\u{20ac}']);
    assert_eq!(to_text(&['a', '\u{e9}', '\u{20ac}']), "a\u{e9}\u{20ac}");
    assert_eq!(to_chars(""), Vec::<char>::new());
    assert_eq!(to_text(&[]), "");
}

#[test]
fn split_keeps_empty_pieces() {
    assert_eq!(split_chars(&chars("a&b&c"), '&'), rows(&["a", "b", "c"]));
    assert_eq!(split_chars(&chars("&a&&b&"), '&'), rows(&["", "a", "", "b", ""]));
    assert_eq!(split_chars(&chars("abc"), '&'), rows(&["abc"]));
    assert_eq!(split_chars(&chars(""), '&'), rows(&[""]));
}

#[test]
fn lines_end_at_line_feeds() {
    assert_eq!(split_lines(&chars("a\r\nb\nc")), rows(&["a", "b", "c"]));
    assert_eq!(split_lines(&chars("a\r\n\r\n")), rows(&["a", ""]));
    assert_eq!(split_lines(&chars("")), rows(&[]));
    assert_eq!(split_lines(&chars("\n")), rows(&[""]));
    assert_eq!(split_lines(&chars("a\rb\r\r\nc\r")), rows(&["a\rb\r", "c\r"]));
}

#[test]
fn join_puts_the_separator_between() {
    assert_eq!(join_chars(&rows(&["a", "b", "c"]), '\n'), chars("a\nb\nc"));
    assert_eq!(join_chars(&rows(&["a"]), '\n'), chars("a"));
    assert_eq!(join_chars(&rows(&[]), '\n'), chars(""));
    assert_eq!(join_chars(&rows(&["", ""]), ','), chars(","));
}

#[test]
fn search_finds_the_first_occurrence() {
    assert_eq!(find_text(&chars("abcabc"), &chars("bc")), Some(1));
    assert_eq!(find_text(&chars("abcabc"), &chars("cb")), None);
    assert_eq!(find_text(&chars("abc"), &chars("")), Some(0));
    assert_eq!(find_text(&chars(""), &chars("")), Some(0));
    assert_eq!(find_text(&chars("ab"), &chars("abc")), None);
    assert_eq!(find_text(&chars("aab"), &chars("ab")), Some(1));
    assert!(has_text(&chars("Content-Length: 3"), &chars("Length")));
    assert!(!has_text(&chars("Content-Length: 3"), &chars("length")));
    assert!(matches_at(&chars("abc"), &chars("bc"), 1));
    assert!(!matches_at(&chars("abc"), &chars("bc"), 2));
    assert!(!matches_at(&chars("abc"), &chars("bc"), 7));
}

#[test]
fn text_after_the_first_separator() {
    assert_eq!(text_after(&chars("a: b: c"), &chars(": ")), Some(chars("b: c")));
    assert_eq!(text_after(&chars("a:b"), &chars(": ")), None);
    assert_eq!(text_after(&chars("a: "), &chars(": ")), Some(chars("")));
}

#[test]
fn last_index_of_a_character() {
    assert_eq!(find_last(&chars("a=b=c"), '='), Some(3));
    assert_eq!(find_last(&chars("abc"), '='), None);
    assert_eq!(find_last(&chars(""), '='), None);
    assert_eq!(find_last(&chars("="), '='), Some(0));
}

#[test]
fn decimal_numbers_are_read() {
    assert_eq!(parse_decimal(&chars("0")), Some(0));
    assert_eq!(parse_decimal(&chars("42")), Some(42));
    assert_eq!(parse_decimal(&chars("007")), Some(7));
    assert_eq!(parse_decimal(&chars("+5")), Some(5));
    assert_eq!(parse_decimal(&chars(&usize::MAX.to_string())), Some(usize::MAX));
}

#[test]
fn what_is_no_decimal_number_is_not_read() {
    assert_eq!(parse_decimal(&chars("")), None);
    assert_eq!(parse_decimal(&chars("+")), None);
    assert_eq!(parse_decimal(&chars("-5")), None);
    assert_eq!(parse_decimal(&chars("++5")), None);
    assert_eq!(parse_decimal(&chars("5+")), None);
    assert_eq!(parse_decimal(&chars(" 5")), None);
    assert_eq!(parse_decimal(&chars("5 ")), None);
    assert_eq!(parse_decimal(&chars("five")), None);
    assert_eq!(parse_decimal(&chars("1_000")), None);
    assert_eq!(parse_decimal(&chars("\u{663}")), None);
    assert_eq!(parse_decimal(&chars("340282366920938463463374607431768211456")), None);
    assert_eq!(parse_decimal(&chars(&format!("{}0", usize::MAX))), None);
}

#[test]
fn decimal_numbers_are_written() {
    let mut out = chars("n=");
    push_decimal(&mut out, 0);
    push_decimal(&mut out, 1230);
    assert_eq!(out, chars("n=01230"));
    let mut max = Vec::new();
    push_decimal(&mut max, usize::MAX);
    assert_eq!(max, chars(&usize::MAX.to_string()));
    assert_eq!(parse_decimal(&max), Some(usize::MAX));
}

#[test]
fn replace_goes_from_left_to_right() {
    assert_eq!(replace_text(&chars("aXbXc"), &chars("X"), &chars("--")), chars("a--b--c"));
    assert_eq!(replace_text(&chars("aaa"), &chars("aa"), &chars("b")), chars("ba"));
    assert_eq!(replace_text(&chars("abc"), &chars("x"), &chars("y")), chars("abc"));
    assert_eq!(replace_text(&chars("ab"), &chars("ab"), &chars("")), chars(""));
    assert_eq!(replace_text(&chars("aa"), &chars("a"), &chars("aa")), chars("aaaa"));
    assert_eq!(replace_text(&chars(""), &chars("a"), &chars("b")), chars(""));
    assert_eq!(replace_text(&chars("abc"), &chars(""), &chars("-")), chars("abc"));
}
