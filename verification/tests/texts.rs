use flood::config::{input_extension_error, HdrCommand, NOT_A_JSON_FILE, NO_FILE_EXTENSION};
use flood::numeral::{digit_of, parse_decimal_u64, parse_digits, parse_hex_i32, push_digits};
use flood::text::{
    chars_of, contains_text, find_from, matches_at, replace_char, skip_prefixes, slice_of, split,
    string_of,
};
use std::path::PathBuf;

fn chars(s: &str) -> Vec<char> {
    s.chars().collect()
}

#[test]
fn characters_of_a_text() {
    assert_eq!(chars_of("héllo"), vec!['h', 'é', 'l', 'l', 'o']);
    assert_eq!(chars_of(""), Vec::<char>::new());
    assert_eq!(string_of(&chars("héllo"), 1, 3), "él");
    assert_eq!(slice_of(&chars("abcd"), 1, 1), Vec::<char>::new());
}

#[test]
fn finding_a_pattern() {
    let text = chars("a..b...c");
    let dots = chars("..");
    assert!(matches_at(&text, &dots, 1));
    assert!(!matches_at(&text, &dots, 0));
    assert!(!matches_at(&text, &dots, 7));
    assert!(!matches_at(&text, &dots, 100));
    assert_eq!(find_from(&text, &dots, 0), Some(1));
    assert_eq!(find_from(&text, &dots, 2), Some(4));
    assert_eq!(find_from(&text, &dots, 5), Some(5));
    assert_eq!(find_from(&text, &dots, 6), None);
    assert_eq!(find_from(&text, &chars(""), 8), Some(8));
    assert_eq!(find_from(&text, &chars(""), 9), None);
    assert!(contains_text("x..", &dots));
    assert!(!contains_text("x.y.", &dots));
}

#[test]
fn splitting_at_a_pattern() {
    let pieces = split(&chars("a..b...c"), &chars(".."));
    assert_eq!(pieces, vec![chars("a"), chars("b"), chars(".c")]);
    assert_eq!(split(&chars(""), &chars("..")), vec![chars("")]);
    assert_eq!(split(&chars(".."), &chars("..")), vec![chars(""), chars("")]);
    assert_eq!(split(&chars("abc"), &chars("..")), vec![chars("abc")]);
}

#[test]
fn stripping_repeated_prefixes() {
    assert_eq!(skip_prefixes(&chars("0x0x12"), 0, &chars("0x")), 4);
    assert_eq!(skip_prefixes(&chars("12"), 0, &chars("0x")), 0);
    assert_eq!(skip_prefixes(&chars("0x"), 0, &chars("0x")), 2);
    assert_eq!(skip_prefixes(&chars("a0x0xb"), 1, &chars("0x")), 5);
    assert_eq!(skip_prefixes(&chars("abc"), 1, &chars("")), 1);
}

#[test]
fn replacing_a_character() {
    assert_eq!(replace_char("main net 1", ' ', '_'), "main_net_1");
    assert_eq!(replace_char("", ' ', '_'), "");
}

#[test]
fn digits_in_both_bases() {
    assert_eq!(digit_of('7', 10), Some(7));
    assert_eq!(digit_of('a', 10), None);
    assert_eq!(digit_of('a', 16), Some(10));
    assert_eq!(digit_of('F', 16), Some(15));
    assert_eq!(digit_of('g', 16), None);
    assert_eq!(digit_of('/', 16), None);
    assert_eq!(digit_of(':', 10), None);
    assert_eq!(digit_of('٣', 10), None);
}

#[test]
fn reading_digits_up_to_a_limit() {
    assert_eq!(parse_digits(&chars("x1f"), 1, 16, 100), Some(31));
    assert_eq!(parse_digits(&chars("x1f"), 1, 16, 30), None);
    assert_eq!(parse_digits(&chars("x1f"), 3, 16, 30), None);
    assert_eq!(parse_digits(&chars("12a"), 0, 10, 1_000), None);
    assert_eq!(parse_digits(&chars("000000000000000000000000000012"), 0, 10, 12), Some(12));
    assert_eq!(parse_digits(&chars("ffffffffffffffff"), 0, 16, u64::MAX), Some(u64::MAX));
    assert_eq!(parse_digits(&chars("10000000000000000"), 0, 16, u64::MAX), None);
}

#[test]
fn reading_numbers() {
    assert_eq!(parse_hex_i32(&chars("7fffffff"), 0), Some(i32::MAX));
    assert_eq!(parse_hex_i32(&chars("80000000"), 0), None);
    assert_eq!(parse_hex_i32(&chars("-80000000"), 0), Some(i32::MIN));
    assert_eq!(parse_hex_i32(&chars("-80000001"), 0), None);
    assert_eq!(parse_hex_i32(&chars("+1F"), 0), Some(31));
    assert_eq!(parse_hex_i32(&chars("-"), 0), None);
    assert_eq!(parse_hex_i32(&chars("+"), 0), None);
    assert_eq!(parse_hex_i32(&chars(""), 0), None);
    assert_eq!(parse_hex_i32(&chars("+-1"), 0), None);
    assert_eq!(parse_hex_i32(&chars("-0"), 0), Some(0));
    assert_eq!(parse_decimal_u64(&chars("18446744073709551615")), Some(u64::MAX));
    assert_eq!(parse_decimal_u64(&chars("18446744073709551616")), None);
    assert_eq!(parse_decimal_u64(&chars("-0")), None);
    assert_eq!(parse_decimal_u64(&chars("+0")), Some(0));
    assert_eq!(parse_decimal_u64(&chars("1 ")), None);
    assert_eq!(parse_decimal_u64(&chars("")), None);
}

#[test]
fn writing_digits() {
    let mut out = String::from("n=");
    push_digits(&mut out, 0, 10, 1);
    assert_eq!(out, "n=0");
    let mut out = String::new();
    push_digits(&mut out, 0, 10, 0);
    assert_eq!(out, "");
    let mut out = String::new();
    push_digits(&mut out, 255, 16, 4);
    assert_eq!(out, "00ff");
    let mut out = String::new();
    push_digits(&mut out, u64::MAX, 10, 1);
    assert_eq!(out, "18446744073709551615");
    let mut out = String::new();
    push_digits(&mut out, 0xabcdef, 16, 2);
    assert_eq!(out, "abcdef");
}

fn hdr(tag: Option<&str>) -> HdrCommand {
    HdrCommand { report: PathBuf::from("report.json"), output: None, tag: tag.map(|t| t.to_string()) }
}

#[test]
fn tag_prefix_ends_with_a_dot() {
    assert_eq!(hdr(None).tag_prefix(), Some(String::new()));
    assert_eq!(hdr(Some("run1")).tag_prefix(), Some("run1.".to_string()));
    assert_eq!(hdr(Some("")).tag_prefix(), Some(".".to_string()));
}

#[test]
fn tag_with_a_comma_or_white_space_is_refused() {
    assert_eq!(hdr(Some("a,b")).tag_prefix(), None);
    assert_eq!(hdr(Some("a b")).tag_prefix(), None);
    assert_eq!(hdr(Some("a\nb")).tag_prefix(), None);
    assert_eq!(hdr(Some("a\tb")).tag_prefix(), None);
    assert_eq!(hdr(Some(" ")).tag_prefix(), None);
}

#[test]
fn histogram_tags_carry_the_prefix() {
    assert_eq!(
        hdr(None).histogram_tags(),
        Some(("cycles".to_string(), "requests".to_string()))
    );
    assert_eq!(
        hdr(Some("a")).histogram_tags(),
        Some(("a.cycles".to_string(), "a.requests".to_string()))
    );
    assert_eq!(hdr(Some("a b")).histogram_tags(), None);
}

#[test]
fn file_of_calls_must_end_in_json() {
    assert_eq!(input_extension_error(Some("json")), None);
    assert_eq!(input_extension_error(Some("JSON")), Some(NOT_A_JSON_FILE));
    assert_eq!(input_extension_error(Some("jso")), Some(NOT_A_JSON_FILE));
    assert_eq!(input_extension_error(Some("jsonl")), Some(NOT_A_JSON_FILE));
    assert_eq!(input_extension_error(Some("")), Some(NOT_A_JSON_FILE));
    assert_eq!(input_extension_error(None), Some(NO_FILE_EXTENSION));
}
