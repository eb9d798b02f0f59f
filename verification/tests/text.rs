use fdm::text::{chars_of, find_char, is_plain_from, parse_number, push_decimal, str_eq};

fn chars(s: &str) -> Vec<char> {
    s.chars().collect()
}

#[test]
fn str_eq_compares_characters() {
    assert!(str_eq("", ""));
    assert!(str_eq("version", "version"));
    assert!(!str_eq("version", "versions"));
    assert!(!str_eq("Version", "version"));
    assert!(str_eq("é", "\u{e9}"));
    assert!(!str_eq("é", "e\u{301}"));
}

#[test]
fn chars_of_gives_every_character() {
    assert_eq!(chars_of(""), Vec::<char>::new());
    assert_eq!(chars_of("a.é-1"), vec!['a', '.', 'é', '-', '1']);
}

#[test]
fn parse_number_reads_a_range_of_digits() {
    let c = chars("12.345");
    assert_eq!(parse_number(&c, 0, 2), Some(12));
    assert_eq!(parse_number(&c, 3, 6), Some(345));
    assert_eq!(parse_number(&c, 1, 2), Some(2));
    assert_eq!(parse_number(&c, 0, 3), None);
    assert_eq!(parse_number(&c, 2, 6), None);
    assert_eq!(parse_number(&c, 2, 2), None);
    assert_eq!(parse_number(&chars("000"), 0, 3), Some(0));
    assert_eq!(parse_number(&chars("007"), 0, 3), Some(7));
}

#[test]
fn parse_number_reads_no_other_digits() {
    assert_eq!(parse_number(&chars("٣"), 0, 1), None);
    assert_eq!(parse_number(&chars("1２"), 0, 2), None);
    assert_eq!(parse_number(&chars("/"), 0, 1), None);
    assert_eq!(parse_number(&chars(":"), 0, 1), None);
    assert_eq!(parse_number(&chars("+1"), 0, 2), None);
}

#[test]
fn parse_number_stops_at_the_limit_of_64_bits() {
    assert_eq!(parse_number(&chars("18446744073709551615"), 0, 20), Some(u64::MAX));
    assert_eq!(parse_number(&chars("18446744073709551616"), 0, 20), None);
    assert_eq!(parse_number(&chars("18446744073709551620"), 0, 20), None);
    assert_eq!(parse_number(&chars("99999999999999999999"), 0, 20), None);
    assert_eq!(parse_number(&chars("000018446744073709551615"), 0, 24), Some(u64::MAX));
}

#[test]
fn find_char_gives_the_first_place_or_the_end() {
    let c = chars("a.b.c");
    assert_eq!(find_char(&c, '.', 0, 5), 1);
    assert_eq!(find_char(&c, '.', 2, 5), 3);
    assert_eq!(find_char(&c, '.', 4, 5), 5);
    assert_eq!(find_char(&c, '.', 0, 1), 1);
    assert_eq!(find_char(&c, '.', 1, 1), 1);
    assert_eq!(find_char(&c, 'a', 0, 5), 0);
    assert_eq!(find_char(&c, 'x', 0, 5), 5);
    assert_eq!(find_char(&c, 'c', 0, 4), 4);
}

#[test]
fn push_decimal_writes_behind_what_is_there() {
    let mut out = String::from("v");
    push_decimal(&mut out, 0);
    assert_eq!(out, "v0");
    push_decimal(&mut out, 1234567890);
    assert_eq!(out, "v01234567890");
    push_decimal(&mut out, 10);
    assert_eq!(out, "v0123456789010");
    let mut max = String::new();
    push_decimal(&mut max, u64::MAX);
    assert_eq!(max, "18446744073709551615");
}

#[test]
fn is_plain_from_looks_for_an_underscore_behind_a_place() {
    let c = chars("a_b-c");
    assert!(!is_plain_from(&c, 0));
    assert!(!is_plain_from(&c, 1));
    assert!(is_plain_from(&c, 2));
    assert!(is_plain_from(&c, 5));
    assert!(is_plain_from(&chars(""), 0));
}
