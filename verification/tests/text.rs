use status_checker::text::{
    char_is_digit, char_is_whitespace, chars_of, find_char, parse_unsigned, push_decimal,
    same_text, scan_digits, trim, trim_bounds,
};

fn decimal_of(n: u128) -> String {
    let mut out = String::new();
    push_decimal(&mut out, n);
    out
}

#[test]
fn whitespace_is_what_std_calls_whitespace() {
    let mut code: u32 = 0;
    while code <= 0x10FFFF {
        if let Some(c) = char::from_u32(code) {
            assert_eq!(char_is_whitespace(c), c.is_whitespace(), "U+{:04X}", code);
        }
        code += 1;
    }
}

#[test]
fn digits_are_the_ten_ascii_digits() {
    let mut code: u32 = 0;
    while code <= 0x10FFFF {
        if let Some(c) = char::from_u32(code) {
            assert_eq!(char_is_digit(c), c.is_ascii_digit(), "U+{:04X}", code);
        }
        code += 1;
    }
}

#[test]
fn chars_of_keeps_every_character_in_order() {
    assert_eq!(chars_of(""), Vec::<char>::new());
    assert_eq!(chars_of("a\u{e9}\u{4e2d}\u{1F600}z"), vec!['a', '\u{e9}', '\u{4e2d}', '\u{1F600}', 'z']);
}

#[test]
fn trim_cuts_both_ends_only() {
    assert_eq!(trim("  a b \t"), "a b");
    assert_eq!(trim("abc"), "abc");
    assert_eq!(trim(""), "");
    assert_eq!(trim(" \t\r\n "), "");
    assert_eq!(trim("\u{a0}x\u{3000}"), "x");
    assert_eq!(trim("\u{2003}https://example.com\u{85}\n"), "https://example.com");
    assert_eq!(trim("x"), "x");
    assert_eq!(trim(" x"), "x");
    assert_eq!(trim("x "), "x");
}

#[test]
fn trim_agrees_with_std() {
    let samples = [
        "", " ", "a", " a", "a ", "  a  b  ", "\t\n\r", "\u{1680}q\u{2028}\u{2029}", "\u{200b}z ",
        "# comment ", "\u{feff}x", " \u{202f}\u{205f}mid dle\u{2000}\u{200a}",
    ];
    for s in samples {
        assert_eq!(trim(s), s.trim(), "{:?}", s);
    }
}

#[test]
fn trim_bounds_mark_the_core() {
    let v = chars_of("  ab ");
    assert_eq!(trim_bounds(&v), (2, 4));
    let blank = chars_of("   ");
    assert_eq!(trim_bounds(&blank), (3, 3));
    let none = chars_of("");
    assert_eq!(trim_bounds(&none), (0, 0));
}

#[test]
fn find_char_finds_the_first_from_the_start_index() {
    let v = chars_of("a:b:c");
    assert_eq!(find_char(&v, ':', 0), 1);
    assert_eq!(find_char(&v, ':', 1), 1);
    assert_eq!(find_char(&v, ':', 2), 3);
    assert_eq!(find_char(&v, ':', 4), 5);
    assert_eq!(find_char(&v, 'z', 0), 5);
    assert_eq!(find_char(&v, 'a', 5), 5);
    assert_eq!(find_char(&v, 'a', 9), 9);
}

#[test]
fn same_text_compares_contents() {
    assert!(same_text("--file", "--file"));
    assert!(!same_text("--file", "--files"));
    assert!(!same_text("--file", "--filE"));
    assert!(same_text("", ""));
    assert!(!same_text("", " "));
}

#[test]
fn push_decimal_writes_the_numeral() {
    assert_eq!(decimal_of(0), "0");
    assert_eq!(decimal_of(7), "7");
    assert_eq!(decimal_of(10), "10");
    assert_eq!(decimal_of(200), "200");
    assert_eq!(decimal_of(1234567890), "1234567890");
    assert_eq!(decimal_of(u64::MAX as u128), "18446744073709551615");
    assert_eq!(decimal_of(u128::MAX), "340282366920938463463374607431768211455");
}

#[test]
fn push_decimal_appends_to_what_is_there() {
    let mut out = String::from("n=");
    push_decimal(&mut out, 42);
    push_decimal(&mut out, 0);
    assert_eq!(out, "n=420");
}

#[test]
fn scan_digits_stops_at_the_first_other_character() {
    let v = chars_of("123abc45");
    assert_eq!(scan_digits(&v, 0), 3);
    assert_eq!(scan_digits(&v, 3), 3);
    assert_eq!(scan_digits(&v, 6), 8);
    assert_eq!(scan_digits(&v, 8), 8);
    assert_eq!(scan_digits(&v, 20), 20);
}

#[test]
fn parse_unsigned_accepts_digits_and_one_plus() {
    assert_eq!(parse_unsigned("42", u64::MAX as u128), Some(42));
    assert_eq!(parse_unsigned("+7", u64::MAX as u128), Some(7));
    assert_eq!(parse_unsigned("007", u64::MAX as u128), Some(7));
    assert_eq!(parse_unsigned("0", u64::MAX as u128), Some(0));
    assert_eq!(parse_unsigned("", u64::MAX as u128), None);
    assert_eq!(parse_unsigned("+", u64::MAX as u128), None);
    assert_eq!(parse_unsigned("-", u64::MAX as u128), None);
    assert_eq!(parse_unsigned("-1", u64::MAX as u128), None);
    assert_eq!(parse_unsigned("++1", u64::MAX as u128), None);
    assert_eq!(parse_unsigned(" 5", u64::MAX as u128), None);
    assert_eq!(parse_unsigned("5 ", u64::MAX as u128), None);
    assert_eq!(parse_unsigned("1e3", u64::MAX as u128), None);
    assert_eq!(parse_unsigned("1.5", u64::MAX as u128), None);
    assert_eq!(parse_unsigned("\u{661}", u64::MAX as u128), None);
}

#[test]
fn parse_unsigned_rejects_what_exceeds_the_limit() {
    assert_eq!(parse_unsigned("255", 255), Some(255));
    assert_eq!(parse_unsigned("256", 255), None);
    assert_eq!(parse_unsigned("+0000256", 255), None);
    assert_eq!(parse_unsigned("18446744073709551615", u64::MAX as u128), Some(u64::MAX as u128));
    assert_eq!(parse_unsigned("18446744073709551616", u64::MAX as u128), None);
    assert_eq!(
        parse_unsigned("340282366920938463463374607431768211455", u128::MAX),
        Some(u128::MAX)
    );
    assert_eq!(parse_unsigned("340282366920938463463374607431768211456", u128::MAX), None);
    assert_eq!(parse_unsigned("99999999999999999999999999999999999999999999", u128::MAX), None);
}

#[test]
fn parse_unsigned_agrees_with_std_on_u64() {
    let samples = [
        "0", "1", "+1", "-1", "", "+", "-", "00", "+00012", "12a", "a12", " 12", "12 ",
        "18446744073709551615", "18446744073709551616", "4294967296", "--1", "+-1", "1_000",
        "0x10", "\u{ff11}",
    ];
    for s in samples {
        let expected = s.parse::<u64>().ok().map(|n| n as u128);
        assert_eq!(parse_unsigned(s, u64::MAX as u128), expected, "{:?}", s);
    }
}

#[test]
fn numerals_read_back_as_their_numbers() {
    let samples: [u128; 8] = [0, 1, 9, 10, 99, 100, 65535, u128::MAX];
    for n in samples {
        let text = decimal_of(n);
        assert_eq!(parse_unsigned(&text, u128::MAX), Some(n));
    }
}
