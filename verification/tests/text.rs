use minicc::text::{
    append_decimal, append_digits, decimal_string, parse_decimal, parse_digits, str_equals,
};

#[test]
fn numerals_of_integers() {
    assert_eq!(decimal_string(0), "0");
    assert_eq!(decimal_string(7), "7");
    assert_eq!(decimal_string(10), "10");
    assert_eq!(decimal_string(-1), "-1");
    assert_eq!(decimal_string(1234567890), "1234567890");
    assert_eq!(decimal_string(i32::MAX), "2147483647");
    assert_eq!(decimal_string(i32::MIN), "-2147483648");
}

#[test]
fn numerals_agree_with_the_standard_library() {
    for value in [-100000, -4097, -99, -10, -9, 0, 9, 10, 99, 100, 101, 65535, 999999999] {
        assert_eq!(decimal_string(value), format!("{}", value));
    }
}

#[test]
fn appending_keeps_what_was_there() {
    let mut out = "x=".to_string();
    append_decimal(&mut out, -42);
    assert_eq!(out, "x=-42");
    append_digits(&mut out, 18446744073709551615);
    assert_eq!(out, "x=-4218446744073709551615");
    append_digits(&mut out, 0);
    assert_eq!(out, "x=-42184467440737095516150");
}

#[test]
fn reading_a_signed_numeral() {
    assert_eq!(parse_decimal("0"), Some(0));
    assert_eq!(parse_decimal("42"), Some(42));
    assert_eq!(parse_decimal("+42"), Some(42));
    assert_eq!(parse_decimal("-42"), Some(-42));
    assert_eq!(parse_decimal("0000000000000000000012"), Some(12));
    assert_eq!(parse_decimal("2147483647"), Some(i32::MAX));
    assert_eq!(parse_decimal("-2147483648"), Some(i32::MIN));
    assert_eq!(parse_decimal("-0"), Some(0));
}

#[test]
fn reading_refuses_what_is_no_i32() {
    assert_eq!(parse_decimal(""), None);
    assert_eq!(parse_decimal("+"), None);
    assert_eq!(parse_decimal("-"), None);
    assert_eq!(parse_decimal("2147483648"), None);
    assert_eq!(parse_decimal("+2147483648"), None);
    assert_eq!(parse_decimal("-2147483649"), None);
    assert_eq!(parse_decimal("99999999999999999999999999999"), None);
    assert_eq!(parse_decimal("1 "), None);
    assert_eq!(parse_decimal(" 1"), None);
    assert_eq!(parse_decimal("1a"), None);
    assert_eq!(parse_decimal("--1"), None);
    assert_eq!(parse_decimal("\u{663}"), None);
}

#[test]
fn reading_agrees_with_the_standard_library() {
    for text in ["", "5", "-5", "+5", "05", "2147483647", "2147483648", "-2147483648", "1e3", "0x10"] {
        assert_eq!(parse_decimal(text), text.parse::<i32>().ok());
    }
}

#[test]
fn reading_digits_from_a_position() {
    assert_eq!(parse_digits("%12", 1, 100), Some(12));
    assert_eq!(parse_digits("%12", 0, 100), None);
    assert_eq!(parse_digits("%12", 3, 100), None);
    assert_eq!(parse_digits("%100", 1, 100), Some(100));
    assert_eq!(parse_digits("%101", 1, 100), None);
    assert_eq!(parse_digits("%1x", 1, 100), None);
    assert_eq!(parse_digits("99999999999999999999999999", 0, 0xffff_ffff_ffff), None);
    assert_eq!(parse_digits("281474976710655", 0, 0xffff_ffff_ffff), Some(281474976710655));
}

#[test]
fn string_equality() {
    assert!(str_equals("", ""));
    assert!(str_equals("return", "return"));
    assert!(!str_equals("return", "returns"));
    assert!(!str_equals("int", "inT"));
    assert!(str_equals("caf\u{e9}", "caf\u{e9}"));
    assert!(!str_equals("caf\u{e9}", "cafe"));
}
