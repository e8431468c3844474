//! Numeric-literal interpretation: base selection by prefix and the digit
//! parse under the selected base.

use svd2utra::{get_base, parse_usize, ParseError};

#[test]
fn base_selection_hex_lower() {
    let (rest, base) = get_base("0x1A");
    assert_eq!(rest, "1A");
    assert_eq!(base, 16);
}

#[test]
fn base_selection_hex_upper() {
    let (rest, base) = get_base("0X1A");
    assert_eq!(rest, "1A");
    assert_eq!(base, 16);
}

#[test]
fn base_selection_binary() {
    let (rest, base) = get_base("0b101");
    assert_eq!(rest, "101");
    assert_eq!(base, 2);
    let (rest, base) = get_base("0B101");
    assert_eq!(rest, "101");
    assert_eq!(base, 2);
}

#[test]
fn base_selection_octal_strips_one_zero() {
    let (rest, base) = get_base("017");
    assert_eq!(rest, "17");
    assert_eq!(base, 8);
    let (rest, base) = get_base("007");
    assert_eq!(rest, "07");
    assert_eq!(base, 8);
}

#[test]
fn base_selection_decimal() {
    let (rest, base) = get_base("42");
    assert_eq!(rest, "42");
    assert_eq!(base, 10);
}

#[test]
fn base_selection_zero_is_decimal() {
    let (rest, base) = get_base("0");
    assert_eq!(rest, "0");
    assert_eq!(base, 10);
}

#[test]
fn parse_reconstructs_values() {
    assert_eq!(parse_usize("0x1A"), Ok(26));
    assert_eq!(parse_usize("0X1a"), Ok(26));
    assert_eq!(parse_usize("0b101"), Ok(5));
    assert_eq!(parse_usize("0B101"), Ok(5));
    assert_eq!(parse_usize("017"), Ok(15));
    assert_eq!(parse_usize("42"), Ok(42));
    assert_eq!(parse_usize("0"), Ok(0));
    assert_eq!(parse_usize("00"), Ok(0));
    assert_eq!(parse_usize("0x40000000"), Ok(0x40000000));
}

#[test]
fn parse_rejects_bad_digits() {
    assert_eq!(parse_usize("0xZZ"), Err(ParseError::ParseIntError));
    assert_eq!(parse_usize("0b2"), Err(ParseError::ParseIntError));
    assert_eq!(parse_usize("019"), Err(ParseError::ParseIntError));
    assert_eq!(parse_usize("4x2"), Err(ParseError::ParseIntError));
    assert_eq!(parse_usize("-1"), Err(ParseError::ParseIntError));
}

#[test]
fn parse_rejects_empty_digit_strings() {
    assert_eq!(parse_usize(""), Err(ParseError::ParseIntError));
    assert_eq!(parse_usize("0x"), Err(ParseError::ParseIntError));
    assert_eq!(parse_usize("0b"), Err(ParseError::ParseIntError));
}

#[test]
fn parse_rejects_overflow() {
    assert_eq!(
        parse_usize("0xFFFFFFFFFFFFFFFFF"),
        Err(ParseError::ParseIntError)
    );
}
