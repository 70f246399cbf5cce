use pdf_layout::{parse_coordinate, COORD_LIMIT, UNITS_PER_POINT};

#[test]
fn reads_what_the_extractor_writes() {
    assert_eq!(parse_coordinate("56.800000"), Some(56_800_000));
    assert_eq!(parse_coordinate("612.000000"), Some(612 * UNITS_PER_POINT));
    assert_eq!(parse_coordinate("0.000001"), Some(1));
    assert_eq!(parse_coordinate("0"), Some(0));
}

#[test]
fn reads_signs() {
    assert_eq!(parse_coordinate("-1.5"), Some(-1_500_000));
    assert_eq!(parse_coordinate("+3"), Some(3_000_000));
    assert_eq!(parse_coordinate("-0"), Some(0));
}

#[test]
fn reads_numbers_without_one_of_the_parts() {
    assert_eq!(parse_coordinate(".5"), Some(500_000));
    assert_eq!(parse_coordinate("5."), Some(5_000_000));
    assert_eq!(parse_coordinate("-.25"), Some(-250_000));
}

#[test]
fn pads_and_drops_fraction_digits() {
    assert_eq!(parse_coordinate("1.2"), Some(1_200_000));
    assert_eq!(parse_coordinate("1.234567"), Some(1_234_567));
    assert_eq!(parse_coordinate("1.2345678"), Some(1_234_567));
    assert_eq!(parse_coordinate("1.2345679999999999999999999999"), Some(1_234_567));
    assert_eq!(parse_coordinate("-1.9999999"), Some(-1_999_999));
}

#[test]
fn reads_leading_zeros() {
    assert_eq!(parse_coordinate("0000000000000000000000000012.5"), Some(12_500_000));
}

#[test]
fn refuses_what_is_no_decimal_number() {
    assert_eq!(parse_coordinate(""), None);
    assert_eq!(parse_coordinate("."), None);
    assert_eq!(parse_coordinate("-"), None);
    assert_eq!(parse_coordinate("+."), None);
    assert_eq!(parse_coordinate("abc"), None);
    assert_eq!(parse_coordinate("1e3"), None);
    assert_eq!(parse_coordinate("1.2.3"), None);
    assert_eq!(parse_coordinate("1,5"), None);
    assert_eq!(parse_coordinate(" 1"), None);
    assert_eq!(parse_coordinate("1 "), None);
    assert_eq!(parse_coordinate("--1"), None);
    assert_eq!(parse_coordinate("1-"), None);
    assert_eq!(parse_coordinate("12x.5"), None);
    assert_eq!(parse_coordinate("12.5x"), None);
    assert_eq!(parse_coordinate("inf"), None);
    assert_eq!(parse_coordinate("NaN"), None);
}

#[test]
fn refuses_characters_outside_ascii() {
    assert_eq!(parse_coordinate("\u{ff11}\u{ff12}"), None);
    assert_eq!(parse_coordinate("1.5\u{a0}"), None);
    assert_eq!(parse_coordinate("\u{e9}"), None);
}

#[test]
fn holds_the_coordinate_limit() {
    assert_eq!(parse_coordinate("1000000"), Some(COORD_LIMIT));
    assert_eq!(parse_coordinate("-1000000.000000"), Some(-COORD_LIMIT));
    assert_eq!(parse_coordinate("1000000.0000009"), Some(COORD_LIMIT));
    assert_eq!(parse_coordinate("1000000.000001"), None);
    assert_eq!(parse_coordinate("1000001"), None);
    assert_eq!(parse_coordinate("999999.999999"), Some(999_999_999_999));
    assert_eq!(parse_coordinate("99999999999999999999999999999999999999999"), None);
}
