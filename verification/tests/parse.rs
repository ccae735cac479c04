use temp_convert::parse::parse_input;
use temp_convert::reading::{ParseError, TemperatureUnit};

#[test]
fn accepts_positive_fahrenheit() {
    let r = parse_input("69F").unwrap();
    assert_eq!(r.temp, 69);
    assert_eq!(r.unit, TemperatureUnit::F);
}

#[test]
fn accepts_negative_celsius() {
    let r = parse_input("-30C").unwrap();
    assert_eq!(r.temp, -30);
    assert_eq!(r.unit, TemperatureUnit::C);
}

#[test]
fn accepts_zero() {
    let r = parse_input("0C").unwrap();
    assert_eq!(r.temp, 0);
    assert_eq!(r.unit, TemperatureUnit::C);
}

#[test]
fn accepts_leading_zeros() {
    let r = parse_input("007F").unwrap();
    assert_eq!(r.temp, 7);
    assert_eq!(r.unit, TemperatureUnit::F);
}

#[test]
fn accepts_negative_zero() {
    let r = parse_input("-0F").unwrap();
    assert_eq!(r.temp, 0);
    assert_eq!(r.unit, TemperatureUnit::F);
}

#[test]
fn accepts_extreme_values_in_range() {
    assert_eq!(parse_input("2147483647F").unwrap().temp, 2147483647);
    assert_eq!(parse_input("-2147483648C").unwrap().temp, -2147483648);
}

#[test]
fn rejects_empty_string() {
    assert_eq!(parse_input(""), Err(ParseError::Format));
}

#[test]
fn rejects_lowercase_unit() {
    assert_eq!(parse_input("10f"), Err(ParseError::Format));
    assert_eq!(parse_input("10c"), Err(ParseError::Format));
}

#[test]
fn rejects_missing_unit() {
    assert_eq!(parse_input("10"), Err(ParseError::Format));
}

#[test]
fn rejects_missing_digits() {
    assert_eq!(parse_input("F"), Err(ParseError::Format));
    assert_eq!(parse_input("C"), Err(ParseError::Format));
    assert_eq!(parse_input("-F"), Err(ParseError::Format));
    assert_eq!(parse_input("-C"), Err(ParseError::Format));
}

#[test]
fn rejects_decimal_point() {
    assert_eq!(parse_input("1.5C"), Err(ParseError::Format));
}

#[test]
fn rejects_plain_text() {
    assert_eq!(parse_input("abc"), Err(ParseError::Format));
}

#[test]
fn rejects_unit_before_number() {
    assert_eq!(parse_input("F10"), Err(ParseError::Format));
}

#[test]
fn rejects_extra_characters() {
    assert_eq!(parse_input("10CF"), Err(ParseError::Format));
    assert_eq!(parse_input("10C "), Err(ParseError::Format));
    assert_eq!(parse_input(" 10C"), Err(ParseError::Format));
    assert_eq!(parse_input("10 C"), Err(ParseError::Format));
}

#[test]
fn rejects_explicit_plus_sign() {
    assert_eq!(parse_input("+10C"), Err(ParseError::Format));
}

#[test]
fn rejects_double_minus() {
    assert_eq!(parse_input("--10C"), Err(ParseError::Format));
}

#[test]
fn rejects_non_ascii_digits() {
    // Arabic-Indic three is a Unicode digit but not part of the grammar
    assert_eq!(parse_input("\u{0663}F"), Err(ParseError::Format));
}

#[test]
fn rejects_value_just_out_of_range() {
    assert_eq!(parse_input("2147483648F"), Err(ParseError::NumericParse));
    assert_eq!(parse_input("-2147483649C"), Err(ParseError::NumericParse));
}

#[test]
fn rejects_huge_digit_runs() {
    assert_eq!(parse_input("99999999999999999999F"), Err(ParseError::NumericParse));
    assert_eq!(parse_input("-99999999999999999999C"), Err(ParseError::NumericParse));
}

#[test]
fn format_error_wins_over_numeric_error() {
    // a huge digit run followed by a stray character is still a format error
    assert_eq!(parse_input("99999999999999999999xF"), Err(ParseError::Format));
}

#[test]
fn error_messages_are_fixed() {
    assert_eq!(
        ParseError::Format.message(),
        "Invalid input. Please be sure to enter temps in the following format: [-][digits][F/C]. Examples: -10C, 70F"
    );
    assert_eq!(ParseError::NumericParse.message(), "Failed to parse the temperature component.");
    assert_eq!(ParseError::InvalidUnit.message(), "Invalid temperature unit.");
}
