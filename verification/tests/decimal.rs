use caffeinator::decimal::{format_decimal, parse_decimal};

#[test]
fn format_writes_plain_decimal() {
    assert_eq!(format_decimal(0), "0");
    assert_eq!(format_decimal(7), "7");
    assert_eq!(format_decimal(10), "10");
    assert_eq!(format_decimal(28_800), "28800");
    assert_eq!(format_decimal(-1), "-1");
    assert_eq!(format_decimal(-1_234_567_890), "-1234567890");
    assert_eq!(format_decimal(i64::MAX), "9223372036854775807");
    assert_eq!(format_decimal(i64::MIN), "-9223372036854775808");
}

#[test]
fn parse_accepts_sign_and_digits_only() {
    assert_eq!(parse_decimal("0"), Some(0));
    assert_eq!(parse_decimal("3600"), Some(3600));
    assert_eq!(parse_decimal("+3600"), Some(3600));
    assert_eq!(parse_decimal("-3600"), Some(-3600));
    assert_eq!(parse_decimal("-0"), Some(0));
    assert_eq!(parse_decimal("000012"), Some(12));
    assert_eq!(parse_decimal(""), None);
    assert_eq!(parse_decimal("+"), None);
    assert_eq!(parse_decimal("-"), None);
    assert_eq!(parse_decimal("--1"), None);
    assert_eq!(parse_decimal("+-1"), None);
    assert_eq!(parse_decimal("1 "), None);
    assert_eq!(parse_decimal(" 1"), None);
    assert_eq!(parse_decimal("1_000"), None);
    assert_eq!(parse_decimal("12a"), None);
    assert_eq!(parse_decimal("1.5"), None);
    assert_eq!(parse_decimal("٣"), None);
}

#[test]
fn parse_refuses_what_does_not_fit() {
    assert_eq!(parse_decimal("9223372036854775807"), Some(i64::MAX));
    assert_eq!(parse_decimal("9223372036854775808"), None);
    assert_eq!(parse_decimal("-9223372036854775808"), Some(i64::MIN));
    assert_eq!(parse_decimal("-9223372036854775809"), None);
    assert_eq!(parse_decimal("99999999999999999999999999999999999999999999"), None);
    assert_eq!(parse_decimal("00000000000000000000000000000000000000000001"), Some(1));
}

#[test]
fn parse_agrees_with_the_standard_library() {
    for text in ["0", "-0", "+7", "-7", "0042", "", "-", "+", "9223372036854775807",
        "9223372036854775808", "-9223372036854775808", "-9223372036854775809", "1e3", "0x10", " 5"] {
        assert_eq!(parse_decimal(text), text.parse::<i64>().ok());
    }
}

#[test]
fn format_then_parse_gives_the_number_back() {
    for n in [0, 1, -1, 9, 10, -10, 99, 100, 3600, 86_400, -86_400, i64::MAX, i64::MIN, i64::MAX - 1, i64::MIN + 1] {
        assert_eq!(format_decimal(n), n.to_string());
        assert_eq!(parse_decimal(&format_decimal(n)), Some(n));
    }
}
