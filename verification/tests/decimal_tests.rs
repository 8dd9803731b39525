use serial_agent::decimal::{parse_i32, u32_to_string};

#[test]
fn renders_zero() {
    assert_eq!(u32_to_string(0), "0");
}

#[test]
fn renders_small_and_boundary_values() {
    assert_eq!(u32_to_string(7), "7");
    assert_eq!(u32_to_string(10), "10");
    assert_eq!(u32_to_string(255), "255");
    assert_eq!(u32_to_string(256), "256");
    assert_eq!(u32_to_string(265), "265");
}

#[test]
fn renders_largest_u32() {
    assert_eq!(u32_to_string(u32::MAX), "4294967295");
}

#[test]
fn parses_plain_decimal() {
    assert_eq!(parse_i32("123"), Some(123));
    assert_eq!(parse_i32("0"), Some(0));
}

#[test]
fn parses_signed_decimal() {
    assert_eq!(parse_i32("-123"), Some(-123));
    assert_eq!(parse_i32("+5"), Some(5));
}

#[test]
fn parses_i32_boundaries() {
    assert_eq!(parse_i32("2147483647"), Some(i32::MAX));
    assert_eq!(parse_i32("-2147483648"), Some(i32::MIN));
    assert_eq!(parse_i32("2147483648"), None);
    assert_eq!(parse_i32("-2147483649"), None);
}

#[test]
fn rejects_malformed_numbers() {
    assert_eq!(parse_i32(""), None);
    assert_eq!(parse_i32("-"), None);
    assert_eq!(parse_i32("+"), None);
    assert_eq!(parse_i32("abc"), None);
    assert_eq!(parse_i32("12x"), None);
    assert_eq!(parse_i32(" 12"), None);
    assert_eq!(parse_i32("99999999999999999999"), None);
}

#[test]
fn parse_matches_std() {
    for s in ["0", "-1", "+42", "2147483647", "-2147483648", "2147483648", "", "x", "1 2"] {
        assert_eq!(parse_i32(s), s.parse::<i32>().ok(), "input {:?}", s);
    }
}
