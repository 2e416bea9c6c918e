use shortlink::codec::{key_to_decimal, parse_key};

#[test]
fn decimal_exact_values() {
    assert_eq!(key_to_decimal(0), "0");
    assert_eq!(key_to_decimal(7), "7");
    assert_eq!(key_to_decimal(42), "42");
    assert_eq!(key_to_decimal(1000000), "1000000");
    assert_eq!(key_to_decimal(u32::MAX), "4294967295");
}

#[test]
fn parse_exact_values() {
    assert_eq!(parse_key("0"), Some(0));
    assert_eq!(parse_key("42"), Some(42));
    assert_eq!(parse_key("007"), Some(7));
    assert_eq!(parse_key("4294967295"), Some(u32::MAX));
}

#[test]
fn parse_rejects_out_of_range() {
    assert_eq!(parse_key("4294967296"), None);
    assert_eq!(parse_key("99999999999999999999"), None);
}

#[test]
fn parse_rejects_non_digits() {
    assert_eq!(parse_key(""), None);
    assert_eq!(parse_key("12a"), None);
    assert_eq!(parse_key("+1"), None);
    assert_eq!(parse_key(" 1"), None);
    assert_eq!(parse_key("-1"), None);
    assert_eq!(parse_key("abc"), None);
}

#[test]
fn decimal_parse_round_trip() {
    for key in [0u32, 1, 9, 10, 99, 100, 12345, 3000000000, u32::MAX] {
        assert_eq!(parse_key(key_to_decimal(key).as_str()), Some(key));
    }
}
