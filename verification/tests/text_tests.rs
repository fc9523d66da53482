use lighthouse_api::text::{decimal_string, parse_hex_32, parse_u64, prefixed_hex_string};

#[test]
fn decimal_string_renders_like_display() {
    assert_eq!(decimal_string(0), "0");
    assert_eq!(decimal_string(7), "7");
    assert_eq!(decimal_string(10), "10");
    assert_eq!(decimal_string(1234567890), "1234567890");
    assert_eq!(decimal_string(u64::MAX), u64::MAX.to_string());
}

#[test]
fn prefixed_hex_string_renders_lower_case() {
    assert_eq!(prefixed_hex_string(&[]), "0x");
    assert_eq!(prefixed_hex_string(&[0xde, 0xad, 0x00, 0x0f]), "0xdead000f");
}

#[test]
fn parse_u64_accepts_what_from_str_accepts() {
    for s in ["0", "42", "+7", "007", "18446744073709551615"] {
        assert_eq!(parse_u64(s), s.parse::<u64>().ok(), "{}", s);
    }
    assert_eq!(parse_u64("42"), Some(42));
    assert_eq!(parse_u64("+7"), Some(7));
    assert_eq!(parse_u64("18446744073709551615"), Some(u64::MAX));
}

#[test]
fn parse_u64_refuses_what_from_str_refuses() {
    for s in ["", "+", "-1", "12a", " 1", "18446744073709551616", "99999999999999999999x", "++1"] {
        assert_eq!(parse_u64(s), None, "{}", s);
        assert!(s.parse::<u64>().is_err());
    }
}

#[test]
fn parse_hex_32_reads_64_digits_either_case() {
    let lower = "00".repeat(31) + "ff";
    let mut expected = [0u8; 32];
    expected[31] = 0xff;
    assert_eq!(parse_hex_32(&lower), Some(expected));
    let upper = "AB".repeat(32);
    assert_eq!(parse_hex_32(&upper), Some([0xab; 32]));
    assert_eq!(parse_hex_32(&"ab".repeat(31)), None);
    assert_eq!(parse_hex_32(&("ab".repeat(31) + "g0")), None);
    assert_eq!(parse_hex_32(&"ab".repeat(33)), None);
}

#[test]
fn hex_rendering_parses_back() {
    let bytes: [u8; 32] = core::array::from_fn(|i| (i * 37 + 5) as u8);
    let text = prefixed_hex_string(&bytes);
    assert_eq!(parse_hex_32(&text[2..]), Some(bytes));
}
