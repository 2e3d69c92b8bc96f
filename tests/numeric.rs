use sword::numeric::{decimal_string, parse_u64};

#[test]
fn decimal_string_values() {
    assert_eq!(decimal_string(0), "0");
    assert_eq!(decimal_string(7), "7");
    assert_eq!(decimal_string(10), "10");
    assert_eq!(decimal_string(4000), "4000");
    assert_eq!(decimal_string(u64::MAX), "18446744073709551615");
}

#[test]
fn parse_u64_values() {
    assert_eq!(parse_u64("0", 10), Some(0));
    assert_eq!(parse_u64("0003000", 65535), Some(3000));
    assert_eq!(parse_u64("+42", 65535), Some(42));
    assert_eq!(parse_u64("65535", 65535), Some(65535));
    assert_eq!(parse_u64("65536", 65535), None);
    assert_eq!(parse_u64("", 65535), None);
    assert_eq!(parse_u64("+", 65535), None);
    assert_eq!(parse_u64("-1", 65535), None);
    assert_eq!(parse_u64("1 ", 65535), None);
    assert_eq!(parse_u64("18446744073709551615", u64::MAX), Some(u64::MAX));
    assert_eq!(parse_u64("18446744073709551616", u64::MAX), None);
    assert_eq!(parse_u64("99999999999999999999999", u64::MAX), None);
}

#[test]
fn parse_u64_agrees_with_std() {
    for text in ["1", "+0", "12345", "65535", "65536", "abc", "", "+", "++1", "0x10", "٣"] {
        assert_eq!(parse_u64(text, 65535), text.parse::<u16>().ok().map(u64::from));
    }
}
