use eleanor::decimal::parse_i64;

#[test]
fn whole_numbers_are_read() {
    for (text, expected) in [
        ("0", 0),
        ("7", 7),
        ("+7", 7),
        ("-7", -7),
        ("-0", 0),
        ("007", 7),
        ("1708714420", 1_708_714_420),
        ("9223372036854775807", i64::MAX),
        ("-9223372036854775808", i64::MIN),
        ("+0000000000000000000000009223372036854775807", i64::MAX),
    ] {
        assert_eq!(parse_i64(text), Some(expected), "{text}");
        assert_eq!(text.parse::<i64>().ok(), Some(expected), "{text}");
    }
}

#[test]
fn what_is_no_whole_number_is_refused() {
    for text in [
        "", "+", "-", " 5", "5 ", "5.0", "1e3", "1_000", "--5", "+-5", "5-", "abc", "0x10",
        "\u{0663}", "9223372036854775808", "-9223372036854775809", "99999999999999999999999999",
        "-99999999999999999999999999",
    ] {
        assert_eq!(parse_i64(text), None, "{text}");
        assert!(text.parse::<i64>().is_err(), "{text}");
    }
}
