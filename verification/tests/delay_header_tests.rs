use latency_proxy::delay_header::millis_to_nanos;
use latency_proxy::delay_header::override_delay_ns;
use latency_proxy::delay_header::parse_delay_ms;

#[test]
fn parses_plain_digits() {
    assert_eq!(parse_delay_ms(b"100"), Some(100));
    assert_eq!(parse_delay_ms(b"50"), Some(50));
    assert_eq!(parse_delay_ms(b"7"), Some(7));
}

#[test]
fn parses_zero() {
    assert_eq!(parse_delay_ms(b"0"), Some(0));
    assert_eq!(parse_delay_ms(b"000"), Some(0));
}

#[test]
fn accepts_leading_zeros() {
    assert_eq!(parse_delay_ms(b"0042"), Some(42));
}

#[test]
fn accepts_one_leading_plus() {
    assert_eq!(parse_delay_ms(b"+15"), Some(15));
    assert_eq!(parse_delay_ms(b"++15"), None);
    assert_eq!(parse_delay_ms(b"+"), None);
}

#[test]
fn rejects_empty_value() {
    assert_eq!(parse_delay_ms(b""), None);
}

#[test]
fn rejects_negative_numbers() {
    assert_eq!(parse_delay_ms(b"-1"), None);
    assert_eq!(parse_delay_ms(b"-0"), None);
}

#[test]
fn rejects_non_integers() {
    assert_eq!(parse_delay_ms(b"1.5"), None);
    assert_eq!(parse_delay_ms(b"abc"), None);
    assert_eq!(parse_delay_ms(b"12ms"), None);
    assert_eq!(parse_delay_ms(b"1e3"), None);
    assert_eq!(parse_delay_ms(b"0x10"), None);
}

#[test]
fn rejects_blanks_around_the_number() {
    assert_eq!(parse_delay_ms(b" 100"), None);
    assert_eq!(parse_delay_ms(b"100 "), None);
    assert_eq!(parse_delay_ms(b"1 0"), None);
    assert_eq!(parse_delay_ms(b"\t100"), None);
}

#[test]
fn rejects_bytes_outside_ascii() {
    assert_eq!(parse_delay_ms(&[0x31, 0xff]), None);
    assert_eq!(parse_delay_ms(&[0xd9, 0xa1]), None);
}

#[test]
fn parses_the_largest_value() {
    assert_eq!(parse_delay_ms(b"18446744073709551615"), Some(u64::MAX));
    assert_eq!(parse_delay_ms(b"018446744073709551615"), Some(u64::MAX));
}

#[test]
fn rejects_values_beyond_64_bits() {
    assert_eq!(parse_delay_ms(b"18446744073709551616"), None);
    assert_eq!(parse_delay_ms(b"18446744073709551620"), None);
    assert_eq!(parse_delay_ms(b"99999999999999999999"), None);
    assert_eq!(parse_delay_ms(b"100000000000000000000000"), None);
}

#[test]
fn agrees_with_the_standard_integer_parser() {
    let samples: Vec<&str> = vec![
        "", "0", "1", "9", "10", "100", "+100", "-100", "+", "-", "+-1", "1+", " 1", "1 ",
        "007", "18446744073709551615", "18446744073709551616", "+18446744073709551615",
        "1844674407370955161", "184467440737095516150", "1_000", "1,000", "\u{661}\u{662}\u{663}", "12a", "a12",
        "0.0", "NaN", "inf", "4294967296", "+0", "-0", "00000000000000000000000000001",
    ];
    for text in samples {
        assert_eq!(parse_delay_ms(text.as_bytes()), text.parse::<u64>().ok(), "{:?}", text);
    }
}

#[test]
fn converts_milliseconds_exactly() {
    assert_eq!(millis_to_nanos(0), 0);
    assert_eq!(millis_to_nanos(1), 1_000_000);
    assert_eq!(millis_to_nanos(50), 50_000_000);
    assert_eq!(millis_to_nanos(100), 100_000_000);
    assert_eq!(millis_to_nanos(18_446_744_073_709), 18_446_744_073_709_000_000);
}

#[test]
fn conversion_saturates_where_the_product_does_not_fit() {
    assert_eq!(millis_to_nanos(18_446_744_073_710), u64::MAX);
    assert_eq!(millis_to_nanos(u64::MAX), u64::MAX);
}

#[test]
fn override_of_100_is_100_million_nanoseconds() {
    assert_eq!(override_delay_ns(b"100"), Some(100_000_000));
}

#[test]
fn override_of_zero_is_a_delay_of_zero() {
    assert_eq!(override_delay_ns(b"0"), Some(0));
}

#[test]
fn override_of_a_malformed_value_is_none() {
    assert_eq!(override_delay_ns(b"fast"), None);
    assert_eq!(override_delay_ns(b"-5"), None);
    assert_eq!(override_delay_ns(b""), None);
}

#[test]
fn override_of_a_huge_value_saturates() {
    assert_eq!(override_delay_ns(b"18446744073709551615"), Some(u64::MAX));
}
