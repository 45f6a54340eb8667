use shared_redis::text::characters;
use shared_redis::text::decimal_text;
use shared_redis::text::parse_unsigned;

#[test]
fn parse_unsigned_reads_digits() {
    assert_eq!(parse_unsigned("0", u64::MAX), Some(0));
    assert_eq!(parse_unsigned("42", u64::MAX), Some(42));
    assert_eq!(parse_unsigned("007", u64::MAX), Some(7));
    assert_eq!(parse_unsigned("3600", u64::MAX), Some(3600));
}

#[test]
fn parse_unsigned_takes_one_plus_sign() {
    assert_eq!(parse_unsigned("+5", u64::MAX), Some(5));
    assert_eq!(parse_unsigned("++5", u64::MAX), None);
    assert_eq!(parse_unsigned("+", u64::MAX), None);
}

#[test]
fn parse_unsigned_refuses_what_is_no_number() {
    assert_eq!(parse_unsigned("", u64::MAX), None);
    assert_eq!(parse_unsigned("-1", u64::MAX), None);
    assert_eq!(parse_unsigned(" 1", u64::MAX), None);
    assert_eq!(parse_unsigned("1 ", u64::MAX), None);
    assert_eq!(parse_unsigned("12a", u64::MAX), None);
    assert_eq!(parse_unsigned("1.5", u64::MAX), None);
    assert_eq!(parse_unsigned("\u{662}", u64::MAX), None);
}

#[test]
fn parse_unsigned_stops_at_the_limit() {
    assert_eq!(parse_unsigned("65535", 65535), Some(65535));
    assert_eq!(parse_unsigned("65536", 65535), None);
    assert_eq!(parse_unsigned("18446744073709551615", u64::MAX), Some(u64::MAX));
    assert_eq!(parse_unsigned("18446744073709551616", u64::MAX), None);
    assert_eq!(parse_unsigned("99999999999999999999999", u64::MAX), None);
    assert_eq!(parse_unsigned("0", 0), Some(0));
    assert_eq!(parse_unsigned("1", 0), None);
}

#[test]
fn parse_unsigned_agrees_with_the_standard_parser() {
    for text in ["0", "1", "+1", "-0", "", "+", "00012", "65535", "65536", "1_000", "0x10"] {
        assert_eq!(parse_unsigned(text, 65535), text.parse::<u16>().ok().map(u64::from));
        assert_eq!(parse_unsigned(text, u64::MAX), text.parse::<u64>().ok());
    }
}

#[test]
fn decimal_text_writes_without_leading_zeros() {
    assert_eq!(decimal_text(0), "0");
    assert_eq!(decimal_text(9), "9");
    assert_eq!(decimal_text(10), "10");
    assert_eq!(decimal_text(6379), "6379");
    assert_eq!(decimal_text(u64::MAX), "18446744073709551615");
}

#[test]
fn decimal_text_reads_back() {
    for n in [0u64, 1, 9, 10, 99, 100, 12345, 65535, u64::MAX] {
        assert_eq!(parse_unsigned(&decimal_text(n), u64::MAX), Some(n));
    }
}

#[test]
fn characters_lists_every_character() {
    assert_eq!(characters(""), Vec::<char>::new());
    assert_eq!(characters("a:\u{e9}\n"), vec!['a', ':', '\u{e9}', '\n']);
}
