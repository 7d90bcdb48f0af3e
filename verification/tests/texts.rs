use clusters::aggregator::align;
use clusters::num::{nanoseconds, saturating_add, saturating_mul, saturating_sub};
use clusters::text::{
    contains_text, ends_with, eq_ignore_ascii_case, i64_text, is_listed, join, parse_i64, parse_u32,
    parse_u64, parse_u8, replace_char, same_text, split_char, split_lines, starts_with,
    strip_prefix, strip_suffix, text_of, to_ascii_uppercase, trim, trim_end_char, u64_text,
};
use clusters::traits::ExchangeError;

#[test]
fn white_space_is_trimmed_at_both_ends() {
    assert_eq!(text_of(&trim("  \u{a0}\u{2003}a b\t\r\n")), "a b");
    assert_eq!(text_of(&trim("\u{3000}")), "");
    assert_eq!(trim_end_char("http://h///", '/'), "http://h");
}

#[test]
fn lines_end_with_line_feeds() {
    assert_eq!(split_lines("a\r\nb\n\nc"), vec!["a", "b", "", "c"]);
    assert_eq!(split_lines("a\n"), vec!["a"]);
    assert_eq!(split_lines("a\r"), vec!["a\r"]);
    assert!(split_lines("").is_empty());
    for s in ["", "\n", "x", "x\r\ny", "\r\n", "a\n\r\n"] {
        let expected: Vec<&str> = s.lines().collect();
        assert_eq!(split_lines(s), expected);
    }
}

#[test]
fn integers_are_read_with_their_sign_and_range() {
    assert_eq!(parse_u64("18446744073709551615"), Some(u64::MAX));
    assert_eq!(parse_u64("18446744073709551616"), None);
    assert_eq!(parse_u64("+5"), Some(5));
    assert_eq!(parse_u64("-0"), None);
    assert_eq!(parse_u64(""), None);
    assert_eq!(parse_u64("+"), None);
    assert_eq!(parse_i64("-9223372036854775808"), Some(i64::MIN));
    assert_eq!(parse_i64("-9223372036854775809"), None);
    assert_eq!(parse_i64("9223372036854775808"), None);
    assert_eq!(parse_i64("-"), None);
    assert_eq!(parse_i64(" 1"), None);
    assert_eq!(parse_u32("4294967295"), Some(u32::MAX));
    assert_eq!(parse_u32("4294967296"), None);
    assert_eq!(parse_u8("255"), Some(255));
    assert_eq!(parse_u8("256"), None);
}

#[test]
fn integers_are_written_in_base_ten() {
    for n in [0u64, 9, 10, 12345, u64::MAX] {
        assert_eq!(u64_text(n), n.to_string());
        assert_eq!(parse_u64(&u64_text(n)), Some(n));
    }
    for n in [0i64, -1, i64::MIN, i64::MAX] {
        assert_eq!(i64_text(n), n.to_string());
        assert_eq!(parse_i64(&i64_text(n)), Some(n));
    }
}

#[test]
fn texts_are_searched_and_cut() {
    assert!(contains_text("BTC-USDT@trade", "@trade"));
    assert!(!contains_text("abc", "abcd"));
    assert!(contains_text("abc", ""));
    assert!(starts_with("abc", "ab") && !starts_with("abc", "b"));
    assert!(ends_with("abc", "bc") && !ends_with("abc", "b"));
    assert_eq!(strip_prefix("publicTrade.X", "publicTrade.").as_deref(), Some("X"));
    assert_eq!(strip_prefix("X", "publicTrade."), None);
    assert_eq!(strip_suffix("BTCUSDC", "USDC").as_deref(), Some("BTC"));
    assert_eq!(replace_char("o'br'ien", '\'', "''"), "o''br''ien");
    assert_eq!(join(&["a".to_string(), "b".to_string()], ", "), "a, b");
    assert_eq!(join(&[], ", "), "");
    assert_eq!(split_char("a,,b", ','), vec!["a", "", "b"]);
    assert_eq!(split_char("", ','), vec![""]);
    assert!(same_text("é", "é") && !same_text("é", "e"));
    assert!(is_listed(&["x".to_string()], "x") && !is_listed(&[], "x"));
}

#[test]
fn ascii_case_only() {
    assert_eq!(to_ascii_uppercase("btcé"), "BTCé");
    assert!(eq_ignore_ascii_case("BtC", "bTc"));
    assert!(!eq_ignore_ascii_case("é", "É"));
}

#[test]
fn arithmetic_saturates() {
    assert_eq!(saturating_add(i64::MAX, 1), i64::MAX);
    assert_eq!(saturating_add(i64::MIN, -1), i64::MIN);
    assert_eq!(saturating_sub(i64::MIN, 1), i64::MIN);
    assert_eq!(saturating_sub(0, i64::MIN), i64::MAX);
    assert_eq!(saturating_mul(i64::MAX, -2), i64::MIN);
    assert_eq!(saturating_mul(i64::MIN, -1), i64::MAX);
    assert_eq!(nanoseconds(1_700_000_000_123), 1_700_000_000_123_000_000);
    assert_eq!(nanoseconds(i64::MAX), i64::MAX);
}

#[test]
fn alignment_rounds_towards_zero() {
    assert_eq!(align(12_345, 10), 12_340);
    assert_eq!(align(-12_345, 10), -12_340);
    assert_eq!(align(i64::MIN, 7), i64::MIN / 7 * 7);
}

#[test]
fn errors_describe_themselves() {
    assert_eq!(ExchangeError::Network("x".into()).message(), "network error: x");
    assert_eq!(ExchangeError::Parse("x".into()).message(), "parse error: x");
    assert_eq!(ExchangeError::Other("x".into()).message(), "unexpected: x");
    let limited = ExchangeError::RateLimited { until_ms: -5, reason: "slow".into() };
    assert_eq!(limited.message(), "rate limited until epoch_ms=-5: slow");
}
