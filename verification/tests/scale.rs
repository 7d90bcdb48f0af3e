use clusters::scale::{count_decimals_trimmed, parse_scaled};

#[test]
fn integer_only() {
    assert_eq!(parse_scaled("1", 2).unwrap(), 100);
    assert_eq!(parse_scaled("123", 0).unwrap(), 123);
}

#[test]
fn fractional_padding() {
    assert_eq!(parse_scaled("0.10", 2).unwrap(), 10);
    assert_eq!(parse_scaled("1.5", 3).unwrap(), 1500);
}

#[test]
fn fractional_truncation() {
    assert_eq!(parse_scaled("0.123", 2).unwrap(), 12);
}

#[test]
fn binance_typical_price() {
    assert_eq!(parse_scaled("67234.50", 2).unwrap(), 6_723_450);
}

#[test]
fn rejects_negative() {
    assert!(parse_scaled("-1.0", 2).is_err());
}

#[test]
fn rejects_garbage() {
    assert!(parse_scaled("", 2).is_err());
    assert!(parse_scaled("abc", 2).is_err());
    assert!(parse_scaled("1.2.3", 2).is_err());
}

#[test]
fn count_decimals_trimmed_matches_terminal_convention() {
    assert_eq!(count_decimals_trimmed("0.10000000"), 1); // BTCUSDT futures tick
    assert_eq!(count_decimals_trimmed("0.01000000"), 2); // ETHUSDT spot tick
    assert_eq!(count_decimals_trimmed("0.10"), 1);
    assert_eq!(count_decimals_trimmed("0.01"), 2);
    assert_eq!(count_decimals_trimmed("0.001"), 3);
    assert_eq!(count_decimals_trimmed("1"), 0);
    assert_eq!(count_decimals_trimmed("1.0"), 0);
    assert_eq!(count_decimals_trimmed("100"), 0);
    assert_eq!(count_decimals_trimmed("0.0001"), 4);
}

#[test]
fn matches_terminal_convention() {
    assert_eq!(count_decimals_trimmed("0.10"), 1);
    assert_eq!(count_decimals_trimmed("0.01"), 2);
    assert_eq!(count_decimals_trimmed("0.001"), 3);
    assert_eq!(count_decimals_trimmed("1"), 0);
    assert_eq!(count_decimals_trimmed("1.0"), 0);
}

#[test]
fn parse_scaled_basic() {
    assert_eq!(parse_scaled("67234.50", 2).unwrap(), 6_723_450);
    assert_eq!(parse_scaled("0.10", 1).unwrap(), 1);
    assert_eq!(parse_scaled("100", 0).unwrap(), 100);
}

#[test]
fn parse_scaled_scale_zero_truncates_fraction() {
    assert_eq!(parse_scaled("0.123", 0).unwrap(), 0);
    assert_eq!(parse_scaled("42.5", 0).unwrap(), 42);
}
