use clusters::bingx::instruments_info::{num_str, parse_spot, parse_swap};
use clusters::bingx::symbols::{to_bingx_symbol, try_bingx_symbol};
use clusters::json::{parse_json, Json};
use clusters::scale::{count_decimals_trimmed, fmt_decimal, parse_scaled};

fn parse(text: &str) -> Json {
    parse_json(text.as_bytes()).unwrap()
}

fn reason(s: &str, scale: u8) -> String {
    parse_scaled(s, scale).unwrap_err().message()
}

#[test]
fn every_refusal_has_its_reason() {
    assert_eq!(reason("  ", 2), "parse error: empty number");
    assert_eq!(reason("-1.0", 2), "parse error: negative number not allowed: -1.0");
    assert_eq!(reason(".5", 2), "parse error: invalid integer part: .5");
    assert_eq!(reason("+5", 2), "parse error: invalid integer part: +5");
    assert_eq!(reason("1.2.3", 2), "parse error: invalid fractional part: 1.2.3");
    assert_eq!(
        reason("9223372036854775808", 0),
        "parse error: number too large to fit in target type"
    );
    assert_eq!(
        reason("0.99999999999999999999", 20),
        "parse error: number too large to fit in target type"
    );
    assert_eq!(reason("1", 19), "parse error: scale 19 overflows i64");
    assert_eq!(reason("0.0", 255), "parse error: scale 255 overflows i64");
    assert_eq!(
        reason("92233720368.54775808", 8),
        "parse error: value 92233720368.54775808 overflows i64 at scale 8"
    );
}

#[test]
fn values_round_down_at_their_scale() {
    assert_eq!(parse_scaled(" 1.999 ", 2).unwrap(), 199);
    assert_eq!(parse_scaled("7.", 1).unwrap(), 70);
    assert_eq!(parse_scaled("1.5", 0).unwrap(), 1);
    assert_eq!(parse_scaled("9223372036854775807", 0).unwrap(), i64::MAX);
    assert_eq!(parse_scaled("0.000000000000000001", 18).unwrap(), 1);
}

#[test]
fn decimals_are_counted_up_to_255() {
    assert_eq!(count_decimals_trimmed("1."), 0);
    assert_eq!(count_decimals_trimmed("100.2300"), 2);
    assert_eq!(count_decimals_trimmed(&format!("0.{}1", "0".repeat(300))), 255);
    assert_eq!(count_decimals_trimmed(""), 0);
}

#[test]
fn fixed_point_texts_are_shortened() {
    assert_eq!(fmt_decimal(&format!("{:.12}", 100.0)), "100");
    assert_eq!(fmt_decimal(&format!("{:.12}", 0.000001)), "0.000001");
    assert_eq!(fmt_decimal(&format!("{:.12}", 0.0)), "0");
    assert_eq!(fmt_decimal(&format!("{:.12}", -1.5)), "0");
    assert_eq!(fmt_decimal(&format!("{:.12}", 1e-15)), "0");
}

#[test]
fn numbers_come_as_texts_or_as_numbers() {
    assert_eq!(num_str(Some(&parse("\"0.5\""))).as_deref(), Some("0.5"));
    assert_eq!(num_str(Some(&parse("10"))).as_deref(), Some("10"));
    assert_eq!(num_str(Some(&parse("0.05"))).as_deref(), Some("0.05"));
    assert_eq!(num_str(Some(&parse("-3"))).as_deref(), Some("0"));
    assert_eq!(num_str(Some(&parse("9007199254740993"))).as_deref(), Some("9007199254740992"));
    assert_eq!(num_str(Some(&parse("9007199254740992"))).as_deref(), Some("9007199254740992"));
    assert_eq!(num_str(Some(&parse("0.1234567890126"))).as_deref(), Some("0.123456789013"));
    assert_eq!(num_str(Some(&parse("1e-15"))).as_deref(), Some("0"));
    assert_eq!(num_str(Some(&parse("-0.5"))).as_deref(), Some("0"));
    assert_eq!(num_str(Some(&parse("null"))), None);
    assert_eq!(num_str(None), None);
}

#[test]
fn dashed_symbols() {
    assert_eq!(to_bingx_symbol("btcusdt"), "BTC-USDT");
    assert_eq!(to_bingx_symbol("ETHBTC"), "ETH-BTC");
    assert_eq!(to_bingx_symbol("BTC"), "BTC");
    assert_eq!(try_bingx_symbol("ETHBTC").as_deref(), Some("ETH-BTC"));
    assert_eq!(try_bingx_symbol("ßUSDT").as_deref(), Some("SS-USDT"));
    assert_eq!(try_bingx_symbol("日本"), Some("日-本".to_string()));
    assert_eq!(try_bingx_symbol("eéé"), None);
}

#[test]
fn bingx_errors_are_reported() {
    let bad = r#"{"code":100,"msg":"nope"}"#;
    assert_eq!(parse_swap(bad).unwrap_err().message(), "parse error: BingX API error: nope");
    assert_eq!(
        parse_spot("{}").unwrap_err().message(),
        "parse error: BingX API error: unknown"
    );
    assert_eq!(
        parse_swap(r#"{"code":0}"#).unwrap_err().message(),
        "parse error: missing data array"
    );
    assert_eq!(
        parse_spot(r#"{"code":0,"data":[]}"#).unwrap_err().message(),
        "parse error: missing data.symbols array"
    );
}
