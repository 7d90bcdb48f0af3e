use clusters::bingx::symbols::to_bingx_symbol;
use clusters::scale::{count_decimals_trimmed, fmt_decimal, parse_scaled};

#[test]
fn helpers() {
    assert_eq!(count_decimals_trimmed("0.0001"), 4);
    assert_eq!(count_decimals_trimmed("1"), 0);
    assert_eq!(parse_scaled("100.5", 1).unwrap(), 1005);
    assert_eq!(parse_scaled("0.0001", 4).unwrap(), 1);
    assert_eq!(fmt_decimal(&format!("{:.12}", 0.01)), "0.01");
    assert_eq!(to_bingx_symbol("BTCUSDT"), "BTC-USDT");
    assert_eq!(to_bingx_symbol("ETHUSDC"), "ETH-USDC");
}
