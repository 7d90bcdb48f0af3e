use std::collections::HashMap;

use clusters::bitget::instruments_info::{parse_24h_volumes, parse_instruments, BitgetCategory};
use clusters::types::{Exchange, MarketType, Quote};

fn volumes(rows: Vec<(String, String)>) -> HashMap<String, f64> {
    rows.into_iter().map(|(s, v)| (s, v.parse::<f64>().unwrap_or(0.0))).collect()
}

const PERP_FIXTURE: &str = r#"
{
  "code": "00000",
  "msg": "success",
  "data": [
    {"symbol":"BTCUSDT","baseCoin":"BTC","quoteCoin":"USDT","pricePlace":"1",
     "priceEndStep":"1","volumePlace":"3","minTradeNum":"0.001","symbolStatus":"normal"},
    {"symbol":"ETHUSDC","baseCoin":"ETH","quoteCoin":"USDC","pricePlace":"2",
     "priceEndStep":"1","volumePlace":"2","minTradeNum":"0.01","symbolStatus":"normal"},
    {"symbol":"DEADUSDT","baseCoin":"DEAD","quoteCoin":"USDT","pricePlace":"2",
     "priceEndStep":"1","volumePlace":"1","minTradeNum":"1","symbolStatus":"off"},
    {"symbol":"BTCBRL","baseCoin":"BTC","quoteCoin":"BRL","pricePlace":"1",
     "priceEndStep":"1","volumePlace":"3","minTradeNum":"0.001","symbolStatus":"normal"}
  ]
}"#;

#[test]
fn parses_perp_usdt_usdc_filters_dead_and_other_quotes() {
    let specs = parse_instruments(PERP_FIXTURE, BitgetCategory::Perp).unwrap();
    // BTCUSDT + ETHUSDC. DEADUSDT off, BTCBRL non-USDT/USDC.
    assert_eq!(specs.len(), 2);
    let btc = specs.iter().find(|s| s.symbol == "BTCUSDT").unwrap();
    assert_eq!(btc.exchange, Exchange::BitgetF);
    assert_eq!(btc.market_type, MarketType::Perp);
    assert_eq!(btc.quote, Quote::Usdt);
    assert_eq!(btc.price_scale, 1);
    assert_eq!(btc.qty_scale, 3);
    assert_eq!(btc.tick_size, 1); // priceEndStep
    assert_eq!(btc.step_size, 1); // 0.001 @ scale 3
    let eth = specs.iter().find(|s| s.symbol == "ETHUSDC").unwrap();
    assert_eq!(eth.quote, Quote::Usdc);
}

const SPOT_FIXTURE: &str = r#"
{
  "code": "00000",
  "data": [
    {"symbol":"BTCUSDT","baseCoin":"BTC","quoteCoin":"USDT",
     "pricePrecision":"2","quantityPrecision":"6","status":"online"},
    {"symbol":"ETHUSDC","baseCoin":"ETH","quoteCoin":"USDC",
     "pricePrecision":"2","quantityPrecision":"4","status":"online"},
    {"symbol":"OLDUSDT","baseCoin":"OLD","quoteCoin":"USDT",
     "pricePrecision":"2","quantityPrecision":"2","status":"offline"}
  ]
}"#;

#[test]
fn parses_spot_usdt_usdc_filters_offline() {
    let specs = parse_instruments(SPOT_FIXTURE, BitgetCategory::Spot).unwrap();
    assert_eq!(specs.len(), 2);
    let btc = specs.iter().find(|s| s.symbol == "BTCUSDT").unwrap();
    assert_eq!(btc.exchange, Exchange::Bitget);
    assert_eq!(btc.market_type, MarketType::Spot);
    assert_eq!(btc.price_scale, 2);
    assert_eq!(btc.qty_scale, 6);
    assert_eq!(btc.tick_size, 1);
    assert_eq!(btc.step_size, 1);
}

const TICKERS_FIXTURE: &str = r#"
{
  "code": "00000",
  "data": [
    {"symbol":"BTCUSDT","quoteVolume":"1234567.5"},
    {"symbol":"ETHUSDT","quoteVol":"9000.0"},
    {"symbol":"BAD"}
  ]
}"#;

#[test]
fn parses_24h_volumes() {
    let m = volumes(parse_24h_volumes(TICKERS_FIXTURE).unwrap());
    assert!((m["BTCUSDT"] - 1_234_567.5).abs() < 1e-3);
    assert!((m["ETHUSDT"] - 9000.0).abs() < 1e-3);
    assert_eq!(m["BAD"], 0.0);
}

#[test]
fn rejects_error_code() {
    let bad = r#"{"code":"40034","msg":"err","data":[]}"#;
    assert!(parse_instruments(bad, BitgetCategory::Perp).is_err());
}
