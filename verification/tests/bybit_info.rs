use std::collections::HashMap;

use clusters::bybit::instruments_info::{
    parse_24h_turnover, parse_instruments_info, BybitCategory,
};
use clusters::types::{Exchange, MarketType, Quote};

fn volumes(rows: Vec<(String, String)>) -> HashMap<String, f64> {
    rows.into_iter().filter_map(|(s, v)| v.parse::<f64>().ok().map(|x| (s, x))).collect()
}

const LINEAR_FIXTURE: &str = r#"
{
  "retCode": 0,
  "retMsg": "OK",
  "result": {
    "category": "linear",
    "list": [
      {
        "symbol": "BTCUSDT",
        "status": "Trading",
        "baseCoin": "BTC",
        "quoteCoin": "USDT",
        "settleCoin": "USDT",
        "priceFilter": {"minPrice": "0.10", "maxPrice": "999999", "tickSize": "0.10"},
        "lotSizeFilter": {"qtyStep": "0.001", "minOrderQty": "0.001"}
      },
      {
        "symbol": "BTCPERP",
        "status": "Trading",
        "baseCoin": "BTC",
        "quoteCoin": "USDC",
        "settleCoin": "USDC",
        "priceFilter": {"tickSize": "0.10"},
        "lotSizeFilter": {"qtyStep": "0.001"}
      },
      {
        "symbol": "DELAYED",
        "status": "PreLaunch",
        "quoteCoin": "USDT",
        "priceFilter": {"tickSize": "0.01"},
        "lotSizeFilter": {"qtyStep": "1"}
      },
      {
        "symbol": "BTCBUSD",
        "status": "Trading",
        "quoteCoin": "BUSD",
        "priceFilter": {"tickSize": "0.1"},
        "lotSizeFilter": {"qtyStep": "0.001"}
      }
    ]
  }
}"#;

#[test]
fn parses_linear_usdt_and_usdc_perp_filters_others() {
    let specs = parse_instruments_info(LINEAR_FIXTURE, BybitCategory::Linear).unwrap();
    // BTCUSDT(USDT) + BTCPERP(USDC). DELAYED skip (status), BTCBUSD skip (quote).
    assert_eq!(specs.len(), 2);
    let usdt = specs.iter().find(|s| s.symbol == "BTCUSDT").unwrap();
    assert_eq!(usdt.exchange, Exchange::BybitF);
    assert_eq!(usdt.market_type, MarketType::Perp);
    assert_eq!(usdt.quote, Quote::Usdt);
    assert_eq!(usdt.price_scale, 1);
    assert_eq!(usdt.tick_size, 1);
    let usdc = specs.iter().find(|s| s.symbol == "BTCPERP").unwrap();
    assert_eq!(usdc.quote, Quote::Usdc);
    assert_eq!(usdc.market_type, MarketType::Perp);
}

const SPOT_FIXTURE: &str = r#"
{
  "retCode": 0,
  "result": {
    "category": "spot",
    "list": [
      {
        "symbol": "BTCUSDT",
        "status": "Trading",
        "baseCoin": "BTC",
        "quoteCoin": "USDT",
        "priceFilter": {"tickSize": "0.01"},
        "lotSizeFilter": {"basePrecision": "0.000001"}
      },
      {
        "symbol": "ETHUSDC",
        "status": "Trading",
        "baseCoin": "ETH",
        "quoteCoin": "USDC",
        "priceFilter": {"tickSize": "0.01"},
        "lotSizeFilter": {"basePrecision": "0.0001"}
      }
    ]
  }
}"#;

#[test]
fn parses_spot_usdt_usdc() {
    let specs = parse_instruments_info(SPOT_FIXTURE, BybitCategory::Spot).unwrap();
    assert_eq!(specs.len(), 2);
    let btc = specs.iter().find(|s| s.symbol == "BTCUSDT").unwrap();
    assert_eq!(btc.exchange, Exchange::Bybit);
    assert_eq!(btc.market_type, MarketType::Spot);
    assert_eq!(btc.price_scale, 2);
    assert_eq!(btc.qty_scale, 6);
}

const TURNOVER_FIXTURE: &str = r#"
{
  "retCode": 0,
  "result": {
    "category": "linear",
    "list": [
      {"symbol": "BTCUSDT", "turnover24h": "1234567890.5"},
      {"symbol": "ETHUSDT", "turnover24h": "45000000.0"},
      {"symbol": "BAD"}
    ]
  }
}"#;

#[test]
fn parses_24h_turnover_skips_malformed() {
    let m = volumes(parse_24h_turnover(TURNOVER_FIXTURE).unwrap());
    assert_eq!(m.len(), 2);
    assert!((m["BTCUSDT"] - 1_234_567_890.5).abs() < 1e-3);
}

#[test]
fn rejects_non_zero_retcode() {
    let bad = r#"{"retCode": 10001, "retMsg": "err", "result": {"list": []}}"#;
    assert!(parse_instruments_info(bad, BybitCategory::Linear).is_err());
}
