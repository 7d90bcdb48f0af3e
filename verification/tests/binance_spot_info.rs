use std::collections::HashMap;

use clusters::binance::spot_info::{parse_24h_quote_volumes, parse_exchange_info};
use clusters::types::{Exchange, MarketType, Quote};

fn volumes(rows: Vec<(String, String)>) -> HashMap<String, f64> {
    rows.into_iter().filter_map(|(s, v)| v.parse::<f64>().ok().map(|x| (s, x))).collect()
}

const FIXTURE: &str = r#"
{
  "timezone": "UTC",
  "symbols": [
    {
      "symbol": "BTCUSDT",
      "status": "TRADING",
      "baseAsset": "BTC",
      "quoteAsset": "USDT",
      "baseAssetPrecision": 8,
      "quoteAssetPrecision": 8,
      "isSpotTradingAllowed": true,
      "filters": [
        {"filterType": "PRICE_FILTER", "tickSize": "0.01000000"},
        {"filterType": "LOT_SIZE", "stepSize": "0.00001000"}
      ]
    },
    {
      "symbol": "ETHUSDC",
      "status": "TRADING",
      "baseAsset": "ETH",
      "quoteAsset": "USDC",
      "baseAssetPrecision": 8,
      "quoteAssetPrecision": 8,
      "isSpotTradingAllowed": true,
      "filters": [
        {"filterType": "PRICE_FILTER", "tickSize": "0.01000000"},
        {"filterType": "LOT_SIZE", "stepSize": "0.0001"}
      ]
    },
    {
      "symbol": "BTCBUSD",
      "status": "TRADING",
      "quoteAsset": "BUSD",
      "baseAssetPrecision": 8,
      "quoteAssetPrecision": 8,
      "isSpotTradingAllowed": true,
      "filters": []
    },
    {
      "symbol": "LEVUPUSDT",
      "status": "TRADING",
      "quoteAsset": "USDT",
      "baseAssetPrecision": 8,
      "quoteAssetPrecision": 8,
      "isSpotTradingAllowed": false,
      "filters": []
    },
    {
      "symbol": "BTCEUR",
      "status": "HALT",
      "quoteAsset": "EUR",
      "baseAssetPrecision": 8,
      "quoteAssetPrecision": 8,
      "filters": []
    }
  ]
}
"#;

#[test]
fn parses_spot_usdt_and_usdc_only() {
    let specs = parse_exchange_info(FIXTURE).unwrap();
    assert_eq!(specs.len(), 2, "expected only USDT + USDC TRADING: {specs:?}");

    let btc = specs.iter().find(|s| s.symbol == "BTCUSDT").unwrap();
    assert_eq!(btc.exchange, Exchange::Binance);
    assert_eq!(btc.market_type, MarketType::Spot);
    assert_eq!(btc.quote, Quote::Usdt);
    assert_eq!(btc.price_scale, 2);
    assert_eq!(btc.qty_scale, 5);
    assert_eq!(btc.tick_size, 1);
    assert_eq!(btc.step_size, 1);

    let eth = specs.iter().find(|s| s.symbol == "ETHUSDC").unwrap();
    assert_eq!(eth.quote, Quote::Usdc);
    assert_eq!(eth.price_scale, 2); // tick="0.01"
    assert_eq!(eth.qty_scale, 4);   // step="0.0001" (per fixture)
}

#[test]
fn spot_info_rejects_unparseable() {
    assert!(parse_exchange_info("not json").is_err());
    assert!(parse_exchange_info("{}").is_err());
}

const TICKER_FIXTURE: &str = r#"
[
  {"symbol":"BTCUSDT","quoteVolume":"1234567.0"},
  {"symbol":"ETHUSDT","quoteVolume":"890123.5"},
  {"symbol":"BADENTRY"}
]
"#;

#[test]
fn parses_ticker_volumes() {
    let m = volumes(parse_24h_quote_volumes(TICKER_FIXTURE).unwrap());
    assert_eq!(m.len(), 2);
    assert!((m["BTCUSDT"] - 1_234_567.0).abs() < 1e-3);
}
