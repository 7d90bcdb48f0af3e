use std::collections::HashMap;

use clusters::binance::futures_info::{parse_24h_quote_volumes, parse_exchange_info};
use clusters::types::{Exchange, MarketType, Quote};

fn volumes(rows: Vec<(String, String)>) -> HashMap<String, f64> {
    rows.into_iter().filter_map(|(s, v)| v.parse::<f64>().ok().map(|x| (s, x))).collect()
}

const FIXTURE: &str = r#"
{
  "timezone": "UTC",
  "symbols": [
    {
      "symbol": "BTCUSDT",
      "contractType": "PERPETUAL",
      "status": "TRADING",
      "quoteAsset": "USDT",
      "pricePrecision": 2,
      "quantityPrecision": 3,
      "filters": [
        {"filterType": "PRICE_FILTER", "tickSize": "0.10"},
        {"filterType": "LOT_SIZE", "stepSize": "0.001"}
      ]
    },
    {
      "symbol": "ETHUSDC",
      "contractType": "PERPETUAL",
      "status": "TRADING",
      "quoteAsset": "USDC",
      "pricePrecision": 2,
      "quantityPrecision": 3,
      "filters": [
        {"filterType": "PRICE_FILTER", "tickSize": "0.01"},
        {"filterType": "LOT_SIZE", "stepSize": "0.001"}
      ]
    },
    {
      "symbol": "AAPLUSDT",
      "contractType": "TRADIFI_PERPETUAL",
      "status": "TRADING",
      "quoteAsset": "USDT",
      "pricePrecision": 2,
      "quantityPrecision": 3,
      "filters": [
        {"filterType": "PRICE_FILTER", "tickSize": "0.01"},
        {"filterType": "LOT_SIZE", "stepSize": "0.001"}
      ]
    },
    {
      "symbol": "BTCUSDT_240927",
      "contractType": "CURRENT_QUARTER",
      "status": "TRADING",
      "quoteAsset": "USDT",
      "pricePrecision": 1,
      "quantityPrecision": 3,
      "filters": []
    },
    {
      "symbol": "DOGEBUSD",
      "contractType": "PERPETUAL",
      "status": "TRADING",
      "quoteAsset": "BUSD",
      "pricePrecision": 5,
      "quantityPrecision": 0,
      "filters": []
    },
    {
      "symbol": "DELISTED",
      "contractType": "PERPETUAL",
      "status": "PENDING_TRADING",
      "quoteAsset": "USDT",
      "pricePrecision": 2,
      "quantityPrecision": 3,
      "filters": []
    }
  ]
}
"#;

#[test]
fn parses_perp_usdt_and_usdc_filters_others() {
    let specs = parse_exchange_info(FIXTURE).unwrap();
    assert_eq!(specs.len(), 3); // BTCUSDT + ETHUSDC + AAPLUSDT; BUSD/quarter/non-trading excluded

    // TradFi perp (tokenized stock) ingests like any linear USDT perp.
    let aapl = specs
        .iter()
        .find(|s| s.symbol == "AAPLUSDT")
        .expect("TRADIFI_PERPETUAL must be included");
    assert_eq!(aapl.market_type, MarketType::Perp);
    assert_eq!(aapl.quote, Quote::Usdt);

    let btc = specs.iter().find(|s| s.symbol == "BTCUSDT").unwrap();
    assert_eq!(btc.exchange, Exchange::BinanceF);
    assert_eq!(btc.market_type, MarketType::Perp);
    assert_eq!(btc.quote, Quote::Usdt);
    assert_eq!(btc.price_scale, 1);
    assert_eq!(btc.qty_scale, 3);
    assert_eq!(btc.tick_size, 1);
    assert_eq!(btc.step_size, 1);

    let eth = specs.iter().find(|s| s.symbol == "ETHUSDC").unwrap();
    assert_eq!(eth.quote, Quote::Usdc);
    assert_eq!(eth.price_scale, 2);
    assert_eq!(eth.tick_size, 1);
}

#[test]
fn rejects_unparseable_json() {
    assert!(parse_exchange_info("not json").is_err());
    assert!(parse_exchange_info("{}").is_err());
}

const TICKER_FIXTURE: &str = r#"
[
  {"symbol":"BTCUSDT","quoteVolume":"123456789.0","priceChange":"0"},
  {"symbol":"ETHUSDT","quoteVolume":"45000000.5","priceChange":"0"},
  {"symbol":"DOGEUSDT","quoteVolume":"100.0","priceChange":"0"},
  {"symbol":"BADENTRY"},
  {"quoteVolume":"99.0"}
]
"#;

#[test]
fn parses_ticker_volumes_and_skips_malformed() {
    let m = volumes(parse_24h_quote_volumes(TICKER_FIXTURE).unwrap());
    assert_eq!(m.len(), 3);
    assert!((m["BTCUSDT"] - 123_456_789.0).abs() < 1e-3);
    assert!((m["ETHUSDT"] - 45_000_000.5).abs() < 1e-3);
    assert!(!m.contains_key("BADENTRY"));
}

#[test]
fn ticker_rejects_non_array() {
    assert!(parse_24h_quote_volumes("{}").is_err());
    assert!(parse_24h_quote_volumes("not json").is_err());
}
