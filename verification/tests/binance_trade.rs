use clusters::binance::futures_trade::BinanceFuturesTradeParser;
use clusters::traits::TradeParser;
use clusters::types::{AggressorSide, Exchange, MarketType, Quote, SymbolSpec};

fn spec() -> SymbolSpec {
    SymbolSpec {
        exchange: Exchange::BinanceF,
        market_type: MarketType::Perp,
        quote: Quote::Usdt,
        symbol: "BTCUSDT".into(),
        price_scale: 2,
        qty_scale: 3,
        tick_size: 10,
        step_size: 1,
    }
}

const RAW_AGG_TRADE: &str = r#"
{
  "e": "aggTrade",
  "E": 123456789,
  "s": "BTCUSDT",
  "a": 5933014,
  "p": "67234.50",
  "q": "0.123",
  "f": 100,
  "l": 105,
  "T": 123456785,
  "m": true
}
"#;

const COMBINED_STREAM: &str = r#"
{
  "stream": "btcusdt@aggTrade",
  "data": {
    "e": "aggTrade",
    "E": 123456789,
    "s": "BTCUSDT",
    "a": 5933015,
    "p": "67234.50",
    "q": "0.500",
    "f": 100,
    "l": 105,
    "T": 123456786,
    "m": false
  }
}
"#;

#[test]
fn parses_raw_stream_aggressor_ask_when_buyer_is_maker() {
    let p = BinanceFuturesTradeParser;
    let trade = p.parse(RAW_AGG_TRADE.as_bytes(), &spec()).unwrap().unwrap();
    assert_eq!(trade.trade_id, 5_933_014);
    assert_eq!(trade.price, 6_723_450);
    assert_eq!(trade.qty, 123);
    assert_eq!(trade.aggressor, AggressorSide::Ask);
    assert_eq!(trade.exchange_ts_ns, 123_456_785 * 1_000_000);
}

#[test]
fn parses_combined_stream_aggressor_bid_when_buyer_is_taker() {
    let p = BinanceFuturesTradeParser;
    let trade = p
        .parse(COMBINED_STREAM.as_bytes(), &spec())
        .unwrap()
        .unwrap();
    assert_eq!(trade.aggressor, AggressorSide::Bid);
    assert_eq!(trade.qty, 500);
}

#[test]
fn ignores_other_event_types() {
    let p = BinanceFuturesTradeParser;
    let other = r#"{"e":"depthUpdate","s":"BTCUSDT"}"#;
    assert!(p.parse(other.as_bytes(), &spec()).unwrap().is_none());
}

#[test]
fn ignores_other_symbol() {
    let p = BinanceFuturesTradeParser;
    let other = r#"{"e":"aggTrade","s":"ETHUSDT","a":1,"p":"1","q":"1","T":1,"m":false}"#;
    assert!(p.parse(other.as_bytes(), &spec()).unwrap().is_none());
}

#[test]
fn rejects_malformed_payload() {
    let p = BinanceFuturesTradeParser;
    assert!(p.parse(b"not json", &spec()).is_err());
    // Valid JSON but missing required field
    let bad = r#"{"e":"aggTrade","s":"BTCUSDT","a":1,"p":"1","q":"1","T":1}"#;
    assert!(p.parse(bad.as_bytes(), &spec()).is_err());
}
