use clusters::bybit::bybit_trade::BybitTradeParser;
use clusters::json::{parse_json, Json};
use clusters::types::{AggressorSide, Exchange, MarketType, Quote, SymbolSpec};

fn parse(text: &str) -> Json {
    parse_json(text.as_bytes()).unwrap()
}

fn spec() -> SymbolSpec {
    SymbolSpec {
        exchange: Exchange::BybitF,
        market_type: MarketType::Perp,
        quote: Quote::Usdt,
        symbol: "BTCUSDT".into(),
        price_scale: 1,
        qty_scale: 3,
        tick_size: 1,
        step_size: 1,
    }
}

const FRAME: &str = r#"
{
  "topic": "publicTrade.BTCUSDT",
  "type": "snapshot",
  "ts": 1700000000000,
  "data": [
    {"T":1700000000123,"s":"BTCUSDT","S":"Buy","v":"0.005","p":"67234.5","i":"100001","BT":false},
    {"T":1700000000456,"s":"BTCUSDT","S":"Sell","v":"0.010","p":"67234.4","i":"100002","BT":false}
  ]
}"#;

#[test]
fn parses_batched_trades() {
    let v = parse(FRAME);
    let p = BybitTradeParser;
    assert_eq!(p.peek_symbol(&v), Some("BTCUSDT"));
    let trades = p.parse_value(&v, &spec()).unwrap();
    assert_eq!(trades.len(), 2);

    assert_eq!(trades[0].trade_id, 100001);
    assert_eq!(trades[0].aggressor, AggressorSide::Bid);
    assert_eq!(trades[0].price, 672345);
    assert_eq!(trades[0].qty, 5);
    assert_eq!(trades[0].exchange_ts_ns, 1_700_000_000_123 * 1_000_000);

    assert_eq!(trades[1].aggressor, AggressorSide::Ask);
    assert_eq!(trades[1].qty, 10);
}

#[test]
fn empty_data_is_ok() {
    let v = parse(r#"{"topic":"publicTrade.BTCUSDT"}"#);
    let trades = BybitTradeParser.parse_value(&v, &spec()).unwrap();
    assert!(trades.is_empty());
}

#[test]
fn bybit_trade_rejects_unknown_side() {
    let v = parse(r#"{"topic":"publicTrade.BTCUSDT","data":[{"T":1,"S":"Maybe","v":"1","p":"1","i":"1"}]}"#);
    assert!(BybitTradeParser.parse_value(&v, &spec()).is_err());
}

#[test]
fn peek_symbol_skips_non_trade_frames() {
    let v = parse(r#"{"op":"pong","req_id":"x"}"#);
    assert_eq!(BybitTradeParser.peek_symbol(&v), None);
}
