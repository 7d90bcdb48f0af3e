use clusters::bitget::bitget_trade::BitgetTradeParser;
use clusters::json::{parse_json, Json};
use clusters::types::{AggressorSide, Exchange, MarketType, Quote, SymbolSpec};

fn parse(text: &str) -> Json {
    parse_json(text.as_bytes()).unwrap()
}

fn spec(perp: bool) -> SymbolSpec {
    SymbolSpec {
        exchange: if perp { Exchange::BitgetF } else { Exchange::Bitget },
        market_type: if perp { MarketType::Perp } else { MarketType::Spot },
        quote: Quote::Usdt,
        symbol: "BTCUSDT".into(),
        price_scale: 1,
        qty_scale: 3,
        tick_size: 1,
        step_size: 1,
    }
}

const FRAME: &str = r#"
{
  "action":"snapshot",
  "arg":{"instType":"USDT-FUTURES","channel":"trade","instId":"BTCUSDT"},
  "data":[
    {"ts":"1700000000123","price":"67234.5","size":"0.005","side":"buy","tradeId":"1"},
    {"ts":"1700000000456","price":"67234.4","size":"0.010","side":"Sell","tradeId":"2"}
  ]
}"#;

#[test]
fn parses_batched_linear_trades() {
    let v = parse(FRAME);
    let p = BitgetTradeParser;
    assert_eq!(p.peek_symbol(&v).as_deref(), Some("BTCUSDT"));
    let trades = p.parse_value(&v, &spec(true)).unwrap();
    assert_eq!(trades.len(), 2);
    assert_eq!(trades[0].trade_id, 1);
    assert_eq!(trades[0].aggressor, AggressorSide::Bid);
    assert_eq!(trades[0].price, 672345);
    assert_eq!(trades[0].qty, 5);
    assert_eq!(trades[0].exchange_ts_ns, 1_700_000_000_123 * 1_000_000);
    assert_eq!(trades[1].aggressor, AggressorSide::Ask); // case-insensitive "Sell"
    assert_eq!(trades[1].qty, 10);
}

#[test]
fn non_trade_frame_peeks_none() {
    let v = parse(r#"{"event":"subscribe","arg":{"channel":"trade","instId":"BTCUSDT"}}"#);
    assert!(BitgetTradeParser.parse_value(&v, &spec(true)).unwrap().is_empty());
}

#[test]
fn books_channel_peeks_none() {
    let v = parse(r#"{"arg":{"channel":"books","instId":"BTCUSDT"},"data":[]}"#);
    assert_eq!(BitgetTradeParser.peek_symbol(&v), None);
}

#[test]
fn bitget_trade_rejects_unknown_side() {
    let v = parse(r#"{"arg":{"channel":"trade","instId":"BTCUSDT"},"data":[{"ts":"1","price":"1","size":"1","side":"x"}]}"#);
    assert!(BitgetTradeParser.parse_value(&v, &spec(true)).is_err());
}
