use clusters::bybit::bybit_ws::BybitWs;
use clusters::traits::{PingKind, WsConnector};
use clusters::types::{Exchange, MarketType, Quote, SymbolSpec};

fn spec(symbol: &str) -> SymbolSpec {
    SymbolSpec {
        exchange: Exchange::BybitF,
        market_type: MarketType::Perp,
        quote: Quote::Usdt,
        symbol: symbol.into(),
        price_scale: 1,
        qty_scale: 3,
        tick_size: 1,
        step_size: 1,
    }
}

#[test]
fn batches_subscribe_at_10_args() {
    let ws = BybitWs::linear();
    let specs: Vec<SymbolSpec> = (0..25).map(|i| spec(&format!("S{i}USDT"))).collect();
    let refs: Vec<&SymbolSpec> = specs.iter().collect();
    let payloads = ws.subscribe_payloads_batched(&refs);
    assert_eq!(payloads.len(), 3);
    let first: serde_json::Value = serde_json::from_str(&payloads[0]).unwrap();
    assert_eq!(first["op"], "subscribe");
    assert_eq!(first["args"].as_array().unwrap().len(), 10);
    let last: serde_json::Value = serde_json::from_str(&payloads[2]).unwrap();
    assert_eq!(last["args"].as_array().unwrap().len(), 5);
}

#[test]
fn payload_topic_format_matches_docs() {
    let ws = BybitWs::linear();
    let s = spec("BTCUSDT");
    let payload = ws.subscribe_payload(&[&s]);
    let v: serde_json::Value = serde_json::from_str(&payload).unwrap();
    assert_eq!(v["args"][0], "publicTrade.BTCUSDT");
}

#[test]
fn bybit_ws_ping_is_client_text() {
    let ws = BybitWs::linear();
    assert!(matches!(ws.ping_payload(), PingKind::Text(_)));
    assert_eq!(ws.ping_interval_ms(), 20_000);
}

#[test]
fn empty_input_doesnt_panic() {
    let ws = BybitWs::linear();
    let payloads = ws.subscribe_payloads_batched(&[]);
    assert!(payloads.is_empty());
    // single-chunk path returns the fallback payload
    let v: serde_json::Value = serde_json::from_str(&ws.subscribe_payload(&[])).unwrap();
    assert_eq!(v["op"], "subscribe");
    assert_eq!(v["args"].as_array().unwrap().len(), 0);
}
