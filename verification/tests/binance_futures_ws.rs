use clusters::binance::futures_ws::BinanceFuturesWs;
use clusters::traits::{PingKind, WsConnector};
use clusters::types::{Exchange, MarketType, Quote, SymbolSpec};

fn spec(symbol: &str) -> SymbolSpec {
    SymbolSpec {
        exchange: Exchange::BinanceF,
        market_type: MarketType::Perp,
        quote: Quote::Usdt,
        symbol: symbol.into(),
        price_scale: 2,
        qty_scale: 3,
        tick_size: 10,
        step_size: 1,
    }
}

#[test]
fn subscribe_payload_lowercases_and_appends_stream() {
    let ws = BinanceFuturesWs::new();
    let s1 = spec("BTCUSDT");
    let s2 = spec("ETHUSDT");
    let payload = ws.subscribe_payload(&[&s1, &s2]);
    let v: serde_json::Value = serde_json::from_str(&payload).unwrap();
    assert_eq!(v["method"], "SUBSCRIBE");
    let params = v["params"].as_array().unwrap();
    assert_eq!(params[0], "btcusdt@aggTrade");
    assert_eq!(params[1], "ethusdt@aggTrade");
}

#[test]
fn matches_binance_keepalive_spec() {
    let ws = BinanceFuturesWs::new();
    assert!(ws.ping_interval_ms() < ws.pong_timeout_ms());
    assert!(matches!(ws.ping_payload(), PingKind::ServerInitiated));
}
