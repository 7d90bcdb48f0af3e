use clusters::binance::spot_ws::BinanceSpotWs;
use clusters::traits::WsConnector;
use clusters::types::{Exchange, MarketType, Quote, SymbolSpec};

fn spec(symbol: &str) -> SymbolSpec {
    SymbolSpec {
        exchange: Exchange::Binance,
        market_type: MarketType::Spot,
        quote: Quote::Usdt,
        symbol: symbol.into(),
        price_scale: 8,
        qty_scale: 8,
        tick_size: 1_000_000,
        step_size: 1_000,
    }
}

#[test]
fn subscribe_payload_lowercases() {
    let ws = BinanceSpotWs::new();
    let s = spec("BTCUSDT");
    let p = ws.subscribe_payload(&[&s]);
    let v: serde_json::Value = serde_json::from_str(&p).unwrap();
    assert_eq!(v["method"], "SUBSCRIBE");
    assert_eq!(v["params"][0], "btcusdt@aggTrade");
}

#[test]
fn url_is_spot_endpoint() {
    let ws = BinanceSpotWs::new();
    assert!(ws.ws_url().contains("stream.binance.com:9443/stream"));
    assert!(!ws.ws_url().contains("/market/"));
}
