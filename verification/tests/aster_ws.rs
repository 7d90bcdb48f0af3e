use clusters::aster::aster_ws::AsterWs;
use clusters::traits::WsConnector;
use clusters::types::{Exchange, MarketType, Quote, SymbolSpec};

fn spec(symbol: &str) -> SymbolSpec {
    SymbolSpec {
        exchange: Exchange::AsterF,
        market_type: MarketType::Perp,
        quote: Quote::Usdt,
        symbol: symbol.into(),
        price_scale: 1,
        qty_scale: 3,
        tick_size: 1,
        step_size: 1,
    }
}

#[test]
fn subscribe_lowercases_and_batches() {
    let ws = AsterWs::futures();
    let specs: Vec<SymbolSpec> = (0..250).map(|i| spec(&format!("S{i}USDT"))).collect();
    let refs: Vec<&SymbolSpec> = specs.iter().collect();
    let payloads = ws.subscribe_payloads_batched(&refs);
    assert_eq!(payloads.len(), 3); // 100 + 100 + 50
    let first: serde_json::Value = serde_json::from_str(&payloads[0]).unwrap();
    assert_eq!(first["method"], "SUBSCRIBE");
    assert_eq!(first["params"][0], "s0usdt@aggTrade");
    assert_eq!(first["params"].as_array().unwrap().len(), 100);
    let last: serde_json::Value = serde_json::from_str(&payloads[2]).unwrap();
    assert_eq!(last["params"].as_array().unwrap().len(), 50);
}

#[test]
fn urls_are_aster_ws_hosts() {
    assert!(AsterWs::futures().ws_url().contains("fstream.asterdex.com/ws"));
    assert!(AsterWs::spot().ws_url().contains("sstream.asterdex.com/ws"));
}
