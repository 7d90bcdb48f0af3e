use clusters::bitget::bitget_ws::BitgetWs;
use clusters::traits::{PingKind, WsConnector};
use clusters::types::{Exchange, MarketType, Quote, SymbolSpec};

fn spec(symbol: &str, perp: bool) -> SymbolSpec {
    SymbolSpec {
        exchange: if perp { Exchange::BitgetF } else { Exchange::Bitget },
        market_type: if perp { MarketType::Perp } else { MarketType::Spot },
        quote: Quote::Usdt,
        symbol: symbol.into(),
        price_scale: 1,
        qty_scale: 3,
        tick_size: 1,
        step_size: 1,
    }
}

#[test]
fn perp_subscribe_uses_futures_insttype() {
    let ws = BitgetWs::perp();
    let s = spec("BTCUSDT", true);
    let payload = ws.subscribe_payload(&[&s]);
    let v: serde_json::Value = serde_json::from_str(&payload).unwrap();
    assert_eq!(v["op"], "subscribe");
    assert_eq!(v["args"][0]["instType"], "USDT-FUTURES");
    assert_eq!(v["args"][0]["channel"], "trade");
    assert_eq!(v["args"][0]["instId"], "BTCUSDT");
}

#[test]
fn spot_subscribe_uses_spot_insttype() {
    let ws = BitgetWs::spot();
    let s = spec("ETHUSDC", false);
    let payload = ws.subscribe_payload(&[&s]);
    let v: serde_json::Value = serde_json::from_str(&payload).unwrap();
    assert_eq!(v["args"][0]["instType"], "SPOT");
    assert_eq!(v["args"][0]["instId"], "ETHUSDC");
}

#[test]
fn batches_at_limit() {
    let ws = BitgetWs::perp();
    let specs: Vec<SymbolSpec> = (0..250).map(|i| spec(&format!("S{i}USDT"), true)).collect();
    let refs: Vec<&SymbolSpec> = specs.iter().collect();
    let payloads = ws.subscribe_payloads_batched(&refs);
    assert_eq!(payloads.len(), 3); // 100 + 100 + 50
    let last: serde_json::Value = serde_json::from_str(&payloads[2]).unwrap();
    assert_eq!(last["args"].as_array().unwrap().len(), 50);
}

#[test]
fn bitget_ws_ping_is_client_text() {
    let ws = BitgetWs::perp();
    assert!(matches!(ws.ping_payload(), PingKind::Text("ping")));
}
