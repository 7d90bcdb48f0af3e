use clusters::bingx::bingx_trade::BingxTradeParser;
use clusters::json::{parse_json, Json};
use clusters::types::{AggressorSide, Exchange, MarketType, Quote, SymbolSpec};

fn parse(text: &str) -> Json {
    parse_json(text.as_bytes()).unwrap()
}

fn spec(market: MarketType, ex: Exchange) -> SymbolSpec {
    SymbolSpec {
        exchange: ex,
        market_type: market,
        quote: Quote::Usdt,
        symbol: "BTCUSDT".into(),
        price_scale: 1,
        qty_scale: 4,
        tick_size: 1,
        step_size: 1,
    }
}

#[test]
fn futures_array_m_true_is_ask() {
    let v = parse(r#"{"dataType":"BTC-USDT@trade","data":[{"p":"68960.5","q":"0.1000","T":1700000000123,"m":true}]}"#);
    let p = BingxTradeParser;
    assert_eq!(p.peek_symbol(&v), Some("BTCUSDT".into()));
    let t = p.parse_value(&v, &spec(MarketType::Perp, Exchange::BingxF)).unwrap();
    assert_eq!(t.len(), 1);
    assert_eq!(t[0].aggressor, AggressorSide::Ask);
    assert_eq!(t[0].price, 689605);
    assert_eq!(t[0].qty, 1000);
}

#[test]
fn spot_object_m_true_is_bid_inverted() {
    let v = parse(r#"{"dataType":"BTC-USDT@trade","data":{"p":"68960.5","q":"0.1000","T":1700000000123,"m":true,"t":"42"}}"#);
    let t = BingxTradeParser
        .parse_value(&v, &spec(MarketType::Spot, Exchange::Bingx))
        .unwrap();
    assert_eq!(t.len(), 1);
    assert_eq!(t[0].aggressor, AggressorSide::Bid);
    assert_eq!(t[0].trade_id, 42);
}

#[test]
fn non_trade_peeks_none() {
    let v = parse(r#"{"dataType":"BTC-USDT@depth100","data":{}}"#);
    assert_eq!(BingxTradeParser.peek_symbol(&v), None);
}
