use clusters::hyperliquid::hyperliquid_trade::HyperliquidTradeParser;
use clusters::hyperliquid::instruments_info::parse_meta;
use clusters::hyperliquid::native::NativeCoins;
use clusters::json::{parse_json, Json};
use clusters::scale::parse_scaled;
use clusters::types::{AggressorSide, Exchange, MarketType, Quote, SymbolSpec};

fn parse(text: &str) -> Json {
    parse_json(text.as_bytes()).unwrap()
}

const META: &str = r#"
{"universe":[
  {"name":"BTC","szDecimals":5},
  {"name":"SOL","szDecimals":2},
  {"name":"kPEPE","szDecimals":0},
  {"name":"DEAD","szDecimals":2,"isDelisted":true}
]}"#;

#[test]
fn parses_meta_max_precision() {
    let mut natives = NativeCoins::new();
    let specs = parse_meta(META, &mut natives).unwrap();
    assert_eq!(specs.len(), 3); // DEAD delisted skipped
    let btc = specs.iter().find(|s| s.symbol == "BTCUSDC").unwrap();
    assert_eq!(btc.exchange, Exchange::Hyperliquid);
    assert_eq!(btc.market_type, MarketType::Perp);
    assert_eq!(btc.quote, Quote::Usdc);
    // price_scale = 6 - 5 = 1; qty_scale = 5
    assert_eq!(btc.price_scale, 1);
    assert_eq!(btc.qty_scale, 5);
    let pepe = specs.iter().find(|s| s.symbol == "KPEPEUSDC").unwrap();
    assert_eq!(pepe.price_scale, 6); // 6 - 0
    assert_eq!(natives.get_native("KPEPEUSDC"), "kPEPE");
}

fn spec() -> SymbolSpec {
    SymbolSpec {
        exchange: Exchange::Hyperliquid,
        market_type: MarketType::Perp,
        quote: Quote::Usdc,
        symbol: "BTCUSDC".into(),
        price_scale: 1,
        qty_scale: 5,
        tick_size: 1,
        step_size: 1,
    }
}

#[test]
fn parses_trades() {
    let v = parse(r#"{"channel":"trades","data":[
            {"coin":"BTC","side":"B","px":"68960.5","sz":"0.10000","time":1700000000123,"tid":42},
            {"coin":"BTC","side":"A","px":"68960.4","sz":"0.20000","time":1700000000456,"tid":43}
        ]}"#);
    let p = HyperliquidTradeParser;
    assert_eq!(p.peek_symbol(&v), Some("BTC"));
    let trades = p.parse_value(&v, &spec()).unwrap();
    assert_eq!(trades.len(), 2);
    assert_eq!(trades[0].aggressor, AggressorSide::Bid);
    assert_eq!(trades[0].price, 689605);
    assert_eq!(trades[0].qty, 10000);
    assert_eq!(trades[0].trade_id, 42);
    assert_eq!(trades[1].aggressor, AggressorSide::Ask);
}

#[test]
fn non_trades_peeks_none() {
    let v = parse(r#"{"channel":"pong"}"#);
    assert_eq!(HyperliquidTradeParser.peek_symbol(&v), None);
}

#[test]
fn scaled_and_native() {
    assert_eq!(parse_scaled("68960.5", 1).unwrap(), 689605);
    assert_eq!(parse_scaled("0.0123", 4).unwrap(), 123);
    let mut natives = NativeCoins::new();
    natives.set_native("KPEPEUSDC", "kPEPE");
    assert_eq!(natives.get_native("KPEPEUSDC"), "kPEPE");
    assert_eq!(natives.get_native("BTCUSDC"), "BTC"); // fallback strip
}
