use clusters::config::BinancePerpConfig;
use clusters::supervisor::filter_symbols;
use clusters::types::{Exchange, MarketType, Quote, SymbolSpec};

fn spec(symbol: &str, quote: Quote) -> SymbolSpec {
    SymbolSpec {
        exchange: Exchange::BinanceF,
        market_type: MarketType::Perp,
        quote,
        symbol: symbol.into(),
        price_scale: 2,
        qty_scale: 3,
        tick_size: 10,
        step_size: 1,
    }
}

fn cfg() -> BinancePerpConfig {
    BinancePerpConfig {
        discovery_poll_secs: 60,
        ..Default::default()
    }
}

#[test]
fn filter_keeps_usdt_perp_drops_busd() {
    let specs = vec![
        spec("BTCUSDT", Quote::Usdt),
        spec("ETHUSDC", Quote::Usdc),
        // Mark a non-perp by hand:
        SymbolSpec {
            market_type: MarketType::Spot,
            ..spec("BTCUSDT_SPOT", Quote::Usdt)
        },
    ];
    let kept = filter_symbols(&specs, &cfg(), Exchange::BinanceF, MarketType::Perp);
    let symbols: Vec<&str> = kept.iter().map(|s| s.symbol.as_str()).collect();
    assert!(symbols.contains(&"BTCUSDT"));
    assert!(symbols.contains(&"ETHUSDC"));
    assert!(!symbols.contains(&"BTCUSDT_SPOT"));
}

#[test]
fn filter_allow_list_is_authoritative() {
    let specs = vec![
        spec("BTCUSDT", Quote::Usdt),
        spec("ETHUSDT", Quote::Usdt),
        spec("DOGEUSDT", Quote::Usdt),
    ];
    let mut c = cfg();
    c.allow = vec!["BTCUSDT".into()];
    let kept = filter_symbols(&specs, &c, Exchange::BinanceF, MarketType::Perp);
    assert_eq!(kept.len(), 1);
    assert_eq!(kept[0].symbol, "BTCUSDT");
}

#[test]
fn filter_deny_overrides_default() {
    let specs = vec![spec("BTCUSDT", Quote::Usdt), spec("ETHUSDT", Quote::Usdt)];
    let mut c = cfg();
    c.deny = vec!["BTCUSDT".into()];
    let kept = filter_symbols(&specs, &c, Exchange::BinanceF, MarketType::Perp);
    assert_eq!(kept.len(), 1);
    assert_eq!(kept[0].symbol, "ETHUSDT");
}

#[test]
fn filter_does_not_apply_top_n() {
    // top_n is intentionally a supervisor concern (after ranking),
    // not a filter concern.
    let specs: Vec<_> = (0..10)
        .map(|i| spec(&format!("S{i}USDT"), Quote::Usdt))
        .collect();
    let mut c = cfg();
    c.top_n = Some(3);
    let kept = filter_symbols(&specs, &c, Exchange::BinanceF, MarketType::Perp);
    assert_eq!(kept.len(), 10);
}
