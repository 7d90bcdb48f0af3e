use clusters::chunks::chunk_bounds;
use clusters::config::{BinancePerpConfig, RankBy};
use clusters::kucoin;
use clusters::mexc;
use clusters::reconnect::{
    after_shard, next_backoff, session_loop_step, DropMeter, LoopStep, SessionEvent,
};
use clusters::supervisor::{
    filter_symbols, plan, rank_order, rank_specs, take_top, SessionFlavor,
};
use clusters::types::{Exchange, MarketType, Quote, SymbolKey, SymbolSpec};

fn spec(symbol: &str) -> SymbolSpec {
    SymbolSpec {
        exchange: Exchange::BinanceF,
        market_type: MarketType::Perp,
        quote: Quote::Usdt,
        symbol: symbol.into(),
        price_scale: 2,
        qty_scale: 3,
        tick_size: 10,
        step_size: 1,
    }
}

fn key(symbol: &str) -> SymbolKey {
    SymbolKey::new(Exchange::BinanceF, MarketType::Perp, symbol)
}

fn symbols(specs: &[SymbolSpec]) -> Vec<&str> {
    specs.iter().map(|s| s.symbol.as_str()).collect()
}

#[test]
fn reconcile_adds_new_and_drops_delisted() {
    let current = vec![key("BTCUSDT"), key("ETHUSDT")];
    let wanted = vec![spec("BTCUSDT"), spec("SOLUSDT"), spec("SOLUSDT")];
    let p = plan(&current, &wanted);
    assert_eq!(p.remove, vec![key("ETHUSDT")]);
    assert_eq!(symbols(&p.add), vec!["SOLUSDT"]);

    let again = plan(&vec![key("BTCUSDT"), key("SOLUSDT")], &wanted);
    assert!(again.remove.is_empty());
    assert!(again.add.is_empty());
}

#[test]
fn rank_by_volume_picks_top_n_by_descending_volume() {
    let specs = vec![spec("AAAUSDT"), spec("BTCUSDT"), spec("ETHUSDT"), spec("DOGEUSDT")];
    let volumes = vec![
        ("BTCUSDT".to_string(), 1_000_000_000),
        ("ETHUSDT".to_string(), 500_000_000),
        ("AAAUSDT".to_string(), 1_000),
        ("DOGEUSDT".to_string(), 100),
    ];
    let ranked = rank_specs(specs, RankBy::Volume24h, Some(&volumes));
    assert_eq!(symbols(&ranked), vec!["BTCUSDT", "ETHUSDT", "AAAUSDT", "DOGEUSDT"]);
    assert_eq!(symbols(&take_top(ranked, Some(2))), vec!["BTCUSDT", "ETHUSDT"]);
}

#[test]
fn ranking_keeps_the_order_of_equals() {
    assert_eq!(rank_order(&vec![1, 3, 1, 3, -2]), vec![1, 3, 0, 2, 4]);
    let specs = vec![spec("A"), spec("B"), spec("C")];
    let volumes = vec![("C".to_string(), 5), ("C".to_string(), 0)];
    let ranked = rank_specs(specs, RankBy::Volume24h, Some(&volumes));
    assert_eq!(symbols(&ranked), vec!["A", "B", "C"]);
    let specs = vec![spec("B"), spec("A")];
    assert_eq!(symbols(&rank_specs(specs, RankBy::Alphabetical, Some(&volumes))), vec!["B", "A"]);
    let specs = vec![spec("B"), spec("A")];
    assert_eq!(symbols(&rank_specs(specs, RankBy::Volume24h, None)), vec!["B", "A"]);
    assert_eq!(take_top(vec![spec("A")], Some(5)).len(), 1);
    assert_eq!(take_top(vec![spec("A")], None).len(), 1);
}

#[test]
fn quotes_and_venues_are_filtered() {
    let mut c = BinancePerpConfig::default();
    c.include_quotes = vec!["USDC".into(), "EUR".into()];
    let mut usdc = spec("X");
    usdc.quote = Quote::Usdc;
    let mut other = spec("Y");
    other.quote = Quote::Usdc;
    other.exchange = Exchange::BybitF;
    let all = vec![spec("Z"), usdc, other];
    let kept = filter_symbols(&all, &c, Exchange::BinanceF, MarketType::Perp);
    assert_eq!(symbols(&kept), vec!["X"]);
    let again = filter_symbols(&kept, &c, Exchange::BinanceF, MarketType::Perp);
    assert_eq!(symbols(&again), vec!["X"]);
}

#[test]
fn chunks_cover_the_row() {
    assert_eq!(chunk_bounds(250, 100), vec![(0, 100), (100, 200), (200, 250)]);
    assert_eq!(chunk_bounds(200, 100), vec![(0, 100), (100, 200)]);
    assert!(chunk_bounds(0, 100).is_empty());
    assert_eq!(SessionFlavor::Aster.shard_size(), Some(100));
    assert_eq!(SessionFlavor::Kucoin.shard_size(), Some(250));
    assert_eq!(SessionFlavor::Mexc.shard_size(), Some(100));
    assert_eq!(SessionFlavor::Binance.shard_size(), None);
}

#[test]
fn waits_double_up_to_a_bound() {
    assert_eq!(next_backoff(500, 30_000), 1_000);
    assert_eq!(next_backoff(20_000, 30_000), 30_000);
    assert_eq!(next_backoff(u64::MAX, 30_000), 30_000);
    assert_eq!(after_shard(8_000, false), (8_000, 16_000));
    assert_eq!(after_shard(8_000, true), (500, 1_000));
    assert_eq!(
        session_loop_step(4_000, SessionEvent::Failed, 500, 30_000),
        (LoopStep::Wait(4_000), 8_000)
    );
    assert_eq!(
        session_loop_step(4_000, SessionEvent::Ended, 500, 30_000),
        (LoopStep::Wait(500), 500)
    );
    assert_eq!(
        session_loop_step(4_000, SessionEvent::RoutesChanged, 500, 30_000),
        (LoopStep::Reconnect, 4_000)
    );
    assert_eq!(
        session_loop_step(4_000, SessionEvent::Shutdown, 500, 30_000).0,
        LoopStep::Stop
    );
}

#[test]
fn complaints_are_five_seconds_apart() {
    let mut m = DropMeter::new();
    assert!(!m.record(4_999));
    assert!(m.record(5_000));
    assert!(!m.record(9_999));
    assert!(m.record(10_000));
    assert_eq!(m.drops, 4);
    let mut full = DropMeter { drops: u64::MAX, last_warn_ms: 0 };
    full.record(1);
    assert_eq!(full.drops, u64::MAX);
}

#[test]
fn kucoin_connects_by_token() {
    assert_eq!(kucoin::connect_id(0xabc, 255), "0000000000000abcff");
    assert_eq!(kucoin::connect_id(u64::MAX, 0), "ffffffffffffffff0");
    assert_eq!(
        kucoin::connect_url("wss://h/endpoint", "tok", "id"),
        "wss://h/endpoint?token=tok&connectId=id"
    );
    assert_eq!(kucoin::connect_url("wss://h/?a=1", "t", "i"), "wss://h/?a=1&token=t&connectId=i");
    for server in [0u64, 4_000, 8_000, 9_000, 18_000, 60_000] {
        assert_eq!(
            kucoin::ping_ms(server),
            server.clamp(5_000, 18_000).saturating_sub(3_000).max(5_000)
        );
    }
    let venues: Vec<String> = (0..101).map(|i| format!("S{i}")).collect();
    let payloads = kucoin::subscribe_payloads("/market/match:", &venues);
    assert_eq!(payloads.len(), 2);
    assert_eq!(
        payloads[1],
        r#"{"id":"2","response":false,"topic":"/market/match:S100","type":"subscribe"}"#
    );
    assert_eq!(kucoin::ping_payload(7), r#"{"id":"7","type":"ping"}"#);
    let error = clusters::json::parse_json(br#"{"type":"error"}"#).unwrap();
    assert!(kucoin::is_error_frame(&error));
}

#[test]
fn mexc_subscribes_in_two_ways() {
    let venues: Vec<String> = (0..21).map(|i| format!("S{i}")).collect();
    let payloads = mexc::spot_payloads(&venues);
    assert_eq!(payloads.len(), 2);
    assert_eq!(
        payloads[1],
        r#"{"method":"SUBSCRIPTION","params":["spot@public.aggre.deals.v3.api.pb@100ms@S20"]}"#
    );
    assert_eq!(
        mexc::futures_payload("BTC_USDT"),
        r#"{"method":"sub.deal","param":{"symbol":"BTC_USDT"}}"#
    );
    assert_eq!(mexc::SPOT_PING, r#"{"method":"PING"}"#);
    assert_eq!(mexc::FUTURES_PING, r#"{"method":"ping"}"#);
}
