use clusters::aggregator::{Aggregator, EngineEvent};
use clusters::config::{BinancePerpConfig, RankBy};
use clusters::history::{answer_range, RangeAnswer, RangeParams, Upstream};
use clusters::hyperliquid::instruments_info::HyperliquidInstrumentsInfo;
use clusters::reconnect::{readiness, Readiness};
use clusters::scale::{count_decimals_trimmed, parse_scaled};
use clusters::sink::{rows_from_snapshot, ChWriter, ChWriterConfig, WriterEvent, WriterStep};
use clusters::supervisor::wanted_specs;
use clusters::types::{
    AggressorSide, AnalyticsSnapshot, ClusterBucket, Exchange, MarketType, Quote, SymbolKey,
    SymbolSpec, TradePrint,
};

fn spec(symbol: &str, quote: Quote) -> SymbolSpec {
    SymbolSpec {
        exchange: Exchange::BinanceF,
        market_type: MarketType::Perp,
        quote,
        symbol: symbol.into(),
        price_scale: 2,
        qty_scale: 3,
        tick_size: 10,
        step_size: 1,
    }
}

fn params() -> RangeParams {
    RangeParams {
        exchange: "BINANCEF".into(),
        market_type: "perp".into(),
        symbol: "BTCUSDT".into(),
        interval_seconds: 60,
        from_ms: 0,
        to_ms: 120_000,
    }
}

fn refusal(u: Upstream) -> String {
    match answer_range(&params(), &u, 0) {
        RangeAnswer::BadGateway(m) => m,
        RangeAnswer::Rows(_, _) => panic!("rows came from a failure"),
    }
}

#[test]
fn a_failing_store_is_a_bad_gateway() {
    assert_eq!(refusal(Upstream::Unreachable("refused".into())), "ch unreachable: refused");
    assert_eq!(refusal(Upstream::Unreadable("cut".into())), "ch body read: cut");
    let failed = Upstream::Failed { status: "404 Not Found".into(), body: "x".repeat(501) };
    assert_eq!(refusal(failed), format!("CH 404 Not Found: {}", "x".repeat(500)));
}

#[test]
fn rows_come_with_how_long_they_may_be_kept() {
    let rows = Upstream::Rows("[60000,100,1,2,3]\n".into());
    for (now, expected) in [
        (180_000, "no-cache"),
        (180_001, "no-store"),
        (240_000, "no-store"),
        (240_001, "public, max-age=86400"),
    ] {
        match answer_range(&params(), &rows, now) {
            RangeAnswer::Rows(r, cache) => {
                assert_eq!((r.n, r.price[0], r.windows_n), (1, 100, 1));
                assert_eq!(cache, expected);
            }
            RangeAnswer::BadGateway(m) => panic!("{}", m),
        }
    }
}

#[test]
fn a_session_waits_for_routes_and_stops_on_shutdown() {
    assert_eq!(readiness(true, 3), Readiness::Stop);
    assert_eq!(readiness(true, 0), Readiness::Stop);
    assert_eq!(readiness(false, 0), Readiness::AwaitRoutes);
    assert_eq!(readiness(false, 1), Readiness::Run);
}

#[test]
fn the_top_is_taken_of_what_passes_the_filter() {
    let specs = vec![
        spec("AAAUSDT", Quote::Usdt),
        spec("BTCUSDT", Quote::Usdt),
        spec("ETHUSDC", Quote::Usdc),
        spec("XRPUSDT", Quote::Usdt),
    ];
    let volumes = vec![("BTCUSDT".to_string(), 9), ("ETHUSDC".to_string(), 7)];
    let mut cfg = BinancePerpConfig { top_n: Some(2), ..Default::default() };
    cfg.deny = vec!["XRPUSDT".into()];
    let names = |cfg: &BinancePerpConfig, v: Option<&Vec<(String, i64)>>| -> Vec<String> {
        wanted_specs(&specs, cfg, Exchange::BinanceF, MarketType::Perp, v)
            .into_iter()
            .map(|s| s.symbol)
            .collect()
    };
    assert_eq!(names(&cfg, Some(&volumes)), vec!["AAAUSDT", "BTCUSDT"]);
    cfg.rank_by = RankBy::Volume24h;
    assert_eq!(names(&cfg, Some(&volumes)), vec!["BTCUSDT", "ETHUSDC"]);
    assert_eq!(names(&cfg, None), vec!["AAAUSDT", "BTCUSDT"]);
    cfg.top_n = None;
    assert_eq!(names(&cfg, Some(&volumes)), vec!["BTCUSDT", "ETHUSDC", "AAAUSDT"]);
    assert!(wanted_specs(&specs, &cfg, Exchange::Binance, MarketType::Spot, None).is_empty());
}

#[test]
fn an_aggregator_is_driven_by_events() {
    let key = SymbolKey::new(Exchange::BinanceF, MarketType::Perp, "BTCUSDT");
    let mut a = Aggregator::new(key, 10, 60_000, 100);
    let t = TradePrint {
        exchange_ts_ns: 1,
        aggressor: AggressorSide::Bid,
        price: 123,
        qty: 4,
        trade_id: 1,
    };
    assert!(a.on_event(EngineEvent::Tick(1_000_000_000)).is_none());
    assert!(a.on_event(EngineEvent::Partial).is_none());
    assert!(a.on_event(EngineEvent::Trade(t)).is_none());
    assert_eq!(a.on_event(EngineEvent::Partial).unwrap().sequence(), 1);
    assert_eq!(a.on_event(EngineEvent::Tick(1_000_000_000)).unwrap().sequence(), 2);
    assert!(a.on_event(EngineEvent::Tick(2_000_000_000)).is_none());
    let next = TradePrint { exchange_ts_ns: 60_000_000_000, ..t };
    assert_eq!(a.on_event(EngineEvent::Trade(next)).unwrap().sequence(), 3);
    assert_eq!(a.on_event(EngineEvent::Closed).unwrap().sequence(), 1);
    assert!(a.on_event(EngineEvent::Closed).is_none());
    assert!(a.room());
}

#[test]
fn a_writer_is_driven_by_events() {
    let snap = AnalyticsSnapshot {
        clusters: vec![
            ClusterBucket { price: 100, bid_qty: 1, ask_qty: 0, trades: 1 },
            ClusterBucket { price: 110, bid_qty: 0, ask_qty: 1, trades: 1 },
        ],
        ..Default::default()
    };
    let mut w = ChWriter::new(ChWriterConfig { batch_size: 2, ..Default::default() });
    let idle = WriterStep { flush: false, stop: false };
    let flush = WriterStep { flush: true, stop: false };
    assert_eq!(w.on_event(WriterEvent::Tick), idle);
    let mut rows = rows_from_snapshot(&snap, &spec("BTCUSDT", Quote::Usdt), "r").into_iter();
    assert_eq!(w.on_event(WriterEvent::Row(rows.next().unwrap())), idle);
    assert_eq!(w.on_event(WriterEvent::Tick), flush);
    assert_eq!(w.on_event(WriterEvent::Row(rows.next().unwrap())), flush);
    assert_eq!(w.on_event(WriterEvent::Closed), WriterStep { flush: true, stop: true });
    w.settle(true);
    assert_eq!(w.on_event(WriterEvent::Closed), WriterStep { flush: false, stop: true });
    assert_eq!(w.stats().rows_ok, 2);
}

#[test]
fn the_request_for_listed_coins_names_its_kind() {
    assert_eq!(HyperliquidInstrumentsInfo::new().request_body(), r#"{"type":"meta"}"#);
}

#[test]
fn a_step_is_exact_at_its_own_scale() {
    for (text, scale, units) in [("0.00100", 3, 1), ("12.50", 1, 125), ("100", 0, 100)] {
        assert_eq!(count_decimals_trimmed(text), scale);
        assert_eq!(parse_scaled(text, scale).unwrap(), units);
    }
}
