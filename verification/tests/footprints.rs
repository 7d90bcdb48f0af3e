use clusters::aggregator::Aggregator;
use clusters::supervisor::aggregator_for;
use clusters::types::{
    AggressorSide, AnalyticsSnapshot, ClusterBucket, ClusterFrame, Exchange, MarketType, Quote,
    SymbolKey, SymbolSpec, TradePrint,
};

fn agg() -> Aggregator {
    Aggregator::new(SymbolKey::new(Exchange::BinanceF, MarketType::Perp, "BTCUSDT"), 10, 60_000, 100)
}

fn trade(ts_ns: i64, price: i64, qty: i64, aggressor: AggressorSide) -> TradePrint {
    TradePrint { exchange_ts_ns: ts_ns, aggressor, price, qty, trade_id: 0 }
}

fn snapshot(f: ClusterFrame) -> AnalyticsSnapshot {
    match f {
        ClusterFrame::Snapshot(s) => (*s).clone(),
        ClusterFrame::Diff(_) => panic!("expected a snapshot"),
    }
}

fn sorted(mut v: Vec<ClusterBucket>) -> Vec<ClusterBucket> {
    v.sort_by_key(|b| b.price);
    v
}

#[test]
fn a_window_reports_every_level_once_with_its_totals() {
    let mut a = agg();
    for (price, qty, side) in [
        (101, 1, AggressorSide::Bid),
        (109, 2, AggressorSide::Ask),
        (115, 3, AggressorSide::Bid),
        (100, 4, AggressorSide::Bid),
    ] {
        assert!(a.ingest(trade(5, price, qty, side)).is_none());
    }
    let s = snapshot(a.flush().unwrap());
    assert_eq!(
        sorted(s.clusters),
        vec![
            ClusterBucket { price: 100, bid_qty: 5, ask_qty: 2, trades: 3 },
            ClusterBucket { price: 110, bid_qty: 3, ask_qty: 0, trades: 1 },
        ]
    );
    assert_eq!((s.open, s.close, s.high, s.low), (101, 100, 115, 100));
    assert!(a.flush().is_none());
    assert!(a.current_window_snapshot().is_none());
}

#[test]
fn diffs_applied_to_a_snapshot_give_the_window() {
    let mut a = agg();
    a.ingest(trade(1, 100, 5, AggressorSide::Bid));
    a.ingest(trade(2, 200, 6, AggressorSide::Ask));
    let mut held = sorted(snapshot(a.current_window_snapshot().unwrap()).clusters);
    a.tick(1_000_000_000).unwrap();
    a.ingest(trade(3, 205, 1, AggressorSide::Ask));
    a.ingest(trade(4, 300, 2, AggressorSide::Bid));
    match a.tick(2_000_000_000).unwrap() {
        ClusterFrame::Diff(d) => {
            assert!(d.removes.is_empty());
            assert_eq!(d.upserts.len(), 2);
            for b in d.upserts.iter() {
                held.retain(|h| h.price != b.price);
                held.push(*b);
            }
        }
        ClusterFrame::Snapshot(_) => panic!("expected a diff"),
    }
    assert_eq!(sorted(held), sorted(snapshot(a.flush().unwrap()).clusters));
}

#[test]
fn quantities_saturate() {
    let mut a = agg();
    a.ingest(trade(1, 100, i64::MAX, AggressorSide::Bid));
    a.ingest(trade(2, 100, 1, AggressorSide::Bid));
    let s = snapshot(a.flush().unwrap());
    assert_eq!(s.clusters[0].bid_qty, i64::MAX);
    assert_eq!(s.clusters[0].trades, 2);
}

#[test]
fn negative_times_and_prices_round_towards_zero() {
    let mut a = agg();
    a.ingest(trade(-1, -15, 1, AggressorSide::Ask));
    let s = snapshot(a.flush().unwrap());
    assert_eq!(s.window_start_ns, 0);
    assert_eq!(s.clusters[0].price, -10);
}

#[test]
fn frames_of_a_window_are_numbered_from_one() {
    let mut a = agg();
    a.ingest(trade(1, 100, 1, AggressorSide::Bid));
    assert_eq!(a.tick(1_000_000_000).unwrap().sequence(), 1);
    assert_eq!(a.current_window_snapshot().unwrap().sequence(), 2);
    let closing = a.ingest(trade(60_000_000_000, 100, 1, AggressorSide::Bid)).unwrap();
    assert_eq!(closing.sequence(), 3);
    assert_eq!(a.current_window_snapshot().unwrap().sequence(), 1);
    assert_eq!(a.key().symbol.as_ref(), "BTCUSDT");
}

fn spec(tick_size: i64) -> SymbolSpec {
    SymbolSpec {
        exchange: Exchange::BinanceF,
        market_type: MarketType::Perp,
        quote: Quote::Usdt,
        symbol: "BTCUSDT".into(),
        price_scale: 2,
        qty_scale: 3,
        tick_size,
        step_size: 1,
    }
}

#[test]
fn aggregators_take_the_tick_and_the_bar_length() {
    let mut a = aggregator_for(&spec(10), 60, 200).unwrap();
    a.ingest(trade(1, 109, 1, AggressorSide::Bid));
    let closing = snapshot(a.ingest(trade(60_000_000_000, 100, 1, AggressorSide::Bid)).unwrap());
    assert_eq!(closing.clusters[0].price, 100);
    assert!(aggregator_for(&spec(0), 60, 200).is_none());
    assert!(aggregator_for(&spec(10), 0, 200).is_none());
    assert!(aggregator_for(&spec(10), 60, 0).is_none());
    assert!(aggregator_for(&spec(10), 60, i64::MAX).is_none());
    assert!(aggregator_for(&spec(10), u32::MAX, 1).is_some());
}

#[test]
fn diffs_overlaid_on_nothing_give_the_window() {
    let mut a = agg();
    let mut held = std::collections::BTreeMap::new();
    a.ingest(trade(1, 100, 5, AggressorSide::Bid));
    a.ingest(trade(60_000_000_000, 100, 1, AggressorSide::Bid)).unwrap();
    let trades = [(101, 1), (212, 2), (105, 3), (333, 4)];
    for (i, (price, qty)) in trades.into_iter().enumerate() {
        a.ingest(trade(60_000_000_001, price, qty, AggressorSide::Ask));
        match a.tick((i as i64 + 1) * 1_000_000_000) {
            Some(ClusterFrame::Diff(d)) => {
                for b in &d.upserts {
                    held.insert(b.price, b.clone());
                }
            }
            other => panic!("expected a diff, got {:?}", other),
        }
        let whole = sorted(snapshot(a.current_window_snapshot().unwrap()).clusters);
        assert_eq!(whole, held.values().cloned().collect::<Vec<_>>());
    }
}

#[test]
fn an_extra_snapshot_only_raises_the_numbers() {
    let mut plain = agg();
    let mut extra = agg();
    for a in [&mut plain, &mut extra] {
        a.ingest(trade(1, 100, 5, AggressorSide::Bid));
    }
    assert_eq!(extra.current_window_snapshot().unwrap().sequence(), 1);
    let (p, x) = (plain.tick(1_000_000_000).unwrap(), extra.tick(1_000_000_000).unwrap());
    assert_eq!((p.sequence(), x.sequence()), (1, 2));
    let next = trade(60_000_000_000, 200, 1, AggressorSide::Ask);
    let (p, x) = (snapshot(plain.ingest(next).unwrap()), snapshot(extra.ingest(next).unwrap()));
    assert_eq!((p.sequence, x.sequence), (2, 3));
    assert_eq!((p.clusters, p.open, p.close), (x.clusters, x.open, x.close));
    assert_eq!(plain.flush().unwrap().sequence(), 1);
    assert_eq!(extra.flush().unwrap().sequence(), 1);
}

#[test]
fn a_flush_starts_anew() {
    let mut a = agg();
    a.ingest(trade(60_000_000_000, 100, 5, AggressorSide::Bid));
    assert!(a.ingest(trade(1, 100, 5, AggressorSide::Bid)).is_none());
    assert_eq!(a.dropped_late_trades(), 1);
    a.current_window_snapshot().unwrap();
    assert_eq!(a.flush().unwrap().sequence(), 2);
    assert!(a.flush().is_none());
    assert!(a.tick(i64::MAX).is_none());
    assert!(a.current_window_snapshot().is_none());
    assert!(a.ingest(trade(1, 100, 5, AggressorSide::Bid)).is_none());
    assert_eq!(a.dropped_late_trades(), 1);
    assert_eq!(&*a.key().symbol, "BTCUSDT");
    assert_eq!(a.tick(1_000_000_000).unwrap().sequence(), 1);
}
