use clusters::aggregator::Aggregator;
use clusters::types::{
    AggressorSide, ClusterBucket, ClusterFrame, Exchange, MarketType, SymbolKey, TradePrint,
};

fn key() -> SymbolKey {
    SymbolKey::new(Exchange::BinanceF, MarketType::Perp, "BTCUSDT")
}

fn agg() -> Aggregator {
    // bucket_step=10, window=60s, diff=100ms
    Aggregator::new(key(), 10, 60_000, 100)
}

fn trade(ts_ns: i64, price: i64, qty: i64, side: AggressorSide) -> TradePrint {
    TradePrint {
        exchange_ts_ns: ts_ns,
        aggressor: side,
        price,
        qty,
        trade_id: 0,
    }
}

fn snapshot_buckets(frame: &ClusterFrame) -> Vec<ClusterBucket> {
    match frame {
        ClusterFrame::Snapshot(s) => {
            let mut v = s.clusters.clone();
            v.sort_by_key(|b| b.price);
            v
        }
        ClusterFrame::Diff(_) => panic!("expected snapshot"),
    }
}

fn diff_buckets(frame: &ClusterFrame) -> Vec<ClusterBucket> {
    match frame {
        ClusterFrame::Diff(d) => {
            let mut v = d.upserts.clone();
            v.sort_by_key(|b| b.price);
            v
        }
        ClusterFrame::Snapshot(_) => panic!("expected diff"),
    }
}

#[test]
fn first_trade_does_not_emit_and_buckets_correctly() {
    let mut a = agg();
    let r = a.ingest(trade(1_000, 12_345, 7, AggressorSide::Bid));
    assert!(r.is_none());
    let f = a.flush().unwrap();
    let buckets = snapshot_buckets(&f);
    assert_eq!(buckets.len(), 1);
    // 12345 / 10 * 10 = 12340
    assert_eq!(buckets[0].price, 12_340);
    assert_eq!(buckets[0].bid_qty, 7);
    assert_eq!(buckets[0].ask_qty, 0);
    assert_eq!(buckets[0].trades, 1);
}

#[test]
fn trades_in_same_bucket_aggregate_per_side() {
    let mut a = agg();
    a.ingest(trade(1_000, 100, 5, AggressorSide::Bid));
    a.ingest(trade(2_000, 105, 3, AggressorSide::Bid));
    a.ingest(trade(3_000, 109, 9, AggressorSide::Ask));
    let f = a.flush().unwrap();
    let buckets = snapshot_buckets(&f);
    assert_eq!(buckets.len(), 1);
    assert_eq!(buckets[0].price, 100);
    assert_eq!(buckets[0].bid_qty, 8);
    assert_eq!(buckets[0].ask_qty, 9);
    assert_eq!(buckets[0].trades, 3);
}

#[test]
fn window_roll_emits_closing_snapshot_with_old_window_state() {
    let mut a = agg();
    // Window 1: 0..60_000_000_000 ns
    a.ingest(trade(1_000_000, 100, 4, AggressorSide::Bid));
    a.ingest(trade(50_000_000_000, 110, 2, AggressorSide::Ask));
    // Trade in window 2 triggers close of window 1
    let closing = a
        .ingest(trade(60_000_000_001, 200, 1, AggressorSide::Bid))
        .expect("window roll must emit");
    match &closing {
        ClusterFrame::Snapshot(s) => {
            assert_eq!(s.window_start_ns, 0);
            assert_eq!(s.sequence, 1);
            let mut clusters = s.clusters.clone();
            clusters.sort_by_key(|b| b.price);
            assert_eq!(clusters.len(), 2);
            assert_eq!(clusters[0].price, 100);
            assert_eq!(clusters[0].bid_qty, 4);
            assert_eq!(clusters[1].price, 110);
            assert_eq!(clusters[1].ask_qty, 2);
        }
        _ => panic!("expected snapshot on roll"),
    }

    // After roll, only the new trade should be in state.
    let next = a.flush().unwrap();
    let buckets = snapshot_buckets(&next);
    assert_eq!(buckets.len(), 1);
    assert_eq!(buckets[0].price, 200);
    assert_eq!(buckets[0].bid_qty, 1);
}

#[test]
fn out_of_order_late_trade_is_dropped() {
    let mut a = agg();
    a.ingest(trade(70_000_000_000, 100, 1, AggressorSide::Bid));
    let r = a.ingest(trade(10_000_000_000, 100, 99, AggressorSide::Bid));
    assert!(r.is_none());
    assert_eq!(a.dropped_late_trades(), 1);
    let f = a.flush().unwrap();
    let buckets = snapshot_buckets(&f);
    assert_eq!(buckets[0].bid_qty, 1, "late trade must not count");
}

#[test]
fn tick_emits_only_dirty_buckets() {
    let mut a = agg();
    a.ingest(trade(1_000, 100, 5, AggressorSide::Bid));
    a.ingest(trade(2_000, 200, 3, AggressorSide::Ask));

    let frame = a.tick(1_000_000_000).expect("first tick must emit");
    let buckets = diff_buckets(&frame);
    assert_eq!(buckets.len(), 2);

    // Immediate next tick: no new dirty entries, must not emit.
    assert!(a.tick(1_000_000_001).is_none());

    // New trade in only one bucket; next tick after diff_interval emits only that one.
    a.ingest(trade(3_000, 100, 2, AggressorSide::Bid));
    let frame2 = a.tick(2_000_000_000).expect("second tick must emit");
    let buckets2 = diff_buckets(&frame2);
    assert_eq!(buckets2.len(), 1);
    assert_eq!(buckets2[0].price, 100);
    assert_eq!(buckets2[0].bid_qty, 7);
}

#[test]
fn tick_respects_diff_interval() {
    let mut a = agg();
    a.ingest(trade(1_000, 100, 1, AggressorSide::Bid));
    // First tick at t=0: 0 - 0 = 0, NOT >= 100ms, must not emit.
    assert!(a.tick(0).is_none());
    // At 99ms: still under threshold.
    assert!(a.tick(99_000_000).is_none());
    // At 100ms: at threshold, must emit.
    assert!(a.tick(100_000_000).is_some());
}

#[test]
fn current_window_snapshot_returns_none_on_empty_window() {
    let mut a = agg();
    assert!(a.current_window_snapshot().is_none());
}

#[test]
fn current_window_snapshot_emits_in_progress_state_without_resetting() {
    let mut a = agg();
    a.ingest(trade(1_000, 12_345, 7, AggressorSide::Bid));
    a.ingest(trade(2_000, 12_348, 3, AggressorSide::Ask));

    let f = a.current_window_snapshot().unwrap();
    let buckets = snapshot_buckets(&f);
    assert_eq!(buckets.len(), 1);
    assert_eq!(buckets[0].price, 12_340);
    assert_eq!(buckets[0].bid_qty, 7);
    assert_eq!(buckets[0].ask_qty, 3);

    a.ingest(trade(3_000, 12_343, 5, AggressorSide::Bid));
    let f2 = a.current_window_snapshot().unwrap();
    let buckets2 = snapshot_buckets(&f2);
    assert_eq!(buckets2.len(), 1);
    assert_eq!(
        buckets2[0].bid_qty, 12,
        "должно быть 7+5, а не сброс к 5 — partial-snapshot не должен трогать accum"
    );
}

#[test]
fn current_window_snapshot_bumps_sequence_monotonically() {
    let mut a = agg();
    a.ingest(trade(1_000, 100, 1, AggressorSide::Bid));
    let f1 = a.current_window_snapshot().unwrap();
    let s1 = match &f1 {
        ClusterFrame::Snapshot(s) => s.sequence,
        _ => panic!(),
    };
    let f2 = a.current_window_snapshot().unwrap();
    let s2 = match &f2 {
        ClusterFrame::Snapshot(s) => s.sequence,
        _ => panic!(),
    };
    assert!(s2 > s1, "sequence must strictly increase: {s1} → {s2}");
}

#[test]
fn current_window_snapshot_carries_ohlc() {
    let mut a = agg();
    a.ingest(trade(1_000, 100, 1, AggressorSide::Bid)); // open=100
    a.ingest(trade(2_000, 150, 1, AggressorSide::Bid)); // high=150
    a.ingest(trade(3_000, 80, 1, AggressorSide::Bid));  // low=80
    a.ingest(trade(4_000, 120, 1, AggressorSide::Bid)); // close=120

    let f = a.current_window_snapshot().unwrap();
    match f {
        ClusterFrame::Snapshot(s) => {
            assert_eq!(s.open, 100);
            assert_eq!(s.high, 150);
            assert_eq!(s.low, 80);
            assert_eq!(s.close, 120);
        }
        _ => panic!("expected snapshot"),
    }
}

#[test]
fn sequence_resets_on_window_roll() {
    let mut a = agg();
    a.ingest(trade(1_000, 100, 1, AggressorSide::Bid));
    let _ = a.tick(200_000_000); // diff seq=1
    let _ = a.tick(400_000_000); // dirty empty -> None
    a.ingest(trade(1_000, 100, 1, AggressorSide::Ask));
    let _ = a.tick(600_000_000); // diff seq=2
    let closing = a
        .ingest(trade(60_000_000_001, 100, 1, AggressorSide::Bid))
        .unwrap();
    match closing {
        ClusterFrame::Snapshot(s) => assert_eq!(s.sequence, 3),
        _ => panic!(),
    }
    // Next emission in new window starts seq from 1.
    let next = a
        .ingest(trade(120_000_000_001, 100, 1, AggressorSide::Bid))
        .unwrap();
    match next {
        ClusterFrame::Snapshot(s) => assert_eq!(s.sequence, 1),
        _ => panic!(),
    }
}
