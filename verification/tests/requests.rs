use clusters::aggregator::{Aggregator, EngineEvent};
use clusters::auth::{rest_auth, AuthState};
use clusters::history::{answer_range, check_range, RangeAnswer, RangeCheck, RangeParams, Upstream};
use clusters::types::{
    AggressorSide, ClusterFrame, Exchange, MarketType, SymbolKey, TradePrint,
};

fn guarded() -> AuthState {
    AuthState::new(vec!["secret".into()], true)
}

#[test]
fn health_is_public_even_when_auth_enabled() {
    assert!(rest_auth(&guarded(), "/health", None));
}

#[test]
fn sysmetrics_rejects_missing_bearer() {
    assert!(!rest_auth(&guarded(), "/v1/system/metrics", None));
}

#[test]
fn sysmetrics_rejects_wrong_bearer() {
    assert!(!rest_auth(&guarded(), "/v1/system/metrics", Some("Bearer wrong")));
}

#[test]
fn sysmetrics_accepts_correct_bearer() {
    assert!(rest_auth(&guarded(), "/v1/system/metrics", Some("Bearer secret")));
}

#[test]
fn sysmetrics_open_when_auth_disabled() {
    assert!(rest_auth(&AuthState::disabled(), "/v1/system/metrics", None));
}

#[test]
fn clusters_range_validates_params() {
    assert!(!rest_auth(&guarded(), "/v1/clusters/range", None));
    assert!(rest_auth(&AuthState::disabled(), "/v1/clusters/range", None));
    let q = RangeParams {
        exchange: "BINANCEF".into(),
        market_type: "perp".into(),
        symbol: "BTCUSDT".into(),
        interval_seconds: 60,
        from_ms: 0,
        to_ms: 60_000,
    };
    assert!(matches!(check_range(&q), RangeCheck::Go));
    let unreachable = Upstream::Unreachable("builder error".into());
    assert!(matches!(answer_range(&q, &unreachable, 0), RangeAnswer::BadGateway(_)));
}

#[test]
fn task_publishes_closing_snapshot_on_window_roll() {
    let key = SymbolKey::new(Exchange::BinanceF, MarketType::Perp, "BTCUSDT");
    let mut agg = Aggregator::new(key, 10, 60_000, 100);
    let first = TradePrint {
        exchange_ts_ns: 1_000,
        aggressor: AggressorSide::Bid,
        price: 100,
        qty: 5,
        trade_id: 1,
    };
    let second = TradePrint {
        exchange_ts_ns: 60_000_000_001,
        aggressor: AggressorSide::Ask,
        price: 200,
        qty: 1,
        trade_id: 2,
    };
    assert!(agg.on_event(EngineEvent::Trade(first)).is_none());
    match agg.on_event(EngineEvent::Trade(second)) {
        Some(ClusterFrame::Snapshot(s)) => {
            assert_eq!(s.window_start_ns, 0);
            assert_eq!(s.clusters.len(), 1);
            assert_eq!(s.clusters[0].bid_qty, 5);
        }
        other => panic!("expected a snapshot, got {:?}", other),
    }
}
