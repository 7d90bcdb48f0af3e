use clusters::history::{
    build_range_sql, estimate_max_rows, json_i64, sql_escape, validate_params, RangeParams, MAX_BARS,
};
use clusters::json::{parse_json, Json};

fn parse(text: &str) -> Json {
    parse_json(text.as_bytes()).unwrap()
}

fn p(interval: u32, from: i64, to: i64) -> RangeParams {
    RangeParams {
        exchange: "BINANCEF".into(),
        market_type: "perp".into(),
        symbol: "BTCUSDT".into(),
        interval_seconds: interval,
        from_ms: from,
        to_ms: to,
    }
}

#[test]
fn validate_happy_path() {
    validate_params(&p(60, 0, 60_000)).unwrap();
}

#[test]
fn validate_rejects_unsupported_interval() {
    assert!(validate_params(&p(45, 0, 60_000)).is_err());
}

#[test]
fn validate_rejects_bad_market() {
    let mut q = p(60, 0, 60_000);
    q.market_type = "futures".into();
    assert!(validate_params(&q).is_err());
}

#[test]
fn validate_rejects_symbol_with_sql_chars() {
    let mut q = p(60, 0, 60_000);
    q.symbol = "BTC'OR'1=1".into();
    assert!(validate_params(&q).is_err());
}

#[test]
fn validate_rejects_inverted_range() {
    assert!(validate_params(&p(60, 1000, 500)).is_err());
    assert!(validate_params(&p(60, 1000, 1000)).is_err());
}

#[test]
fn estimate_caps_silly_ranges() {
    let yr = p(30, 0, 365 * 86_400_000);
    assert!(estimate_max_rows(&yr) > MAX_BARS);
    let hr = p(60, 0, 3_600_000);
    assert!(estimate_max_rows(&hr) < MAX_BARS);
    let five_min_week = p(300, 0, 7 * 86_400_000);
    assert!(estimate_max_rows(&five_min_week) < MAX_BARS,
        "5m × 7d must fit: estimate={}", estimate_max_rows(&five_min_week));
}

#[test]
fn json_i64_handles_string_and_number() {
    assert_eq!(json_i64(&parse("42")), Some(42));
    assert_eq!(json_i64(&parse("\"42\"")), Some(42));
    assert_eq!(json_i64(&parse("-1")), Some(-1));
    assert_eq!(json_i64(&parse("null")), None);
}

#[test]
fn sql_escape_quotes_a_single_quote() {
    assert_eq!(sql_escape("hello"), "hello");
    assert_eq!(sql_escape("o'brien"), "o''brien");
}

#[test]
fn base_tfs_read_their_table_directly() {
    let s30 = build_range_sql("clusters", &p(30, 0, 60_000));
    assert!(s30.contains("clusters.clusters_30s FINAL"));
    assert!(!s30.contains("toStartOfInterval"), "30s must not roll up");
    let s60 = build_range_sql("clusters", &p(60, 0, 60_000));
    assert!(s60.contains("clusters.clusters_1m FINAL"));
    assert!(!s60.contains("toStartOfInterval"), "1m must not roll up");
}

#[test]
fn long_tfs_roll_up_from_1m() {
    for iv in [300u32, 900, 1800, 3600, 14400, 86400] {
        let s = build_range_sql("clusters", &p(iv, 0, 86_400_000));
        assert!(s.contains("clusters.clusters_1m FINAL"), "{iv}: base must be 1m");
        assert!(!s.contains("clusters_5m") && !s.contains("clusters_1d"),
            "{iv}: must not touch the stale per-TF tables");
        assert!(s.contains(&format!("INTERVAL {iv} SECOND")), "{iv}: rolled boundary");
        assert!(
            s.contains("sum(bid_qty)")
                && s.contains("argMinIf(sub_open")
                && s.contains("argMaxIf(sub_close"),
            "{iv}: additive buckets + deterministic two-level OHLC rollup",
        );
        // 11-column output order preserved for the shared parser.
        assert!(s.contains("b.price, b.bid_qty, b.ask_qty, b.trades, b.ps, b.qs, w.o, w.c, w.h, w.l"));
    }
}
