use std::sync::Arc;

use clusters::history::{
    cache_control, check_range, json_u32, parse_range_body, range_url, upstream_failure,
    validate_params, RangeCheck, RangeParams,
};
use clusters::json::parse_json;
use clusters::materialize::{
    backfill_from, materialize_sql, materialize_url, refresh_from, table_for, TFS,
};
use clusters::sink::{
    row_to_json, rows_from_frame, rows_from_snapshot, ChWriter, ChWriterConfig, ClusterRow,
};
use clusters::sysmetrics::{
    cpu_peak, largest_disk, num_cpus, parse_table_sizes, table_sizes_url, used_bytes, DiskSpace,
};
use clusters::timeframes::table_name_for;
use clusters::types::{
    AnalyticsDiff, AnalyticsSnapshot, ClusterBucket, ClusterFrame, Exchange, MarketType, Quote,
    SymbolSpec,
};
use clusters::url::{query_url, urlencode};

fn params(interval: u32, from: i64, to: i64) -> RangeParams {
    RangeParams {
        exchange: "BINANCEF".into(),
        market_type: "perp".into(),
        symbol: "BTCUSDT".into(),
        interval_seconds: interval,
        from_ms: from,
        to_ms: to,
    }
}

#[test]
fn range_bodies_become_columns() {
    let body = concat_lines(&[
        r#"[60000,"100",1,2,3,"2",300,10,11,12,9]"#,
        "",
        "not json",
        r#"[60000,110,4,5,6,9,9,0,0,0,0]"#,
        r#"[120000,100,1,1]"#,
        r#"{"a":1}"#,
        r#"["120000",100,-7,8,9]"#,
        r#"[120000,101,1,1,1,1,1,5,"6",null,8]"#,
        r#"[180000,100,1,1,4294967296]"#,
    ]);
    let r = parse_range_body(&params(60, 0, 200_000), &body);
    assert_eq!(r.n, 4);
    assert_eq!(r.window_start_ms, vec![60_000, 60_000, 120_000, 120_000]);
    assert_eq!(r.price, vec![100, 110, 100, 101]);
    assert_eq!(r.bid_qty, vec![1, 4, -7, 1]);
    assert_eq!(r.ask_qty, vec![2, 5, 8, 1]);
    assert_eq!(r.trades, vec![3, 6, 9, 1]);
    assert_eq!((r.price_scale, r.qty_scale), (2, 255));
    assert_eq!(r.windows_n, 2);
    assert_eq!(r.windows, vec![60_000, 120_000]);
    assert_eq!(r.open, vec![10, 0]);
    assert_eq!(r.close, vec![11, 0]);
    assert_eq!(r.high, vec![12, 0]);
    assert_eq!(r.low, vec![9, 0]);
    assert_eq!(r.symbol, "BTCUSDT");
    assert_eq!(parse_range_body(&params(60, 0, 1), "").n, 0);
}

fn concat_lines(lines: &[&str]) -> String {
    lines.join("\n")
}

#[test]
fn clusters_range_rejects_bad_interval() {
    match check_range(&params(45, 0, 60_000)) {
        RangeCheck::BadRequest(m) => assert_eq!(
            m,
            "interval_seconds: 45 not supported; use one of 30/60/300/900/3600/14400/86400"
        ),
        other => panic!("{other:?}"),
    }
    assert!(matches!(check_range(&params(60, 0, 60_000)), RangeCheck::Go));
    match check_range(&params(30, 0, 365 * 86_400_000)) {
        RangeCheck::TooLarge(m) => assert_eq!(
            m,
            "estimated rows (52560000) exceed cap (500000); narrow the range or use a larger interval_seconds"
        ),
        other => panic!("{other:?}"),
    }
}

#[test]
fn every_fault_of_a_range_is_named() {
    let fault = |f: &dyn Fn(&mut RangeParams)| {
        let mut q = params(60, 0, 60_000);
        f(&mut q);
        validate_params(&q).unwrap_err()
    };
    assert_eq!(fault(&|q| q.symbol = String::new()), "symbol: required, max 32 chars");
    assert_eq!(fault(&|q| q.symbol = "A".repeat(33)), "symbol: required, max 32 chars");
    assert_eq!(fault(&|q| q.symbol = "A B".into()), "symbol: ASCII alphanumeric + _- only");
    assert_eq!(fault(&|q| q.market_type = "x".into()), "market_type: 'spot' | 'perp'");
    assert_eq!(fault(&|q| q.exchange = String::new()), "exchange: required, max 32 chars");
    assert_eq!(
        fault(&|q| q.exchange = "A_B".into()),
        "exchange: ASCII alphanumeric only (e.g. BINANCEF)"
    );
    assert_eq!(fault(&|q| q.from_ms = -1), "from_ms/to_ms: must be >= 0");
    assert_eq!(fault(&|q| q.to_ms = 0), "to_ms must be > from_ms");
}

#[test]
fn settled_ranges_may_be_kept() {
    let q = params(60, 0, 60_000);
    assert_eq!(cache_control(&q, 180_001), "public, max-age=86400");
    assert_eq!(cache_control(&q, 180_000), "no-store");
    assert_eq!(cache_control(&q, 120_001), "no-store");
    assert_eq!(cache_control(&q, 120_000), "no-cache");
    assert_eq!(cache_control(&q, 0), "no-cache");
    assert_eq!(cache_control(&params(60, 0, i64::MAX), i64::MAX), "no-cache");
    assert_eq!(upstream_failure("500", &"x".repeat(600)), format!("CH 500: {}", "x".repeat(500)));
    assert_eq!(upstream_failure("500", "short"), "CH 500: short");
    assert!(range_url("http://h:8123/", "clusters", &q)
        .starts_with("http://h:8123/?query=SELECT%20toUnixTimestamp64Milli%28t.window_start%29"));
    assert_eq!(json_u32(&parse_json(b"\"7\"").unwrap()), Some(7));
    assert_eq!(json_u32(&parse_json(b"-7").unwrap()), None);
}

fn spec() -> SymbolSpec {
    SymbolSpec {
        exchange: Exchange::Hyperliquid,
        market_type: MarketType::Spot,
        quote: Quote::Usdc,
        symbol: "A\"B".into(),
        price_scale: 2,
        qty_scale: 3,
        tick_size: 10,
        step_size: 1,
    }
}

fn snap() -> AnalyticsSnapshot {
    AnalyticsSnapshot {
        window_start_ns: -1_500_000,
        clusters: vec![ClusterBucket { price: -5, bid_qty: 1, ask_qty: 2, trades: 3 }],
        ..Default::default()
    }
}

fn row() -> ClusterRow {
    rows_from_snapshot(&snap(), &spec(), "tokyo").remove(0)
}

#[test]
fn rows_are_written_field_by_field() {
    assert_eq!(
        row_to_json(&row()),
        r#"{"exchange":"HYPERLIQUID","market_type":"spot","quote":"USDC","symbol":"A\"B","window_start":-1,"price":-5,"price_scale":2,"bid_qty":1,"ask_qty":2,"trades":3,"qty_scale":3,"ingest_region":"tokyo"}"#
    );
}

#[test]
fn only_snapshots_are_stored() {
    let s = ClusterFrame::Snapshot(Arc::new(snap()));
    assert_eq!(rows_from_frame(&s, &spec(), "r").len(), 1);
    let d = ClusterFrame::Diff(Arc::new(AnalyticsDiff {
        window_start_ns: 0,
        sequence: 4,
        upserts: vec![],
        removes: vec![],
    }));
    assert_eq!(d.sequence(), 4);
    assert!(rows_from_frame(&d, &spec(), "r").is_empty());
}

#[test]
fn run_drains_on_close_and_records_stats() {
    let mut w = ChWriter::new(ChWriterConfig {
        url: "http://127.0.0.1:1/".into(),
        batch_size: 2,
        ..Default::default()
    });
    assert!(!w.flush_due());
    assert!(!w.push(row()));
    assert!(w.flush_due());
    assert!(w.push(row()));
    assert!(w.room());
    w.settle(false);
    assert_eq!(w.pending().len(), 2);
    w.settle(true);
    assert_eq!(w.pending().len(), 0);
    let s = w.stats();
    assert_eq!((s.batches_ok, s.batches_err, s.rows_ok), (1, 1, 2));
    assert_eq!(
        w.insert_url(),
        "http://127.0.0.1:1/?query=INSERT%20INTO%20clusters.clusters_1m%20FORMAT%20JSONEachRow"
    );
    assert_eq!(w.ddl_url(), "http://127.0.0.1:1");
    assert_eq!(w.insert_body().unwrap(), "");
    assert_eq!(w.config().batch_size, 2);
}

#[test]
fn table_sizes_are_read_loosely() {
    let body = "{\"table\":\"a\",\"rows\":\"5\",\"compressed_bytes\":1,\"uncompressed_bytes\":2}\n  \nnope\n";
    let t = parse_table_sizes(body).unwrap();
    assert_eq!(t.len(), 1);
    assert_eq!((t[0].table.as_str(), t[0].rows), ("a", 5));
    assert_eq!((t[0].compressed_bytes, t[0].uncompressed_bytes), (1, 2));
    assert!(parse_table_sizes("{\"table\":\"a\"}").is_none());
    assert!(table_sizes_url("http://h/", "o'x").contains("database%20%3D%20%27o%27%27x%27"));
}

#[test]
fn the_largest_disk_is_reported() {
    let disks = [
        DiskSpace { total: 5, free: 1 },
        DiskSpace { total: 9, free: 2 },
        DiskSpace { total: 9, free: 3 },
    ];
    assert_eq!(largest_disk(&disks), Some(1));
    assert_eq!(largest_disk(&[]), None);
    assert_eq!(used_bytes(9, 2), 7);
    assert_eq!(used_bytes(2, 9), 0);
    assert_eq!((num_cpus(0), num_cpus(8)), (1, 8));
    assert_eq!((cpu_peak(5, 3), cpu_peak(3, 5)), (5, 5));
}

#[test]
fn rollups_begin_at_a_bar() {
    let sql = materialize_sql("clusters", 300, 301_000, 900_000);
    assert!(sql.starts_with("INSERT INTO clusters.clusters_5m (exchange,"));
    assert!(sql.contains(">= fromUnixTimestamp64Milli(300000) AND window_start < fromUnixTimestamp64Milli(900000)"));
    let before = materialize_sql("clusters", 300, -1, 0);
    assert!(before.contains(">= fromUnixTimestamp64Milli(-300000) AND"));
    let at = materialize_sql("clusters", 300, -300_000, 0);
    assert!(at.contains(">= fromUnixTimestamp64Milli(-300000) AND"));
    let first = materialize_sql("clusters", 300, i64::MIN, 0);
    assert!(first.contains(">= fromUnixTimestamp64Milli(-9223372036854900000) AND"));
    assert!(sql.contains("INTERVAL 300 SECOND"));
    assert!(sql.contains("'BINANCE','BINANCEF','OKX','OKXF','BYBIT','BYBITF'"));
    assert_eq!(materialize_url("http://h/"), "http://h/?max_threads=4&max_execution_time=600");
    assert_eq!(refresh_from(10_000_000, 300), 10_000_000 - 900_000);
    assert_eq!(refresh_from(10_000_000, 3600), 10_000_000 - 7_200_000);
    assert_eq!(backfill_from(1_000_000_000), 1_000_000_000 - 604_800_000);
    for tf in TFS {
        assert_eq!(table_for(tf), table_name_for(tf));
    }
    assert_eq!(table_for(60), "clusters_1m");
}

#[test]
fn queries_are_percent_encoded() {
    assert_eq!(urlencode("a-Z_0.~ /é"), "a-Z_0.~%20%2F%C3%A9");
    assert_eq!(query_url("http://h", "SELECT 1"), "http://h/?query=SELECT%201");
    assert_ne!(table_name_for(90), table_name_for(5400));
}
