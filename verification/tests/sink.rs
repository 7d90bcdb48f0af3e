use clusters::sink::{rows_from_snapshot, serialize_jsoneachrow};
use clusters::types::{
    AnalyticsSnapshot, ClusterBucket, Exchange, MarketType, Quote, SymbolSpec,
};
use clusters::url::urlencode;

fn spec(symbol: &str) -> SymbolSpec {
    SymbolSpec {
        exchange: Exchange::BinanceF,
        market_type: MarketType::Perp,
        quote: Quote::Usdt,
        symbol: symbol.into(),
        price_scale: 2,
        qty_scale: 3,
        tick_size: 10,
        step_size: 1,
    }
}

fn snapshot(window_start_ns: i64, buckets: Vec<ClusterBucket>) -> AnalyticsSnapshot {
    AnalyticsSnapshot {
        window_start_ns,
        sequence: 1,
        clusters: buckets,
        ..Default::default()
    }
}

#[test]
fn rows_from_snapshot_one_per_bucket() {
    let s = snapshot(
        60_000_000_000,
        vec![
            ClusterBucket {
                price: 100,
                bid_qty: 5,
                ask_qty: 0,
                trades: 1,
            },
            ClusterBucket {
                price: 110,
                bid_qty: 0,
                ask_qty: 3,
                trades: 2,
            },
        ],
    );
    let rows = rows_from_snapshot(&s, &spec("BTCUSDT"), "tokyo");
    assert_eq!(rows.len(), 2);
    assert_eq!(rows[0].exchange, "BINANCEF");
    assert_eq!(rows[0].market_type, "perp");
    assert_eq!(rows[0].quote, "USDT");
    assert_eq!(rows[0].symbol, "BTCUSDT");
    assert_eq!(rows[0].window_start, 60_000);
    assert_eq!(rows[0].price, 100);
    assert_eq!(rows[0].price_scale, 2);
    assert_eq!(rows[0].bid_qty, 5);
    assert_eq!(rows[0].qty_scale, 3);
    assert_eq!(rows[0].ingest_region, "tokyo");

    assert_eq!(rows[1].price, 110);
    assert_eq!(rows[1].ask_qty, 3);
    assert_eq!(rows[1].trades, 2);
}

#[test]
fn jsoneachrow_format_is_one_object_per_line_no_array() {
    let s = snapshot(
        0,
        vec![
            ClusterBucket {
                price: 100,
                bid_qty: 1,
                ask_qty: 0,
                trades: 1,
            },
            ClusterBucket {
                price: 200,
                bid_qty: 0,
                ask_qty: 2,
                trades: 1,
            },
        ],
    );
    let rows = rows_from_snapshot(&s, &spec("BTCUSDT"), "tokyo");
    let body = serialize_jsoneachrow(&rows).unwrap();
    let lines: Vec<&str> = body.lines().collect();
    assert_eq!(lines.len(), 2);
    assert!(!body.starts_with('['), "must not be a JSON array");
    assert!(!body.ends_with('\n'), "must not have trailing newline");

    // Each line must be a parseable JSON object.
    for line in &lines {
        let v: serde_json::Value = serde_json::from_str(line).unwrap();
        assert!(v.is_object());
    }
}

#[test]
fn urlencode_handles_sql_punctuation() {
    let q = "INSERT INTO clusters.clusters_1m FORMAT JSONEachRow";
    let enc = urlencode(q);
    // Spaces become %20, dots stay literal.
    assert!(enc.contains("INSERT%20INTO"));
    assert!(enc.contains("clusters.clusters_1m"));
}
