use clusters::auth::{grpc_auth, rest_auth, AuthState, GrpcRefusal};
use clusters::config::{AuthConfig, BinancePerpConfig, Config, IngestConfig, RankBy};
use clusters::listing::http_failure;
use clusters::retention::{sql_escape_single, RetentionConfig, RetentionOverride};
use clusters::stream::{
    keys_from_csv, market_type_wire, parse_exchange, parse_market_type, read_subscription,
    symbol_key_from_wire, wire_key_from_symbol, WireKey,
};
use clusters::types::{Exchange, MarketType, StreamKey, SymbolKey};

#[test]
fn defaults_are_usable() {
    let c = Config::default().ingest;
    assert_eq!(c.region, "tokyo");
    assert_eq!(c.timeframes_secs, vec![60]);
    assert_eq!((c.window_ms, c.diff_interval_ms, c.agg_tick_interval()), (60_000, 200, 100));
    assert_eq!((c.trade_channel_bound, c.ch_channel_bound), (32_768, 65_536));
    assert!(c.validate_timeframes().is_ok());
    assert!(c.auth.validate().is_ok());
    assert!(c.retention.validate().is_ok());
    let b = BinancePerpConfig::default();
    assert!(b.enabled);
    assert_eq!(b.include_quotes, vec!["USDT", "USDC"]);
    assert_eq!(b.rank_by, RankBy::Alphabetical);
    assert_eq!(
        (b.discovery_poll(), b.ws_connect_timeout(), b.backoff_min(), b.backoff_max()),
        (300, 15_000, 500, 30_000)
    );
}

fn timeframes(tfs: &[u32]) -> Result<(), String> {
    let c = IngestConfig { timeframes_secs: tfs.to_vec(), ..IngestConfig::default() };
    c.validate_timeframes()
}

#[test]
fn bar_lengths_are_distinct_multiples_of_thirty() {
    assert!(timeframes(&[30, 60, 300, 86_400]).is_ok());
    assert_eq!(
        timeframes(&[]).unwrap_err(),
        "timeframes_secs пуст; задай хотя бы один TF (например [60])"
    );
    assert_eq!(timeframes(&[60, 0]).unwrap_err(), "timeframes_secs содержит 0 — это бессмысленно");
    assert!(timeframes(&[15]).unwrap_err().starts_with("timeframes_secs: 15s слишком мелко"));
    assert_eq!(timeframes(&[45]).unwrap_err(), "timeframes_secs: 45s не кратно 30");
    assert_eq!(timeframes(&[60, 30, 60]).unwrap_err(), "timeframes_secs: дубликат 60");
}

#[test]
fn the_environment_overrides_tokens() {
    let mut a = AuthConfig::default();
    a.apply_overrides(Some(""), None);
    assert!(a.tokens.is_empty());
    a.apply_overrides(None, Some("yes"));
    assert!(a.enabled);
    assert!(a.validate().unwrap_err().contains("CLUSTER_INGEST_TOKEN"));
    a.apply_overrides(Some("t"), Some("TRUE"));
    assert!(a.validate().is_ok());
    assert_eq!(a.tokens, vec!["t"]);
    a.apply_overrides(None, Some("on"));
    assert!(!a.enabled);
}

#[test]
fn requests_need_a_listed_token() {
    let on = AuthState::new(vec!["secret".into()], true);
    assert!(rest_auth(&on, "/health", None));
    assert!(!rest_auth(&on, "/v1/system/metrics", None));
    assert!(!rest_auth(&on, "/v1/system/metrics", Some("Bearer wrong")));
    assert!(!rest_auth(&on, "/v1/system/metrics", Some("bearer secret")));
    assert!(rest_auth(&on, "/v1/system/metrics", Some("Bearer secret")));
    assert!(rest_auth(&AuthState::disabled(), "/v1/system/metrics", None));
    assert_eq!(grpc_auth(&on, None), Err(GrpcRefusal::MissingToken));
    assert_eq!(grpc_auth(&on, Some("Bearer x")), Err(GrpcRefusal::InvalidToken));
    assert_eq!(grpc_auth(&on, Some("Bearer secret")), Ok(()));
    assert_eq!(grpc_auth(&AuthState::disabled(), None), Ok(()));
    assert_eq!(GrpcRefusal::MissingToken.message(), "missing bearer token");
    assert_eq!(GrpcRefusal::InvalidToken.message(), "invalid bearer token");
}

fn rule(exchange: &str, interval_seconds: Option<u32>, days: u64) -> RetentionOverride {
    RetentionOverride { exchange: exchange.into(), market_type: "perp".into(), interval_seconds, days }
}

#[test]
fn retention_is_one_clause_for_each_rule() {
    let c = RetentionConfig {
        default_days: 30,
        move_to_cold_days: Some(7),
        apply_on_start: true,
        overrides: vec![
            rule("A'B", None, 14),
            rule("OKX", Some(60), 0),
            rule("A'B", Some(60), 1),
            rule("A'B", None, 99),
            rule("GATE", Some(30), 5),
        ],
    };
    let a = "exchange = 'A''B' AND market_type = 'perp'";
    let o = "exchange = 'OKX' AND market_type = 'perp'";
    let t = "toDateTime(window_start) + INTERVAL";
    assert_eq!(
        c.ttl_clause_for(60).unwrap(),
        format!("{t} 1 DAY DELETE WHERE {a}, {t} 7 DAY TO VOLUME 'cold' WHERE NOT ({a} OR {o}), {t} 30 DAY DELETE WHERE NOT ({a} OR {o})")
    );
    assert_eq!(
        c.ttl_statement("db", "clusters_5m", 300).unwrap(),
        format!("ALTER TABLE db.clusters_5m MODIFY TTL {t} 14 DAY DELETE WHERE {a}, {t} 7 DAY TO VOLUME 'cold' WHERE NOT ({a}), {t} 30 DAY DELETE WHERE NOT ({a})")
    );
    assert_eq!(sql_escape_single("''"), "''''");
}

#[test]
fn faulty_rules_are_named() {
    let fault = |overrides: Vec<RetentionOverride>| {
        RetentionConfig { overrides, ..RetentionConfig::default() }.validate().unwrap_err()
    };
    assert_eq!(
        fault(vec![rule("A", Some(30), 1), rule("A", Some(30), 2)]),
        "retention.override: дубликат для (A, perp, interval_seconds=Some(30)) — оставь одно правило"
    );
    assert_eq!(
        fault(vec![rule("A", None, 1), rule("A", None, 1)]),
        "retention.override: дубликат для (A, perp, interval_seconds=None) — оставь одно правило"
    );
    assert_eq!(
        fault(vec![rule("a", None, 1)]),
        "retention.override.exchange = 'a' — ожидается UPPER (как Exchange::wire_id, например 'BINANCEF')"
    );
    let mut upper = rule("A", None, 1);
    upper.market_type = "Perp".into();
    assert_eq!(
        fault(vec![upper]),
        "retention.override.market_type = 'Perp' — ожидается lowercase ('spot' | 'perp')"
    );
    let mut other = rule("A", None, 1);
    other.market_type = "swap".into();
    assert_eq!(
        fault(vec![other]),
        "retention.override.market_type = 'swap' — поддерживаются 'spot' | 'perp'"
    );
}

fn wire(exchange: &str, market_type: &str, symbol: &str) -> WireKey {
    WireKey {
        exchange: exchange.into(),
        market_type: market_type.into(),
        symbol: symbol.into(),
    }
}

#[test]
fn subscribe_rejects_empty_symbol_list() {
    assert_eq!(read_subscription(&vec![]).unwrap_err(), "subscribe with empty symbol list");
    let many: Vec<WireKey> = (0..1025).map(|_| wire("OKX", "SPOT", "X")).collect();
    assert_eq!(
        read_subscription(&many).unwrap_err(),
        "too many symbols in one subscribe (max 1024)"
    );
}

#[test]
fn subscribe_rejects_unknown_exchange() {
    let keys = vec![wire("OKX", "SPOT", "X"), wire("FAKEX", "PERP", "BTCUSDT")];
    assert_eq!(read_subscription(&keys).unwrap_err(), "unknown exchange: FAKEX");
    assert_eq!(
        symbol_key_from_wire(&wire("OKX", "spot", "X")).unwrap_err(),
        "unknown market_type: spot"
    );
    assert_eq!(symbol_key_from_wire(&wire("OKX", "SPOT", "")).unwrap_err(), "empty symbol");
    assert_eq!(parse_exchange("ASTER"), None);
    assert_eq!(read_subscription(&vec![wire("OKX", "SPOT", "X")]).unwrap().len(), 1);
}

#[test]
fn keys_round_trip_on_the_stream() {
    for e in [
        Exchange::Binance,
        Exchange::BinanceF,
        Exchange::Bybit,
        Exchange::BybitF,
        Exchange::Bitget,
        Exchange::BitgetF,
        Exchange::Okx,
        Exchange::OkxF,
        Exchange::Hyperliquid,
        Exchange::Kucoin,
        Exchange::KucoinF,
        Exchange::Gate,
        Exchange::GateF,
    ] {
        assert_eq!(parse_exchange(e.wire_id()), Some(e));
        for m in [MarketType::Spot, MarketType::Perp] {
            assert_eq!(parse_market_type(market_type_wire(m)), Some(m));
            let k = SymbolKey::new(e, m, "BTCUSDT");
            assert_eq!(symbol_key_from_wire(&wire_key_from_symbol(&k)).unwrap(), k);
            assert!(k.same_as(&k.clone()));
            assert_ne!(StreamKey::new(k.clone(), 30), StreamKey::new(k, 60));
        }
    }
    assert!(Exchange::AsterF.is_futures() && !Exchange::Aster.is_futures());
    assert_eq!(Exchange::BingxF.wire_id(), "BINGXF");
}

#[test]
fn symbols_are_listed_with_commas() {
    let keys = keys_from_csv("OKX", "SPOT", " BTCUSDT, ,ETHUSDT,");
    let names: Vec<&str> = keys.iter().map(|k| k.symbol.as_str()).collect();
    assert_eq!(names, vec!["BTCUSDT", "ETHUSDT"]);
    assert_eq!(keys[1].exchange, "OKX");
}

#[test]
fn failed_requests_say_what_came_back() {
    assert_eq!(http_failure("404 Not Found", "x").message(), "network error: HTTP 404 Not Found: x");
}
