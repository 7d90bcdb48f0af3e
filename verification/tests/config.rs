use clusters::config::IngestConfig;
use clusters::retention::{RetentionConfig, RetentionOverride};

fn ov(exchange: &str, mt: &str, days: u64) -> RetentionOverride {
    RetentionOverride {
        exchange: exchange.into(),
        market_type: mt.into(),
        interval_seconds: None,
        days,
    }
}

fn ov_tf(exchange: &str, mt: &str, tf: u32, days: u64) -> RetentionOverride {
    RetentionOverride {
        exchange: exchange.into(),
        market_type: mt.into(),
        interval_seconds: Some(tf),
        days,
    }
}

#[test]
fn retention_defaults_to_seven_days_delete_only() {
    let r = RetentionConfig::default();
    assert_eq!(r.default_days, 7);
    assert!(r.apply_on_start);
    let clause = r.ttl_clause_for(60).unwrap();
    assert!(clause.contains("INTERVAL 7 DAY DELETE"));
    assert!(!clause.contains("TO VOLUME"));
    assert!(!clause.contains("WHERE"));
}

#[test]
fn retention_with_cold_tier_emits_both_clauses_in_order() {
    let r = RetentionConfig {
        default_days: 30,
        move_to_cold_days: Some(7),
        apply_on_start: true,
        overrides: Vec::new(),
    };
    let clause = r.ttl_clause_for(60).unwrap();
    let cold_pos = clause.find("TO VOLUME 'cold'").unwrap();
    let del_pos = clause.find("DELETE").unwrap();
    assert!(cold_pos < del_pos, "TO VOLUME must precede DELETE: {clause}");
    assert!(clause.contains("INTERVAL 7 DAY TO VOLUME 'cold'"));
    assert!(clause.contains("INTERVAL 30 DAY DELETE"));
}

#[test]
fn retention_ignores_cold_when_not_earlier_than_delete() {
    let r = RetentionConfig {
        default_days: 7,
        move_to_cold_days: Some(7),
        apply_on_start: true,
        overrides: Vec::new(),
    };
    assert!(!r.ttl_clause_for(60).unwrap().contains("TO VOLUME"));

    let r = RetentionConfig {
        default_days: 7,
        move_to_cold_days: Some(30),
        apply_on_start: true,
        overrides: Vec::new(),
    };
    assert!(!r.ttl_clause_for(60).unwrap().contains("TO VOLUME"));
}

#[test]
fn retention_all_zero_means_no_ttl_at_all() {
    let r = RetentionConfig {
        default_days: 0,
        move_to_cold_days: None,
        apply_on_start: true,
        overrides: Vec::new(),
    };
    assert!(r.ttl_clause_for(60).is_none());

    let r = RetentionConfig {
        default_days: 0,
        move_to_cold_days: None,
        apply_on_start: true,
        overrides: vec![ov("BINANCEF", "perp", 0), ov("BYBITF", "perp", 0)],
    };
    assert!(r.ttl_clause_for(60).is_none());
}

#[test]
fn retention_per_exchange_overrides_emit_separate_where_clauses() {
    let r = RetentionConfig {
        default_days: 7,
        move_to_cold_days: None,
        apply_on_start: true,
        overrides: vec![ov("BINANCEF", "perp", 30), ov("BYBITF", "perp", 7)],
    };
    let clause = r.ttl_clause_for(60).unwrap();
    assert!(
        clause.contains("INTERVAL 30 DAY DELETE WHERE exchange = 'BINANCEF' AND market_type = 'perp'"),
        "missing BINANCEF override clause: {clause}"
    );
    assert!(
        clause.contains("INTERVAL 7 DAY DELETE WHERE exchange = 'BYBITF' AND market_type = 'perp'"),
        "missing BYBITF override clause: {clause}"
    );
    assert!(clause.contains("WHERE NOT ("));
    assert!(clause.contains("exchange = 'BINANCEF'"));
    assert!(clause.contains("exchange = 'BYBITF'"));
}

#[test]
fn retention_forever_override_excludes_from_default_delete() {
    let r = RetentionConfig {
        default_days: 7,
        move_to_cold_days: None,
        apply_on_start: true,
        overrides: vec![ov("BINANCE", "spot", 0)],
    };
    let clause = r.ttl_clause_for(60).unwrap();
    assert!(
        !clause.contains("DELETE WHERE exchange = 'BINANCE' AND market_type = 'spot'"),
        "forever override must NOT emit a DELETE clause for itself: {clause}"
    );
    assert!(
        clause.contains("WHERE NOT (exchange = 'BINANCE' AND market_type = 'spot')"),
        "default clause must exclude forever override: {clause}"
    );
}

#[test]
fn retention_per_tf_override_applies_only_to_matching_table() {
    let r = RetentionConfig {
        default_days: 7,
        move_to_cold_days: None,
        apply_on_start: true,
        overrides: vec![
            ov_tf("BINANCEF", "perp", 30, 1),
            ov_tf("BINANCEF", "perp", 3600, 0),
        ],
    };

    let c30 = r.ttl_clause_for(30).unwrap();
    assert!(
        c30.contains("INTERVAL 1 DAY DELETE WHERE exchange = 'BINANCEF' AND market_type = 'perp'"),
        "30s clause must have 1-day DELETE for BINANCEF/perp: {c30}"
    );

    let c3600 = r.ttl_clause_for(3600).unwrap();
    assert!(
        !c3600.contains("DELETE WHERE exchange = 'BINANCEF' AND market_type = 'perp'"),
        "1h clause must NOT have explicit DELETE for forever override: {c3600}"
    );
    assert!(
        c3600.contains("WHERE NOT (exchange = 'BINANCEF' AND market_type = 'perp')"),
        "1h default must exclude forever override: {c3600}"
    );

    let c300 = r.ttl_clause_for(300).unwrap();
    assert!(c300.contains("INTERVAL 7 DAY DELETE"));
    assert!(!c300.contains("WHERE"), "5m has no overrides → no WHERE: {c300}");
}

#[test]
fn retention_specific_tf_override_beats_global_override() {
    let r = RetentionConfig {
        default_days: 7,
        move_to_cold_days: None,
        apply_on_start: true,
        overrides: vec![
            ov("BINANCEF", "perp", 14),
            ov_tf("BINANCEF", "perp", 30, 1),
        ],
    };
    let c30 = r.ttl_clause_for(30).unwrap();
    assert!(c30.contains("INTERVAL 1 DAY DELETE"));
    assert!(!c30.contains("INTERVAL 14 DAY DELETE"));

    let c60 = r.ttl_clause_for(60).unwrap();
    assert!(c60.contains("INTERVAL 14 DAY DELETE"));
}

#[test]
fn retention_validate_rejects_duplicate_and_bad_case() {
    let bad = RetentionConfig {
        default_days: 7,
        overrides: vec![ov("BINANCEF", "perp", 7), ov("BINANCEF", "perp", 14)],
        ..RetentionConfig::default()
    };
    assert!(bad.validate().is_err(), "duplicate (exchange, market) must fail");

    let bad = RetentionConfig {
        default_days: 7,
        overrides: vec![ov("binancef", "perp", 7)],
        ..RetentionConfig::default()
    };
    assert!(bad.validate().is_err());

    let bad = RetentionConfig {
        default_days: 7,
        overrides: vec![ov("BINANCEF", "PERP", 7)],
        ..RetentionConfig::default()
    };
    assert!(bad.validate().is_err());

    let bad = RetentionConfig {
        default_days: 7,
        overrides: vec![ov("BINANCEF", "futures", 7)],
        ..RetentionConfig::default()
    };
    assert!(bad.validate().is_err());

    let good = RetentionConfig {
        default_days: 7,
        overrides: vec![
            ov("BINANCEF", "perp", 30),
            ov("BINANCE", "spot", 0),
            ov_tf("BINANCEF", "perp", 30, 1),
        ],
        ..RetentionConfig::default()
    };
    good.validate().unwrap();
}

#[test]
fn enabled_exchanges_whitelist_overrides_section_enabled() {
    let mut c = IngestConfig::default();
    assert!(c.is_exchange_enabled("binance_perp", true));
    assert!(!c.is_exchange_enabled("binance_perp", false));

    c.enabled_exchanges = vec!["binance_perp".into()];
    assert!(c.is_exchange_enabled("binance_perp", false));

    c.enabled_exchanges = vec!["bybit_perp".into()];
    assert!(!c.is_exchange_enabled("binance_perp", true));
}
