use clusters::timeframes::{is_supported_interval, table_name_for, SUPPORTED_INTERVALS};

#[test]
fn standard_intervals_map_to_human_names() {
    assert_eq!(table_name_for(30), "clusters_30s");
    assert_eq!(table_name_for(60), "clusters_1m");
    assert_eq!(table_name_for(300), "clusters_5m");
    assert_eq!(table_name_for(900), "clusters_15m");
    assert_eq!(table_name_for(1800), "clusters_30m");
    assert_eq!(table_name_for(3600), "clusters_1h");
    assert_eq!(table_name_for(14400), "clusters_4h");
    assert_eq!(table_name_for(86400), "clusters_1d");
}

#[test]
fn non_standard_falls_back_to_unit_format() {
    assert_eq!(table_name_for(45), "clusters_45s");
    assert_eq!(table_name_for(120), "clusters_2m");
    assert_eq!(table_name_for(7200), "clusters_2h");
    assert_eq!(table_name_for(172800), "clusters_2d");
}

#[test]
fn supported_intervals_all_resolve_and_validate() {
    for iv in SUPPORTED_INTERVALS {
        assert!(is_supported_interval(iv), "{iv} should be supported");
        assert!(table_name_for(iv).starts_with("clusters_"));
    }
    assert!(!is_supported_interval(45));
    assert!(!is_supported_interval(7200));
}
