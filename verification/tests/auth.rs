use clusters::auth::{ct_eq, extract_bearer, is_public_path, AuthState};

#[test]
fn extract_bearer_strict_prefix() {
    assert_eq!(extract_bearer(Some("Bearer s3cr3t")), Some("s3cr3t"));
    assert_eq!(extract_bearer(Some("bearer s3cr3t")), None);
    assert_eq!(extract_bearer(Some("Token s3cr3t")), None);
    assert_eq!(extract_bearer(None), None);
}

#[test]
fn ct_eq_matches_eq() {
    assert!(ct_eq(b"abcd", b"abcd"));
    assert!(!ct_eq(b"abcd", b"abce"));
    assert!(!ct_eq(b"abc", b"abcd"));
    assert!(ct_eq(b"", b""));
}

#[test]
fn disabled_auth_accepts_anything() {
    let s = AuthState::disabled();
    assert!(s.accepts(""));
    assert!(s.accepts("anything"));
}

#[test]
fn enabled_auth_strict() {
    let s = AuthState::new(vec!["alpha".into(), "bravo".into()], true);
    assert!(s.accepts("alpha"));
    assert!(s.accepts("bravo"));
    assert!(!s.accepts("charlie"));
    assert!(!s.accepts(""));
}

#[test]
fn public_paths_only_strict_prefix() {
    assert!(is_public_path("/health"));
    assert!(is_public_path("/health/live"));
    assert!(is_public_path("/metrics"));
    assert!(!is_public_path("/healthier"));
    assert!(!is_public_path("/v1/system/metrics"));
    assert!(!is_public_path("/"));
}
