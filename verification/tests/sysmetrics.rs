use clusters::json::{parse_json, Json};
use clusters::sysmetrics::json_u64;
use clusters::url::urlencode;

fn parse(text: &str) -> Json {
    parse_json(text.as_bytes()).unwrap()
}

#[test]
fn json_u64_handles_both_string_and_number() {
    let n = parse("42");
    let s = parse("\"42\"");
    assert_eq!(json_u64(Some(&n)), Some(42));
    assert_eq!(json_u64(Some(&s)), Some(42));
    assert_eq!(json_u64(Some(&parse("null"))), None);
    assert_eq!(json_u64(None), None);
}

#[test]
fn urlencode_handles_quotes_and_punct() {
    let q = "WHERE database = 'clusters'";
    let enc = urlencode(q);
    assert!(enc.contains("%27"));
    assert!(enc.contains("WHERE"));
}
