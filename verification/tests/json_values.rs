use clusters::json::{
    no_members, object, parse_json, parse_json_list, text, text_array, uint, with_member,
    write_json, Json, JsonNumber,
};

fn parse(text: &str) -> Json {
    parse_json(text.as_bytes()).unwrap()
}

#[test]
fn documents_are_read_by_member() {
    let v = parse(r#"{"a":{"b":[1,-2,"x",true,null,1.5]},"t":"text"}"#);
    assert_eq!(v.text_at("t"), Some("text"));
    assert!(v.get("missing").is_none());
    let items = v.get("a").unwrap().array_at("b").unwrap();
    assert_eq!(items.len(), 6);
    assert_eq!(items[0].as_u64(), Some(1));
    assert_eq!(items[1].as_i64(), Some(-2));
    assert_eq!(items[1].as_u64(), None);
    assert_eq!(items[2].as_str(), Some("x"));
    assert_eq!(items[3].as_bool(), Some(true));
    assert!(matches!(items[4], Json::Null));
    match &items[5] {
        Json::Number(JsonNumber::Float(n)) => assert_eq!(n.to_string(), "1.5"),
        other => panic!("expected a double, got {other:?}"),
    }
}

#[test]
fn integers_keep_their_range() {
    assert_eq!(parse("18446744073709551615").as_u64(), Some(u64::MAX));
    assert_eq!(parse("18446744073709551615").as_i64(), None);
    assert_eq!(parse("-9223372036854775808").as_i64(), Some(i64::MIN));
    assert_eq!(parse("9223372036854775807").as_i64(), Some(i64::MAX));
}

#[test]
fn the_later_of_two_members_counts() {
    let v = parse(r#"{"a":1,"a":2}"#);
    assert_eq!(v.u64_at("a"), Some(2));
    let w = Json::Object(vec![
        ("a".to_string(), Json::Bool(true)),
        ("a".to_string(), Json::Bool(false)),
    ]);
    assert_eq!(w.bool_at("a"), Some(false));
    assert_eq!(write_json(&w), r#"{"a":false}"#);
    let m = with_member(no_members(), "a", uint(1));
    let m = with_member(with_member(m, "b", uint(2)), "a", uint(3));
    assert_eq!(write_json(&object(m)), r#"{"a":3,"b":2}"#);
}

#[test]
fn unreadable_documents_come_with_the_reason() {
    assert_eq!(parse_json(b"not json").unwrap_err(), "expected ident at line 1 column 2");
    assert!(parse_json(b"").is_err());
    assert!(parse_json(b"{} trailing").is_err());
    assert!(parse_json_list(b"{}").is_err());
    assert_eq!(parse_json_list(b"[1,2]").unwrap().len(), 2);
}

#[test]
fn documents_are_written_compactly() {
    let m = with_member(no_members(), "method", text("SUBSCRIBE"));
    let m = with_member(m, "params", text_array(&vec!["a\"b".to_string(), "c\n".to_string()]));
    let doc = object(with_member(m, "id", uint(7)));
    assert_eq!(
        write_json(&doc),
        r#"{"id":7,"method":"SUBSCRIBE","params":["a\"b","c\n"]}"#
    );
    assert_eq!(write_json(&Json::Number(JsonNumber::NegInt(-5))), "-5");
    assert_eq!(write_json(&Json::Null), "null");
    assert_eq!(write_json(&Json::Bool(true)), "true");
}

#[test]
fn what_is_written_reads_back() {
    let m = with_member(no_members(), "s", text("ünï\t'\"\\"));
    let doc = object(with_member(m, "n", uint(u64::MAX)));
    let back = parse(&write_json(&doc));
    assert_eq!(back.text_at("s"), Some("ünï\t'\"\\"));
    assert_eq!(back.u64_at("n"), Some(u64::MAX));
}
