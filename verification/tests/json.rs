use patroni_exporter::json::Json;

#[test]
fn reads_an_object() {
    let doc = Json::from_slice(b"{\"a\": 1, \"b\": [true, null, \"x\", -2, 1.5]}").unwrap();
    match doc.get("a") {
        Some(Json::Number(Some(1))) => {}
        _ => panic!("a"),
    }
    match doc.get("b") {
        Some(Json::Array(items)) => {
            assert_eq!(items.len(), 5);
            assert!(matches!(items[0], Json::Bool(true)));
            assert!(matches!(items[1], Json::Null));
            assert!(matches!(&items[2], Json::Text(s) if s == "x"));
            assert!(matches!(items[3], Json::Number(None)));
            assert!(matches!(items[4], Json::Number(None)));
        }
        _ => panic!("b"),
    }
    assert!(doc.get("c").is_none());
}

#[test]
fn rejects_what_is_no_json() {
    assert!(Json::from_slice(b"{\"a\": ").is_none());
    assert!(Json::from_slice(b"").is_none());
    assert!(Json::from_slice(b"{} x").is_none());
    assert!(Json::from_slice(b"{'a': 1}").is_none());
    assert!(Json::from_slice(b"[1,]").is_none());
    assert!(Json::from_slice(&[b'"', 0xff, b'"']).is_none());
}

#[test]
fn reads_every_kind_of_value() {
    assert!(matches!(Json::from_slice(b"null"), Some(Json::Null)));
    assert!(matches!(Json::from_slice(b" true "), Some(Json::Bool(true))));
    assert!(matches!(Json::from_slice(b"false"), Some(Json::Bool(false))));
    assert!(matches!(Json::from_slice(b"0"), Some(Json::Number(Some(0)))));
    assert!(matches!(Json::from_slice(b"18446744073709551615"), Some(Json::Number(Some(u64::MAX)))));
    assert!(matches!(Json::from_slice(b"18446744073709551616"), Some(Json::Number(None))));
    assert!(matches!(Json::from_slice(b"-0"), Some(Json::Number(None))));
    assert!(matches!(Json::from_slice(b"1e2"), Some(Json::Number(None))));
    assert!(matches!(Json::from_slice(b"2.0"), Some(Json::Number(None))));
    assert!(matches!(Json::from_slice(b"\"a\\n\\u00e9\""), Some(Json::Text(s)) if s == "a\n\u{e9}"));
    assert!(matches!(Json::from_slice(b"[]"), Some(Json::Array(items)) if items.is_empty()));
    assert!(matches!(Json::from_slice(b"{}"), Some(Json::Object(entries)) if entries.is_empty()));
    assert!(matches!(Json::from_slice(b"[[[]]]"), Some(Json::Array(items)) if matches!(&items[0], Json::Array(inner) if matches!(&inner[0], Json::Array(_)))));
}

#[test]
fn a_key_that_is_repeated_has_one_entry() {
    match Json::from_slice(b"{\"a\": 1, \"b\": 2, \"a\": 3}") {
        Some(Json::Object(entries)) => {
            assert_eq!(entries.len(), 2);
            let doc = Json::Object(entries);
            assert_eq!(doc.number("a"), Some(3));
            assert_eq!(doc.number("b"), Some(2));
        }
        _ => panic!("object"),
    }
}

#[test]
fn values_are_found_by_their_key_and_kind() {
    let doc = Json::Object(vec![
        ("t".to_string(), Json::Text("x".to_string())),
        ("f".to_string(), Json::Bool(false)),
        ("n".to_string(), Json::Number(Some(7))),
        ("m".to_string(), Json::Number(None)),
        ("z".to_string(), Json::Null),
        ("t".to_string(), Json::Text("second".to_string())),
    ]);
    assert_eq!(doc.text("t"), Some("x"));
    assert_eq!(doc.text("f"), None);
    assert_eq!(doc.text("missing"), None);
    assert_eq!(doc.flag("f"), Some(false));
    assert_eq!(doc.flag("t"), None);
    assert_eq!(doc.flag("z"), None);
    assert_eq!(doc.number("n"), Some(7));
    assert_eq!(doc.number("m"), None);
    assert_eq!(doc.number("t"), None);
    assert!(matches!(doc.get("z"), Some(Json::Null)));
    assert!(doc.get("T").is_none());
    assert!(doc.get("").is_none());
    for other in [Json::Null, Json::Bool(true), Json::Number(Some(1)), Json::Text("t".to_string()), Json::Array(vec![])] {
        assert!(other.get("t").is_none());
        assert_eq!(other.text("t"), None);
        assert_eq!(other.flag("t"), None);
        assert_eq!(other.number("t"), None);
    }
}
