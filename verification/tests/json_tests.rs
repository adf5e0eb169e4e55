use llm3d_host::json::{JsonNumber, JsonObject, JsonValue};

fn s(x: &str) -> JsonValue {
    JsonValue::String(x.to_string())
}

#[test]
fn object_insert_get_and_replace() {
    let mut o = JsonObject::new();
    assert!(!o.contains_key("a"));
    assert_eq!(o.insert("a".into(), s("1")), None);
    assert_eq!(o.insert("b".into(), s("2")), None);
    assert!(o.contains_key("a"));
    assert_eq!(o.get("a"), Some(&s("1")));
    assert_eq!(o.insert("a".into(), s("3")), Some(s("1")));
    assert_eq!(o.get("a"), Some(&s("3")));
    assert_eq!(o.get("c"), None);
    let mut entries = o.into_entries();
    entries.sort_by(|x, y| x.0.cmp(&y.0));
    assert_eq!(entries, vec![("a".to_string(), s("3")), ("b".to_string(), s("2"))]);
}

#[test]
fn value_accessors() {
    let mut o = JsonObject::new();
    o.insert("type".into(), s("log"));
    let v = JsonValue::Object(o);
    assert_eq!(v.get("type").and_then(|t| t.as_str()), Some("log"));
    assert_eq!(v.get("missing"), None);
    assert_eq!(s("x").get("type"), None);
    assert_eq!(s("x").as_str(), Some("x"));
    assert_eq!(JsonValue::Null.as_str(), None);
}

#[test]
fn integer_accessors_follow_serde_json() {
    let pos = JsonValue::Number(JsonNumber::PosInt(42));
    let big = JsonValue::Number(JsonNumber::PosInt(u64::MAX));
    let neg = JsonValue::Number(JsonNumber::NegInt(-5));
    let float = JsonValue::Number(JsonNumber::Float(1.5f64.to_bits()));
    assert_eq!(pos.as_u64(), Some(42));
    assert_eq!(pos.as_i64(), Some(42));
    assert_eq!(big.as_u64(), Some(u64::MAX));
    assert_eq!(big.as_i64(), None);
    assert_eq!(neg.as_u64(), None);
    assert_eq!(neg.as_i64(), Some(-5));
    assert_eq!(float.as_u64(), None);
    assert_eq!(float.as_i64(), None);
    assert_eq!(JsonValue::from_i32(-3), JsonValue::Number(JsonNumber::NegInt(-3)));
    assert_eq!(JsonValue::from_i32(0), JsonValue::Number(JsonNumber::PosInt(0)));
    assert_eq!(JsonValue::from_i32(640), JsonValue::Number(JsonNumber::PosInt(640)));
}
