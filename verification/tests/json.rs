use english_partner::json::{JsonNumber, JsonValue};

fn obj(members: Vec<(&str, JsonValue)>) -> JsonValue {
    JsonValue::Object(members.into_iter().map(|(k, v)| (k.to_string(), v)).collect())
}

#[test]
fn field_lookups() {
    let v = obj(vec![
        ("a", JsonValue::Str("x".to_string())),
        ("b", JsonValue::Number(JsonNumber::PosInt(7))),
        ("c", JsonValue::Bool(true)),
        ("d", JsonValue::Number(JsonNumber::NegInt(-2))),
        ("e", JsonValue::Array(vec![JsonValue::Null, JsonValue::Bool(false)])),
    ]);
    assert_eq!(v.text_field(&"a".to_string()), "x");
    assert_eq!(v.text_field(&"b".to_string()), "");
    assert_eq!(v.str_field(&"a".to_string()), Some("x".to_string()));
    assert_eq!(v.str_field(&"zz".to_string()), None);
    assert_eq!(v.u64_field(&"b".to_string()), Some(7));
    assert_eq!(v.u64_field(&"d".to_string()), None);
    assert_eq!(v.bool_field(&"c".to_string()), Some(true));
    assert_eq!(v.bool_field(&"a".to_string()), None);
    assert!(v.get(&"missing".to_string()).is_none());
    let e = v.get(&"e".to_string()).unwrap();
    assert!(matches!(e.first_item(), Some(JsonValue::Null)));
    assert!(v.first_item().is_none());
    assert!(JsonValue::Array(vec![]).first_item().is_none());
    // Non-objects have no members.
    assert!(JsonValue::Str("a".to_string()).get(&"a".to_string()).is_none());
}
