use liqi::json::value_member;
use serde_json::Value;

fn object(members: Vec<(&str, Value)>) -> Value {
    let mut map = serde_json::Map::new();
    for (key, value) in members {
        map.insert(key.to_string(), value);
    }
    Value::Object(map)
}

#[test]
fn value_member_of_an_object() {
    let inner = object(vec![("b", Value::from(1u32))]);
    let outer = object(vec![("a", inner.clone())]);
    assert_eq!(value_member(Some(&outer), "a"), Some(&inner));
    assert_eq!(value_member(value_member(Some(&outer), "a"), "b"), Some(&Value::from(1u32)));
}

#[test]
fn value_member_that_is_missing() {
    let outer = object(vec![("a", Value::Null)]);
    assert_eq!(value_member(Some(&outer), "b"), None);
    assert_eq!(value_member(Some(&outer), ""), None);
    assert_eq!(value_member(Some(&outer), "A"), None);
}

#[test]
fn value_member_of_what_is_no_object() {
    for value in [
        Value::Null,
        Value::Bool(true),
        Value::from(3u32),
        Value::String("a".to_string()),
        Value::Array(vec![Value::String("a".to_string())]),
    ] {
        assert_eq!(value_member(Some(&value), "a"), None);
    }
}

#[test]
fn value_member_of_nothing() {
    assert_eq!(value_member(None, "a"), None);
}

#[test]
fn value_member_finds_null_members() {
    let outer = object(vec![("a", Value::Null)]);
    assert_eq!(value_member(Some(&outer), "a"), Some(&Value::Null));
}
