use misskey::json::{key_less, JsonObject, JsonValue};
use std::collections::BTreeMap;

fn text(v: Option<&JsonValue>) -> Option<String> {
    match v {
        Some(JsonValue::String(s)) => Some(s.clone()),
        _ => None,
    }
}

#[test]
fn insert_then_get_reads_back() {
    let mut o = JsonObject::new();
    assert_eq!(o.len(), 0);
    assert!(o.insert("a".to_string(), JsonValue::String("1".to_string())).is_none());
    assert!(o.insert("b".to_string(), JsonValue::Null).is_none());
    assert_eq!(text(o.get("a")), Some("1".to_string()));
    assert!(matches!(o.get("b"), Some(JsonValue::Null)));
    assert!(o.get("c").is_none());
    assert_eq!(o.len(), 2);
}

#[test]
fn insert_of_a_present_key_replaces_in_place() {
    let mut o = JsonObject::new();
    o.insert("a".to_string(), JsonValue::Bool(true));
    o.insert("b".to_string(), JsonValue::Bool(false));
    let previous = o.insert("a".to_string(), JsonValue::Number("3".to_string()));
    assert!(matches!(previous, Some(JsonValue::Bool(true))));
    assert_eq!(o.len(), 2);
    let (k, v) = o.entry(0);
    assert_eq!(k, "a");
    assert!(matches!(v, JsonValue::Number(n) if n == "3"));
    let (k, _) = o.entry(1);
    assert_eq!(k, "b");
}

#[test]
fn remove_takes_out_one_entry() {
    let mut o = JsonObject::new();
    o.insert("x".to_string(), JsonValue::Null);
    o.insert("y".to_string(), JsonValue::Bool(true));
    o.insert("z".to_string(), JsonValue::Array(vec![JsonValue::Null]));
    assert!(matches!(o.remove("y"), Some(JsonValue::Bool(true))));
    assert!(o.remove("y").is_none());
    let entries = o.into_entries();
    let keys: Vec<&str> = entries.iter().map(|(k, _)| k.as_str()).collect();
    assert_eq!(keys, vec!["x", "z"]);
}

#[test]
fn remove_undoes_insert_of_a_new_key() {
    let mut o = JsonObject::new();
    o.insert("p".to_string(), JsonValue::Null);
    o.insert("q".to_string(), JsonValue::String("v".to_string()));
    o.insert("i".to_string(), JsonValue::String("token".to_string()));
    o.remove("i");
    let keys: Vec<String> = o.into_entries().into_iter().map(|(k, _)| k).collect();
    assert_eq!(keys, vec!["p".to_string(), "q".to_string()]);
}

#[test]
fn value_kinds() {
    let o = JsonValue::Object(JsonObject::new());
    assert!(o.is_object());
    assert!(o.as_object().is_some());
    assert!(!JsonValue::Null.is_object());
    assert!(JsonValue::Bool(true).as_object().is_none());
    assert_eq!(JsonValue::String("s".to_string()).as_str(), Some("s"));
    assert_eq!(JsonValue::Number("1".to_string()).as_str(), None);
}

#[test]
fn contains_key_sees_non_ascii_keys() {
    let mut o = JsonObject::new();
    o.insert("ключ".to_string(), JsonValue::Null);
    assert!(o.contains_key("ключ"));
    assert!(!o.contains_key("ключи"));
    assert!(!o.contains_key(""));
}

#[test]
fn keys_are_kept_in_the_order_of_string() {
    let keys = ["b", "a", "ab", "", "é", "z", "B", "ключ", "a\u{0}"];
    let mut o = JsonObject::new();
    let mut sorted = BTreeMap::new();
    for k in keys {
        o.insert(k.to_string(), JsonValue::Null);
        sorted.insert(k.to_string(), ());
    }
    let ours: Vec<String> = o.into_entries().into_iter().map(|(k, _)| k).collect();
    let theirs: Vec<String> = sorted.into_keys().collect();
    assert_eq!(ours, theirs);
}

#[test]
fn key_less_is_the_order_of_string() {
    let keys = ["", "a", "ab", "b", "B", "é", "z", "ключ", "a\u{0}", "aa"];
    for a in keys {
        for b in keys {
            assert_eq!(key_less(a, b), a < b, "{:?} < {:?}", a, b);
        }
    }
}
