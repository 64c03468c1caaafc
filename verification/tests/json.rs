use erenflow::json::number::{JsonNumber, NumberKind};
use erenflow::json::value::{JsonObject, JsonValue};
use erenflow::text::{compare_str, str_contains, u64_to_decimal, KeyOrder};

#[test]
fn object_insert_replaces_and_orders_keys() {
    let mut o = JsonObject::new();
    assert_eq!(o.insert("b".to_string(), JsonValue::Bool(true)), None);
    assert_eq!(o.insert("a".to_string(), JsonValue::Null), None);
    assert_eq!(o.insert("b".to_string(), JsonValue::Bool(false)), Some(JsonValue::Bool(true)));
    assert_eq!(o.keys(), vec!["a".to_string(), "b".to_string()]);
    assert_eq!(o.get("b"), Some(&JsonValue::Bool(false)));
    assert_eq!(o.remove("a"), Some(JsonValue::Null));
    assert!(!o.contains_key("a"));
    assert_eq!(o.len(), 1);
}

#[test]
fn number_comparisons_are_exact() {
    let half = JsonNumber::new(NumberKind::Float, 1, -1, "0.5".to_string());
    let one = JsonNumber::from_i64(1);
    let two_halves = JsonNumber::new(NumberKind::Float, 2, -1, "1".to_string());
    assert!(half.less_than(&one));
    assert!(!one.less_than(&half));
    assert!(one.same_value(&two_halves));
    // an integer is never equal to a float as JSON
    assert!(!one.equals(&two_halves));
    let one_float = JsonNumber::new(NumberKind::Float, 4, -2, "1".to_string());
    assert!(two_halves.equals(&one_float));
    assert!(JsonNumber::from_i64(-3).less_than(&JsonNumber::from_u64(0)));
    let tiny = JsonNumber::new(NumberKind::Float, 1, -1074, "5e-324".to_string());
    assert!(!tiny.is_whole());
    assert!(JsonNumber::from_u64(0).less_than(&tiny));
    let huge = JsonNumber::new(NumberKind::Float, 1, 1000, "1e301".to_string());
    assert!(huge.is_whole());
    assert!(one.less_than(&huge));
    assert_eq!(JsonNumber::from_i64(-42).text(), "-42");
}

#[test]
fn number_as_integers() {
    assert_eq!(JsonValue::Number(JsonNumber::from_u64(5)).as_u64(), Some(5));
    assert_eq!(JsonValue::Number(JsonNumber::from_i64(-5)).as_u64(), None);
    assert_eq!(JsonValue::Number(JsonNumber::from_i64(-5)).as_i64(), Some(-5));
    let big = JsonNumber::new(NumberKind::PosInt(u64::MAX), 1, 64, "18446744073709552000".to_string());
    assert_eq!(big.as_i64(), None);
    assert_eq!(big.as_u64(), Some(u64::MAX));
}

#[test]
fn value_equality_and_copy() {
    let mut o = JsonObject::new();
    o.insert("list".to_string(), JsonValue::Array(vec![JsonValue::Null, JsonValue::String("x".to_string())]));
    let v = JsonValue::Object(o);
    let c = v.copy();
    assert!(v.equals(&c));
    assert_eq!(v, v.clone());
    assert_ne!(v, JsonValue::Null);
}

#[test]
fn text_helpers() {
    assert_eq!(u64_to_decimal(0), "0");
    assert_eq!(u64_to_decimal(1024), "1024");
    assert_eq!(u64_to_decimal(u64::MAX), "18446744073709551615");
    assert!(str_contains("abcdef", "cde"));
    assert!(str_contains("abc", ""));
    assert!(!str_contains("abc", "abcd"));
    assert!(matches!(compare_str("a", "b"), KeyOrder::Less));
    assert!(matches!(compare_str("ab", "a"), KeyOrder::Greater));
    assert!(matches!(compare_str("é", "é"), KeyOrder::Equal));
}

#[test]
fn value_equality_is_reflexive_and_symmetric() {
    let mut o = JsonObject::new();
    o.insert("n".to_string(), JsonValue::Number(JsonNumber::new(NumberKind::Float, 3, -1, "1.5".to_string())));
    o.insert("s".to_string(), JsonValue::String("x".to_string()));
    let a = JsonValue::Array(vec![JsonValue::Object(o), JsonValue::Bool(true)]);
    let b = a.copy();
    assert!(a.equals(&a));
    assert!(a.equals(&b) && b.equals(&a));
    let c = JsonValue::Array(vec![JsonValue::Bool(true)]);
    assert_eq!(a.equals(&c), c.equals(&a));
    assert!(!a.equals(&c));
}

#[test]
fn object_keys_and_entries_ascend() {
    let mut o = JsonObject::new();
    for k in ["delta", "alpha", "charlie", "bravo", "alpha"] {
        o.insert(k.to_string(), JsonValue::Null);
    }
    assert_eq!(o.keys(), vec!["alpha", "bravo", "charlie", "delta"]);
    let keys: Vec<&str> = o.entries().iter().map(|(k, _)| k.as_str()).collect();
    assert_eq!(keys, vec!["alpha", "bravo", "charlie", "delta"]);
}
