use trowel::json::JsonValue;
use trowel::strutil::{decimal_string, parse_u8_decimal, str_lt};

fn text(v: &str) -> JsonValue {
    JsonValue::Text(v.to_string())
}

fn obj(fields: Vec<(&str, JsonValue)>) -> JsonValue {
    JsonValue::Object(fields.into_iter().map(|(k, v)| (k.to_string(), v)).collect())
}

#[test]
fn test_render_scalars() {
    assert_eq!(JsonValue::Null.render(), "null");
    assert_eq!(JsonValue::Bool(true).render(), "true");
    assert_eq!(JsonValue::Bool(false).render(), "false");
    assert_eq!(JsonValue::Number("1.5".to_string()).render(), "1.5");
    assert_eq!(text("web-1").render(), "\"web-1\"");
}

#[test]
fn test_render_escapes() {
    assert_eq!(
        text("a\"b\\c\nd\te\rf").render(),
        "\"a\\\"b\\\\c\\nd\\te\\rf\""
    );
}

#[test]
fn test_render_array_and_object() {
    let arr = JsonValue::Array(vec![
        JsonValue::Number("1".to_string()),
        text("two"),
        JsonValue::Null,
    ]);
    assert_eq!(arr.render(), "[1,\"two\",null]");
    let o = obj(vec![
        ("a", JsonValue::Number("1".to_string())),
        ("b", JsonValue::Array(vec![])),
    ]);
    assert_eq!(o.render(), "{\"a\":1,\"b\":[]}");
    assert_eq!(obj(vec![]).render(), "{}");
}

#[test]
fn test_deep_eq() {
    let a = obj(vec![("k", JsonValue::Array(vec![text("x"), JsonValue::Bool(true)]))]);
    let b = obj(vec![("k", JsonValue::Array(vec![text("x"), JsonValue::Bool(true)]))]);
    let c = obj(vec![("k", JsonValue::Array(vec![text("y"), JsonValue::Bool(true)]))]);
    assert!(a.deep_eq(&b));
    assert!(!a.deep_eq(&c));
    assert!(!a.deep_eq(&JsonValue::Null));
    // Field order matters for value identity, as it does for rendering.
    let d = obj(vec![("a", JsonValue::Null), ("b", JsonValue::Null)]);
    let e = obj(vec![("b", JsonValue::Null), ("a", JsonValue::Null)]);
    assert!(!d.deep_eq(&e));
}

#[test]
fn test_clone_preserves_value() {
    let a = obj(vec![("k", JsonValue::Array(vec![text("x"), JsonValue::Number("7".to_string())]))]);
    let b = a.clone();
    assert!(a.deep_eq(&b));
    assert_eq!(a.render(), b.render());
}

#[test]
fn test_str_lt_lexicographic() {
    assert!(str_lt("apple", "banana"));
    assert!(!str_lt("banana", "apple"));
    assert!(str_lt("app", "apple"));
    assert!(!str_lt("apple", "apple"));
    assert!(str_lt("", "a"));
    assert!(str_lt("Z", "a")); // by code point
}

#[test]
fn test_decimal_string() {
    assert_eq!(decimal_string(0), "0");
    assert_eq!(decimal_string(7), "7");
    assert_eq!(decimal_string(255), "255");
    assert_eq!(decimal_string(1000), "1000");
}

#[test]
fn test_parse_u8_decimal() {
    assert_eq!(parse_u8_decimal("0"), Some(0));
    assert_eq!(parse_u8_decimal("42"), Some(42));
    assert_eq!(parse_u8_decimal("255"), Some(255));
    assert_eq!(parse_u8_decimal("256"), None);
    assert_eq!(parse_u8_decimal("007"), None);
    assert_eq!(parse_u8_decimal(""), None);
    assert_eq!(parse_u8_decimal("1.5"), None);
    assert_eq!(parse_u8_decimal("-1"), None);
}
