use mcmanager::json::{same_text, JsonValue};

fn to_json(v: &serde_json::Value) -> JsonValue {
    match v {
        serde_json::Value::Null => JsonValue::Null,
        serde_json::Value::Bool(b) => JsonValue::Bool(*b),
        serde_json::Value::Number(n) => JsonValue::Number(n.to_string()),
        serde_json::Value::String(s) => JsonValue::Str(s.clone()),
        serde_json::Value::Array(a) => JsonValue::Array(a.iter().map(to_json).collect()),
        serde_json::Value::Object(m) => {
            JsonValue::Object(m.iter().map(|(k, v)| (k.clone(), to_json(v))).collect())
        }
    }
}

fn parse(text: &str) -> JsonValue {
    to_json(&serde_json::from_str::<serde_json::Value>(text).unwrap())
}

#[test]
fn get_str_reads_string_members() {
    let v = parse(r#"{"type":"stdin","data":"list\n","n":3}"#);
    assert_eq!(v.get_str("data").as_deref(), Some("list\n"));
    assert_eq!(v.get_str("type").as_deref(), Some("stdin"));
    assert_eq!(v.get_str("n"), None);
    assert_eq!(v.get_str("missing"), None);
    assert!(v.get("n").is_some());
}

#[test]
fn get_on_non_objects_is_none() {
    assert!(parse("[1,2]").get("data").is_none());
    assert!(parse("\"data\"").get("data").is_none());
    assert!(parse("null").get_str("data").is_none());
    assert_eq!(parse("\"x\"").as_str().map(|s| s.as_str()), Some("x"));
}

#[test]
fn same_text_compares_characters() {
    assert!(same_text("abc", "abc"));
    assert!(!same_text("abc", "abd"));
    assert!(!same_text("abc", "ab"));
}
