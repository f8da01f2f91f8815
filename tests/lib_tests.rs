use serverless_rs::{Error, ErrorKind, Json, Value, VERSION};

#[test]
fn test_version() {
    assert!(!VERSION.is_empty());
}

#[test]
fn test_macro_compilation() {
    assert!(true);
}

#[test]
fn test_value_reexport() {
    let mut map = serde_json::Map::new();
    map.insert("name".to_string(), Value::String("Test".to_string()));
    map.insert("value".to_string(), Value::from(123));
    let value = Value::Object(map);

    assert_eq!(value["name"], "Test");
    assert_eq!(value["value"], 123);
}

#[test]
fn error_constructors_keep_kind_and_message() {
    let e = Error::http("Missing HTTP method");
    assert_eq!(e.kind(), ErrorKind::Http);
    assert_eq!(e.message(), "Missing HTTP method");
    assert_eq!(e.to_string(), "HTTP error: Missing HTTP method");
    assert_eq!(Error::serialization("x").to_string(), "Serialization error: x");
    assert_eq!(Error::platform("x").kind(), ErrorKind::Platform);
    assert_eq!(Error::function("x").to_string(), "Function error: x");
    assert_eq!(Error::requirements("x").kind(), ErrorKind::Requirements);
    assert_eq!(Error::unexpected("x").to_string(), "Unexpected error: x");
}

#[test]
fn json_text_is_compact_and_escaped() {
    let j = Json::Array(vec![
        Json::Null,
        Json::Bool(true),
        Json::Bool(false),
        Json::Number("42".to_string()),
        Json::Str("a\"b\\c\n".to_string()),
        Json::Object(vec![("k".to_string(), Json::Array(vec![]))]),
    ]);
    assert_eq!(j.to_text(), r#"[null,true,false,42,"a\"b\\c\n",{"k":[]}]"#);
    let c = Json::Str("\u{1}\u{1f}\t\u{8}\u{c}\r/é".to_string());
    assert_eq!(c.to_text(), "\"\\u0001\\u001f\\t\\b\\f\\r/é\"");
}

#[test]
fn dotted_paths_follow_object_keys() {
    let j = Json::Object(vec![(
        "a".to_string(),
        Json::Object(vec![("b".to_string(), Json::Str("x".to_string()))]),
    )]);
    assert_eq!(j.get_dotted("a.b").and_then(|v| v.as_str()), Some(&"x".to_string()));
    assert!(j.get_dotted("a.c").is_none());
    assert!(j.get_dotted("a.b.c").is_none());
    assert!(j.get_dotted("a").is_some());
}
