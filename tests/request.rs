use serverless_rs::{Context, ErrorKind, Json, Method, Request, Uri};

#[test]
fn test_request_builder() {
    let req = Request::new()
        .with_method(Method::GET)
        .with_uri(Uri::parse("/api/users").unwrap())
        .with_header("Content-Type", "application/json")
        .with_query("page", "1")
        .with_path_param("id", "123")
        .with_body(br#"{"name":"test"}"#.to_vec());

    assert_eq!(req.method(), Some(&Method::GET));
    assert_eq!(req.uri().unwrap().to_string(), "/api/users");
    assert_eq!(
        req.header("Content-Type"),
        Some(&"application/json".to_string())
    );
    assert_eq!(req.query_param("page"), Some(&"1".to_string()));
    assert_eq!(req.path_param("id"), Some(&"123".to_string()));
    assert_eq!(req.body_string().unwrap(), r#"{"name":"test"}"#);
}

#[test]
fn request_defaults_and_string_setters() {
    let req = Request::new();
    assert!(req.method().is_none());
    assert!(req.uri().is_none());
    assert!(req.path().is_none());
    assert!(req.body().is_empty());
    assert!(matches!(req.raw_event(), Json::Null));

    let req = req.with_method_str("POST").with_path("/items?x=1");
    assert_eq!(req.method(), Some(&Method::POST));
    assert_eq!(req.method_str(), Some("POST".to_string()));
    assert_eq!(req.path(), Some("/items".to_string()));

    let req = req.with_method_str("BAD METHOD").with_method_str("");
    assert_eq!(req.method(), Some(&Method::POST));
    let req = req.with_method_str("PURGE");
    assert_eq!(req.method_str(), Some("PURGE".to_string()));
    assert!(matches!(req.method(), Some(Method::Extension(_))));
}

#[test]
fn body_string_rejects_invalid_utf8() {
    let req = Request::new().with_body(vec![0xff, 0xfe]);
    let err = req.body_string().unwrap_err();
    assert_eq!(err.kind(), ErrorKind::Serialization);
}

#[test]
fn test_context_builder() {
    let ctx = Context::new()
        .with_request_id("req-123")
        .with_function_name("test-function")
        .with_function_version("1.0")
        .with_memory_limit(128)
        .with_env_var("DATABASE_URL", "postgres://localhost/test");

    assert_eq!(ctx.request_id(), "req-123");
    assert_eq!(ctx.function_name(), "test-function");
    assert_eq!(ctx.function_version(), "1.0");
    assert_eq!(ctx.memory_limit(), Some(128));
    assert_eq!(
        ctx.env_var("DATABASE_URL"),
        Some(&"postgres://localhost/test".to_string())
    );
}

#[test]
fn context_bounds_round_trip() {
    let d = std::time::Duration::from_secs(3);
    let t = std::time::SystemTime::UNIX_EPOCH + d;
    let ctx = Context::new().with_remaining_time(d).with_deadline(t);
    assert_eq!(ctx.remaining_time(), Some(d));
    assert_eq!(ctx.deadline(), Some(t));
    assert_eq!(ctx.memory_limit(), None);
    assert!(ctx.env_vars().is_empty());
}

fn s(t: &str) -> Json {
    Json::Str(t.to_string())
}

fn obj(members: Vec<(&str, Json)>) -> Json {
    Json::Object(members.into_iter().map(|(k, v)| (k.to_string(), v)).collect())
}

#[test]
fn test_platform_data() {
    let platform_data = obj(vec![(
        "aws",
        obj(vec![
            ("region", s("us-east-1")),
            ("account_id", s("123456789012")),
            (
                "function",
                obj(vec![("arn", s("arn:aws:lambda:us-east-1:123456789012:function:test"))]),
            ),
        ]),
    )]);

    let ctx = Context::new().with_platform_data(platform_data);

    let region = ctx.get_platform_data("aws.region").and_then(|j| j.as_str()).unwrap();
    assert_eq!(region, "us-east-1");

    let arn = ctx.get_platform_data("aws.function.arn").and_then(|j| j.as_str()).unwrap();
    assert_eq!(arn, "arn:aws:lambda:us-east-1:123456789012:function:test");

    let unknown = ctx.get_platform_data("aws.unknown").and_then(|j| j.as_str());
    assert!(unknown.is_none());
}
