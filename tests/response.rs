use serverless_rs::{Json, Response};

#[test]
fn test_response_builder() {
    let resp = Response::new()
        .with_status(201)
        .with_header("Content-Type", "application/json")
        .with_body(br#"{"id":123}"#.to_vec());

    assert_eq!(resp.status(), 201);
    assert_eq!(
        resp.header("Content-Type"),
        Some(&"application/json".to_string())
    );
    assert_eq!(std::str::from_utf8(resp.body()).unwrap(), r#"{"id":123}"#);
}

#[test]
fn test_json_response() {
    let data = Json::Object(vec![
        ("id".to_string(), Json::Number("123".to_string())),
        ("name".to_string(), Json::Str("test".to_string())),
    ]);

    let resp = Response::json(&data).unwrap();
    assert_eq!(
        resp.header("Content-Type"),
        Some(&"application/json".to_string())
    );

    let body_str = std::str::from_utf8(resp.body()).unwrap();
    let parsed: serde_json::Value = serde_json::from_str(body_str).unwrap();
    let mut expected = serde_json::Map::new();
    expected.insert("id".to_string(), serde_json::Value::from(123));
    expected.insert("name".to_string(), serde_json::Value::from("test"));
    assert_eq!(parsed, serde_json::Value::Object(expected));
}

#[test]
fn test_convenience_responses() {
    let text = Response::text("Hello, world!");
    assert_eq!(text.status(), 200);
    assert_eq!(text.header("Content-Type"), Some(&"text/plain".to_string()));
    assert_eq!(std::str::from_utf8(text.body()).unwrap(), "Hello, world!");

    let html = Response::html("<h1>Hello</h1>");
    assert_eq!(html.status(), 200);
    assert_eq!(html.header("Content-Type"), Some(&"text/html".to_string()));
    assert_eq!(std::str::from_utf8(html.body()).unwrap(), "<h1>Hello</h1>");

    let redirect = Response::redirect("/dashboard");
    assert_eq!(redirect.status(), 302);
    assert_eq!(redirect.header("Location"), Some(&"/dashboard".to_string()));

    let not_found = Response::not_found();
    assert_eq!(not_found.status(), 404);

    let bad_request = Response::bad_request();
    assert_eq!(bad_request.status(), 400);

    let internal_error = Response::internal_error();
    assert_eq!(internal_error.status(), 500);
}

#[test]
fn convenience_constructors_set_status_headers_and_body() {
    let text = Response::text("hi");
    assert_eq!(text.status(), 200);
    assert_eq!(text.header("Content-Type"), Some(&"text/plain".to_string()));
    assert_eq!(text.body(), b"hi");
    assert!(!text.is_base64());

    let nf = Response::not_found();
    assert_eq!(nf.status(), 404);
    assert_eq!(nf.body(), b"Not Found");
    assert_eq!(Response::bad_request().body(), b"Bad Request");
    assert_eq!(Response::internal_error().body(), b"Internal Server Error");

    let r = Response::redirect("/d");
    assert_eq!(r.status(), 302);
    assert_eq!(r.header("Location"), Some(&"/d".to_string()));
    assert!(r.body().is_empty());
}

#[test]
fn response_builder_round_trip() {
    let r = Response::new();
    assert_eq!(r.status(), 200);
    assert!(r.body().is_empty());
    assert!(r.headers().is_empty());
    assert!(!r.is_base64());

    let r = r
        .with_status(599)
        .with_body(vec![0, 255, 7])
        .with_base64(true)
        .with_header("X-A", "1")
        .with_header("X-A", "2");
    assert_eq!(r.status(), 599);
    assert_eq!(r.body(), &[0u8, 255, 7][..]);
    assert!(r.is_base64());
    assert_eq!(r.header("X-A"), Some(&"2".to_string()));
    assert_eq!(r.headers().len(), 1);
    assert_eq!(r.header("x-a"), None);
    assert_eq!(Response::default().status(), 200);
}

#[test]
fn json_response_rejects_malformed_numbers() {
    let bad = Json::Array(vec![Json::Number("1.".to_string())]);
    let err = Response::json(&bad).unwrap_err();
    assert_eq!(err.kind(), serverless_rs::ErrorKind::Serialization);
    let ok = Json::Object(vec![("n".to_string(), Json::Number("-0.5e+3".to_string()))]);
    assert_eq!(Response::json(&ok).unwrap().body(), br#"{"n":-0.5e+3}"#);
    for t in ["0", "-1", "12.50", "1E9", "3e-2"] {
        assert!(serverless_rs::json::number_text_ok(t), "{}", t);
    }
    for t in ["", "-", "01", ".5", "1e", "+1", "0x10", "1.5.2"] {
        assert!(!serverless_rs::json::number_text_ok(t), "{}", t);
    }
}
