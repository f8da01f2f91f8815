use serverless_rs::adapter::base64_text;
use serverless_rs::{
    Adapter, Context, Error, FunctionInfo, Handler, InfoFlags, Json, Method, Outcome,
    OutputFormat, Platform, Request, Response, Step,
};
use std::cell::Cell;

fn s(t: &str) -> Json {
    Json::Str(t.to_string())
}

fn obj(members: Vec<(&str, Json)>) -> Json {
    Json::Object(members.into_iter().map(|(k, v)| (k.to_string(), v)).collect())
}

fn member<'a>(j: &'a Json, k: &str) -> Option<&'a Json> {
    j.member(k)
}

fn num(j: &Json) -> String {
    match j {
        Json::Number(t) => t.clone(),
        _ => panic!("not a number"),
    }
}

fn run_flags() -> InfoFlags {
    InfoFlags { info_requested: false, format: OutputFormat::Text }
}

fn adapters(flags: InfoFlags) -> Vec<Adapter> {
    vec![
        Adapter::new(Platform::aws_lambda(), FunctionInfo::new("fn_a"), flags),
        Adapter::new(Platform::cloudflare_workers(), FunctionInfo::new("fn_a"), flags),
    ]
}

#[test]
fn api_gateway_event_becomes_a_request() {
    let adapter = &adapters(run_flags())[0];
    let event = obj(vec![
        ("httpMethod", s("POST")),
        ("path", s("/items")),
        ("headers", obj(vec![("Content-Type", s("text/plain")), ("X-N", Json::Number("1".into()))])),
        ("queryStringParameters", obj(vec![("q", s("1")), ("q", s("2"))])),
        ("body", s("hello")),
    ]);
    let nc = obj(vec![("awsRequestId", s("abc-1"))]);
    match adapter.begin(event, nc) {
        Step::Invoke { request, context } => {
            assert_eq!(request.method(), Some(&Method::POST));
            assert_eq!(request.path(), Some("/items".to_string()));
            assert_eq!(request.header("Content-Type"), Some(&"text/plain".to_string()));
            assert_eq!(request.headers().len(), 1);
            assert_eq!(request.query_param("q"), Some(&"2".to_string()));
            assert_eq!(request.body(), b"hello");
            assert!(member(request.raw_event(), "httpMethod").is_some());
            assert_eq!(context.request_id(), "abc-1");
            assert_eq!(context.function_name(), "fn_a");
        }
        Step::Introspect { .. } => panic!("introspection was not requested"),
    }
}

#[test]
fn non_http_event_is_kept_opaquely() {
    let adapter = &adapters(run_flags())[1];
    match adapter.begin(obj(vec![("job", s("nightly"))]), Json::Null) {
        Step::Invoke { request, context } => {
            assert!(request.method().is_none());
            assert!(request.uri().is_none());
            assert!(request.body().is_empty());
            assert!(member(request.raw_event(), "job").is_some());
            assert_eq!(context.request_id(), "cf-request-id");
        }
        Step::Introspect { .. } => panic!("introspection was not requested"),
    }
}

#[test]
fn success_replies_use_each_platform_vocabulary() {
    let a = adapters(run_flags());
    let resp = || Response::text("hi").with_status(201);
    let aws = a[0].finish(Outcome::Success(resp()));
    assert_eq!(num(member(&aws, "statusCode").unwrap()), "201");
    assert_eq!(member(&aws, "body").and_then(|b| b.as_str()), Some(&"hi".to_string()));
    assert!(matches!(member(&aws, "isBase64Encoded"), Some(Json::Bool(false))));
    let h = member(&aws, "headers").unwrap();
    assert_eq!(member(h, "Content-Type").and_then(|v| v.as_str()), Some(&"text/plain".to_string()));

    let cf = a[1].finish(Outcome::Success(resp().with_base64(true)));
    assert_eq!(num(member(&cf, "status").unwrap()), "201");
    assert_eq!(member(&cf, "bodyEncoding").and_then(|b| b.as_str()), Some(&"base64".to_string()));
    assert!(member(&cf, "statusCode").is_none());
    assert_eq!(
        cf.to_text(),
        r#"{"status":201,"headers":{"Content-Type":"text/plain"},"body":"aGk=","bodyEncoding":"base64"}"#
    );
}

#[test]
fn handler_errors_become_error_replies() {
    for a in adapters(run_flags()) {
        let r = a.finish(Outcome::Failure(Error::function("boom")));
        let status = if a.platform.name == "aws" { "statusCode" } else { "status" };
        assert_eq!(num(member(&r, status).unwrap()), "500");
        assert_eq!(
            member(&r, "body").and_then(|b| b.as_str()),
            Some(&"Error: Function error: boom".to_string())
        );
    }
}

#[test]
fn contained_fault_yields_500_on_every_platform() {
    for a in adapters(run_flags()) {
        let r = a.finish(Outcome::Fault);
        let status = if a.platform.name == "aws" { "statusCode" } else { "status" };
        assert_eq!(num(member(&r, status).unwrap()), "500");
        assert_eq!(
            member(&r, "body").and_then(|b| b.as_str()),
            Some(&"Internal Error: Handler panicked".to_string())
        );
    }
}

struct Counter<'a> {
    calls: &'a Cell<u32>,
}

impl<'a> Handler for Counter<'a> {
    fn handle(&self, _req: Request, _ctx: &Context) -> Result<Response, Error> {
        self.calls.set(self.calls.get() + 1);
        Ok(Response::new())
    }
}

fn invoke<H: Handler>(a: &Adapter, h: &H, event: Json) -> (Json, Option<String>) {
    match a.begin(event, Json::Null) {
        Step::Introspect { rendered, reply } => (reply, Some(rendered)),
        Step::Invoke { request, context } => {
            let outcome = match h.handle(request, &context) {
                Ok(r) => Outcome::Success(r),
                Err(e) => Outcome::Failure(e),
            };
            (a.finish(outcome), None)
        }
    }
}

#[test]
fn introspection_never_runs_the_handler() {
    let calls = Cell::new(0);
    let h = Counter { calls: &calls };
    for format in [OutputFormat::Text, OutputFormat::Json] {
        let flags = InfoFlags { info_requested: true, format };
        for a in adapters(flags) {
            let (reply, rendered) = invoke(&a, &h, obj(vec![("httpMethod", s("GET"))]));
            assert_eq!(
                member(&reply, "body").and_then(|b| b.as_str()),
                Some(&"Function information displayed".to_string())
            );
            let rendered = rendered.unwrap();
            match format {
                OutputFormat::Text => assert_eq!(rendered, a.info.format_for_display()),
                OutputFormat::Json => assert_eq!(rendered, a.info.to_json()),
            }
        }
    }
    assert_eq!(calls.get(), 0);
    for a in adapters(run_flags()) {
        invoke(&a, &h, Json::Null);
    }
    assert_eq!(calls.get(), 2);
}

#[test]
fn direct_invocation_skips_http_semantics() {
    let info_flags = InfoFlags { info_requested: true, format: OutputFormat::Text };
    let a = Adapter::new(Platform::aws_lambda(), FunctionInfo::new("fn_a"), info_flags);
    match a.begin_direct(obj(vec![("httpMethod", s("GET"))]), Json::Null) {
        Step::Introspect { reply, .. } => {
            assert_eq!(reply.to_text(), r#"{"message":"Function information displayed"}"#);
        }
        Step::Invoke { .. } => panic!("introspection was requested"),
    }

    let a = &adapters(run_flags())[0];
    match a.begin_direct(obj(vec![("httpMethod", s("GET")), ("path", s("/x"))]), Json::Null) {
        Step::Invoke { request, context } => {
            assert!(request.method().is_none());
            assert!(request.uri().is_none());
            assert!(member(request.raw_event(), "httpMethod").is_some());
            assert_eq!(context.request_id(), "aws-request-id");
        }
        Step::Introspect { .. } => panic!("introspection was not requested"),
    }
    assert_eq!(a.finish_direct(Outcome::Success(Response::text("done"))).to_text(), r#""done""#);
    assert_eq!(
        a.finish_direct(Outcome::Failure(Error::function("boom"))).to_text(),
        r#"{"error":"Function error: boom"}"#
    );
    assert_eq!(
        a.finish_direct(Outcome::Fault).to_text(),
        r#"{"error":"Internal Error: Handler panicked"}"#
    );
}

#[test]
fn base64_bodies_are_encoded() {
    assert_eq!(base64_text(b""), "");
    assert_eq!(base64_text(b"f"), "Zg==");
    assert_eq!(base64_text(b"fo"), "Zm8=");
    assert_eq!(base64_text(b"foo"), "Zm9v");
    assert_eq!(base64_text(b"foobar"), "Zm9vYmFy");
    assert_eq!(base64_text(&[0xff, 0xfe]), "//4=");
    let a = &adapters(run_flags())[0];
    let r = a.finish(Outcome::Success(Response::new().with_body(vec![0, 159, 255]).with_base64(true)));
    assert_eq!(member(&r, "body").and_then(|b| b.as_str()), Some(&"AJ//".to_string()));
    assert!(matches!(member(&r, "isBase64Encoded"), Some(Json::Bool(true))));
}
