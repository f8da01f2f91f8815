use serverless_rs::{
    Context, Error, ErrorKind, Handler, Method, Request, Response, Router, RouterBuilder, Uri,
};
use std::cell::Cell;

enum Greeter {
    Hello,
    Echo,
}

impl Handler for Greeter {
    fn handle(&self, req: Request, _ctx: &Context) -> Result<Response, Error> {
        match self {
            Greeter::Hello => Ok(Response::text("Hello, world!")),
            Greeter::Echo => {
                let name = req
                    .query_param("name")
                    .cloned()
                    .unwrap_or_else(|| "stranger".to_string());
                Ok(Response::text(&format!("Hello, {}!", name)))
            }
        }
    }
}

fn get(path: &str) -> Request {
    Request::new()
        .with_method(Method::GET)
        .with_uri(Uri::parse(path).unwrap())
}

#[test]
fn test_router_builder() {
    let router = RouterBuilder::new()
        .get("/hello", Greeter::Hello)
        .get("/echo", Greeter::Echo)
        .build();

    let ctx = Context::new();
    let response = router.route(get("/hello"), &ctx).unwrap();
    assert_eq!(
        std::str::from_utf8(response.body()).unwrap(),
        "Hello, world!"
    );

    let req = get("/echo").with_query("name", "Test");
    let response = router.route(req, &ctx).unwrap();
    assert_eq!(
        std::str::from_utf8(response.body()).unwrap(),
        "Hello, Test!"
    );

    let response = router.route(get("/unknown"), &ctx).unwrap();
    assert_eq!(response.status(), 404);
}

struct Counting<'a> {
    id: u32,
    calls: &'a Cell<u32>,
    last: &'a Cell<u32>,
}

impl<'a> Handler for Counting<'a> {
    fn handle(&self, _req: Request, _ctx: &Context) -> Result<Response, Error> {
        self.calls.set(self.calls.get() + 1);
        self.last.set(self.id);
        Ok(Response::text("ok"))
    }
}

#[test]
fn router_dispatch_is_exact_and_deterministic() {
    let calls = Cell::new(0);
    let last = Cell::new(0);
    let router = RouterBuilder::new()
        .get("/a", Counting { id: 1, calls: &calls, last: &last })
        .get("/b", Counting { id: 2, calls: &calls, last: &last })
        .build();
    let ctx = Context::new();

    for _ in 0..3 {
        router.route(get("/a"), &ctx).unwrap();
        assert_eq!(last.get(), 1);
    }
    assert_eq!(calls.get(), 3);
    assert_eq!(router.resolve(&get("/a")).unwrap(), Some(0));

    let r = router.route(get("/c"), &ctx).unwrap();
    assert_eq!(r.status(), 404);
    assert_eq!(calls.get(), 3);

    let r = router.route(get("/a/"), &ctx).unwrap();
    assert_eq!(r.status(), 404);

    let no_method = Request::new().with_uri(Uri::parse("/a").unwrap());
    let err = router.route(no_method, &ctx).unwrap_err();
    assert_eq!(err.kind(), ErrorKind::Http);
    assert_eq!(err.message(), "Missing HTTP method");

    let no_uri = Request::new().with_method(Method::GET);
    let err = router.route(no_uri, &ctx).unwrap_err();
    assert_eq!(err.message(), "Missing request URI");
    assert_eq!(calls.get(), 3);
}

#[test]
fn later_registration_wins() {
    let calls = Cell::new(0);
    let last = Cell::new(0);
    let router = RouterBuilder::new()
        .get("/a", Counting { id: 1, calls: &calls, last: &last })
        .post("/a", Counting { id: 2, calls: &calls, last: &last })
        .get("/a", Counting { id: 3, calls: &calls, last: &last })
        .build();
    router.route(get("/a"), &Context::new()).unwrap();
    assert_eq!(last.get(), 3);
    let post = Request::new().with_method(Method::POST).with_path("/a");
    router.route(post, &Context::new()).unwrap();
    assert_eq!(last.get(), 2);
}

struct HandlerWrapper<F: Fn(Request, &Context) -> Result<Response, Error>> {
    handler: F,
}

impl<F: Fn(Request, &Context) -> Result<Response, Error>> Handler for HandlerWrapper<F> {
    fn handle(&self, req: Request, ctx: &Context) -> Result<Response, Error> {
        (self.handler)(req, ctx)
    }
}

fn my_handler(req: Request, _ctx: &Context) -> Result<Response, Error> {
    if req.path_param("id").is_some() {
        Ok(Response::text("Found item"))
    } else {
        Err(Error::http("Missing id parameter"))
    }
}

#[test]
fn test_function_handler() {
    let handler = HandlerWrapper { handler: my_handler };

    let req = Request::new().with_path_param("id", "123");
    let ctx = Context::new();
    let response = handler.handle(req, &ctx).unwrap();
    assert_eq!(std::str::from_utf8(response.body()).unwrap(), "Found item");

    let req = Request::new();
    let result = handler.handle(req, &ctx);
    assert!(result.is_err());
}

struct TestHandler;

impl Handler for TestHandler {
    fn handle(&self, req: Request, _ctx: &Context) -> Result<Response, Error> {
        if let Some(name) = req.query_param("name") {
            Ok(Response::text(&format!("Hello, {}!", name)))
        } else {
            Ok(Response::text("Hello, world!"))
        }
    }
}

#[test]
fn test_struct_handler() {
    let handler = TestHandler;

    let req = Request::new().with_query("name", "Test");
    let ctx = Context::new();
    let response = handler.handle(req, &ctx).unwrap();
    assert_eq!(
        std::str::from_utf8(response.body()).unwrap(),
        "Hello, Test!"
    );

    let req = Request::new();
    let response = handler.handle(req, &ctx).unwrap();
    assert_eq!(
        std::str::from_utf8(response.body()).unwrap(),
        "Hello, world!"
    );
}
