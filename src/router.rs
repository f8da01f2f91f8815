//! Handlers, and a router that dispatches on exact method and path.

use crate::context::Context;
use crate::error::{Error, ErrorKind};
use crate::request::{Method, Request};
use crate::response::Response;
use crate::strmap::text_eq;
use vstd::prelude::*;
use vstd::utf8::encode_utf8;

verus! {

/// A serverless function: one invocation maps a request and its context to a
/// response or an error.
pub trait Handler {
    fn handle(&self, req: Request, ctx: &Context) -> Result<Response, Error>;
}

/// Dispatches an HTTP request to a handler.
pub trait Router {
    fn route(&self, req: Request, ctx: &Context) -> Result<Response, Error>;
}

/// The position of the last registration in `routes` for method `m` and path `p`.
pub open spec fn last_match<H>(routes: Seq<(Method, String, H)>, m: Seq<char>, p: Seq<char>) -> Option<int>
    decreases routes.len(),
{
    if routes.len() == 0 {
        None
    } else if routes.last().0.name() == m && routes.last().1@ == p {
        Some(routes.len() - 1)
    } else {
        last_match(routes.drop_last(), m, p)
    }
}

/// The registration selected for a method and path has that method and
/// path, and no later registration does; where none is selected, no
/// registration has them.
pub proof fn lemma_last_match<H>(routes: Seq<(Method, String, H)>, m: Seq<char>, p: Seq<char>)
    ensures
        match last_match(routes, m, p) {
            Some(i) => 0 <= i < routes.len() && routes[i].0.name() == m && routes[i].1@ == p
                && forall|j: int|
                i < j < routes.len() ==> !(routes[j].0.name() == m && routes[j].1@ == p),
            None => forall|j: int|
                0 <= j < routes.len() ==> !(routes[j].0.name() == m && routes[j].1@ == p),
        },
    decreases routes.len(),
{
    if routes.len() > 0 {
        lemma_last_match(routes.drop_last(), m, p);
        assert(forall|j: int| 0 <= j < routes.len() - 1 ==> routes.drop_last()[j] == routes[j]);
    }
}

/// Collects (method, path) registrations; a later registration of the same
/// method and path takes precedence.
pub struct RouterBuilder<H> {
    routes: Vec<(Method, String, H)>,
}

impl<H> View for RouterBuilder<H> {
    type V = Seq<(Method, String, H)>;

    closed spec fn view(&self) -> Seq<(Method, String, H)> {
        self.routes@
    }
}

impl<H> RouterBuilder<H> {
    /// No registrations.
    pub fn new() -> (r: RouterBuilder<H>)
        ensures
            r@.len() == 0,
    {
        RouterBuilder { routes: Vec::new() }
    }

    /// Registers `handler` for `method` and `path`.
    pub fn route(self, method: Method, path: &str, handler: H) -> (r: RouterBuilder<H>)
        ensures
            r@.len() == self@.len() + 1,
            r@.drop_last() == self@,
            r@.last().0 == method,
            r@.last().1@ == path@,
            r@.last().2 == handler,
    {
        let mut r = self;
        r.routes.push((method, path.to_owned(), handler));
        assert(r@.drop_last() =~= self@);
        r
    }

    /// Registers `handler` for GET `path`.
    pub fn get(self, path: &str, handler: H) -> (r: RouterBuilder<H>)
        ensures
            r@.len() == self@.len() + 1,
            r@.drop_last() == self@,
            r@.last().0 == Method::GET,
            r@.last().1@ == path@,
            r@.last().2 == handler,
    {
        self.route(Method::GET, path, handler)
    }

    /// Registers `handler` for POST `path`.
    pub fn post(self, path: &str, handler: H) -> (r: RouterBuilder<H>)
        ensures
            r@.len() == self@.len() + 1,
            r@.drop_last() == self@,
            r@.last().0 == Method::POST,
            r@.last().1@ == path@,
            r@.last().2 == handler,
    {
        self.route(Method::POST, path, handler)
    }

    /// Registers `handler` for PUT `path`.
    pub fn put(self, path: &str, handler: H) -> (r: RouterBuilder<H>)
        ensures
            r@.len() == self@.len() + 1,
            r@.drop_last() == self@,
            r@.last().0 == Method::PUT,
            r@.last().1@ == path@,
            r@.last().2 == handler,
    {
        self.route(Method::PUT, path, handler)
    }

    /// Registers `handler` for DELETE `path`.
    pub fn delete(self, path: &str, handler: H) -> (r: RouterBuilder<H>)
        ensures
            r@.len() == self@.len() + 1,
            r@.drop_last() == self@,
            r@.last().0 == Method::DELETE,
            r@.last().1@ == path@,
            r@.last().2 == handler,
    {
        self.route(Method::DELETE, path, handler)
    }

    /// The router over the registrations made.
    pub fn build(self) -> (r: BuildRouter<H>)
        ensures
            r@ == self@,
    {
        BuildRouter { routes: self.routes }
    }
}

/// A router over a fixed list of registrations.
pub struct BuildRouter<H> {
    routes: Vec<(Method, String, H)>,
}

impl<H> View for BuildRouter<H> {
    type V = Seq<(Method, String, H)>;

    closed spec fn view(&self) -> Seq<(Method, String, H)> {
        self.routes@
    }
}

/// What dispatching `req` over `routes` selects: an HTTP error where the
/// request has no method or no URI, else the last registration for its method
/// and path, if any.
pub open spec fn selects<H>(routes: Seq<(Method, String, H)>, req: crate::request::RequestView, r: Result<Option<usize>, Error>) -> bool {
    match req.method {
        None => r matches Err(e) && e.spec_kind() == ErrorKind::Http && e.spec_message()
            == "Missing HTTP method"@,
        Some(m) => match req.uri {
            None => r matches Err(e) && e.spec_kind() == ErrorKind::Http && e.spec_message()
                == "Missing request URI"@,
            Some(u) => match last_match(routes, m.name(), u.1) {
                Some(i) => r == Ok::<Option<usize>, Error>(Some(i as usize)),
                None => r == Ok::<Option<usize>, Error>(None),
            },
        },
    }
}

impl<H> BuildRouter<H> {
    /// The registration a request goes to: an HTTP error where the request has
    /// no method or no URI; else the last registration whose method and path
    /// equal the request's exactly, or `None`.
    pub fn resolve(&self, req: &Request) -> (r: Result<Option<usize>, Error>)
        ensures
            selects(self@, req@, r),
            r matches Ok(Some(i)) ==> i < self@.len(),
    {
        let method = match req.method() {
            Some(m) => m,
            None => {
                return Err(Error::http("Missing HTTP method"));
            },
        };
        let path = match req.uri() {
            Some(u) => u.path(),
            None => {
                return Err(Error::http("Missing request URI"));
            },
        };
        let mut i: usize = self.routes.len();
        assert(self.routes@.subrange(0, i as int) =~= self.routes@);
        while i > 0
            invariant
                i <= self.routes@.len(),
                req@.method == Some(*method),
                req@.uri matches Some(u) && u.1 == path@,
                last_match(self.routes@, method.name(), path@) == last_match(
                    self.routes@.subrange(0, i as int),
                    method.name(),
                    path@,
                ),
            decreases i,
        {
            let e = &self.routes[i - 1];
            let ghost pre = self.routes@.subrange(0, i as int);
            assert(pre.drop_last() =~= self.routes@.subrange(0, i - 1));
            if text_eq(e.0.as_str(), method.as_str()) && text_eq(e.1.as_str(), path) {
                return Ok(Some(i - 1));
            }
            i = i - 1;
        }
        assert(self.routes@.subrange(0, 0) =~= Seq::<(Method, String, H)>::empty());
        Ok(None)
    }

    /// The handler registered at position `i`.
    pub fn handler_at(&self, i: usize) -> (r: &H)
        requires
            i < self@.len(),
        ensures
            *r == self@[i as int].2,
    {
        &self.routes[i].2
    }
}

impl<H: Handler> BuildRouter<H> {
    /// Dispatches `req`: the errors of [`BuildRouter::resolve`]; a 404 response
    /// where no registration matches; else what the selected handler returns.
    pub fn dispatch(&self, req: Request, ctx: &Context) -> (r: Result<Response, Error>)
        ensures
            req@.method is None ==> (r matches Err(e) && e.spec_kind() == ErrorKind::Http
                && e.spec_message() == "Missing HTTP method"@),
            (req@.method is Some && req@.uri is None) ==> (r matches Err(e) && e.spec_kind()
                == ErrorKind::Http && e.spec_message() == "Missing request URI"@),
            (req@.method matches Some(m) && req@.uri matches Some(u) && last_match(
                self@,
                m.name(),
                u.1,
            ) is None) ==> (r matches Ok(resp) && resp@.status == 404 && resp@.body
                == encode_utf8("Not Found"@)),
            forall|i: int|
                (req@.method is Some && req@.uri is Some && last_match(
                    self@,
                    (req@.method->0).name(),
                    (req@.uri->0).1,
                ) == Some(i)) ==> call_ensures(H::handle, (#[trigger] &self@[i].2, req, ctx), r),
    {
        let registrations = self.routes.len();
        let sel = self.resolve(&req);
        let ghost gsel = sel;
        match sel {
            Err(e) => Err(e),
            Ok(None) => Ok(Response::not_found()),
            Ok(Some(i)) => {
                let h = &self.routes[i].2;
                let ghost greq = req;
                let r = h.handle(req, ctx);
                proof {
                    lemma_last_match(self@, (greq@.method->0).name(), (greq@.uri->0).1);
                    assert forall|j: int|
                        (greq@.method is Some && greq@.uri is Some && last_match(
                            self@,
                            (greq@.method->0).name(),
                            (greq@.uri->0).1,
                        ) == Some(j)) implies call_ensures(
                        H::handle,
                        (#[trigger] &self@[j].2, greq, ctx),
                        r,
                    ) by {
                        assert(selects(self@, greq@, gsel));
                        assert(gsel == Ok::<Option<usize>, Error>(Some(i)));
                        assert(0 <= j < self@.len());
                        assert(self@.len() == registrations);
                        assert((j as usize) as int == j);
                        assert(gsel == Ok::<Option<usize>, Error>(Some(j as usize)));
                        assert(j == i as int);
                    }
                }
                r
            },
        }
    }
}

impl<H: Handler> Router for BuildRouter<H> {
    /// Dispatches as [`BuildRouter::dispatch`] does.
    fn route(&self, req: Request, ctx: &Context) -> (r: Result<Response, Error>)
        ensures
            req@.method is None ==> (r matches Err(e) && e.spec_kind() == ErrorKind::Http
                && e.spec_message() == "Missing HTTP method"@),
            (req@.method is Some && req@.uri is None) ==> (r matches Err(e) && e.spec_kind()
                == ErrorKind::Http && e.spec_message() == "Missing request URI"@),
            (req@.method matches Some(m) && req@.uri matches Some(u) && last_match(
                self@,
                m.name(),
                u.1,
            ) is None) ==> (r matches Ok(resp) && resp@.status == 404 && resp@.body
                == encode_utf8("Not Found"@)),
            forall|i: int|
                (req@.method is Some && req@.uri is Some && last_match(
                    self@,
                    (req@.method->0).name(),
                    (req@.uri->0).1,
                ) == Some(i)) ==> call_ensures(H::handle, (#[trigger] &self@[i].2, req, ctx), r),
    {
        self.dispatch(req, ctx)
    }
}

impl<H: Handler> Handler for BuildRouter<H> {
    /// Dispatches as [`BuildRouter::dispatch`] does.
    fn handle(&self, req: Request, ctx: &Context) -> (r: Result<Response, Error>)
        ensures
            req@.method is None ==> (r matches Err(e) && e.spec_kind() == ErrorKind::Http
                && e.spec_message() == "Missing HTTP method"@),
            (req@.method is Some && req@.uri is None) ==> (r matches Err(e) && e.spec_kind()
                == ErrorKind::Http && e.spec_message() == "Missing request URI"@),
            (req@.method matches Some(m) && req@.uri matches Some(u) && last_match(
                self@,
                m.name(),
                u.1,
            ) is None) ==> (r matches Ok(resp) && resp@.status == 404 && resp@.body
                == encode_utf8("Not Found"@)),
            forall|i: int|
                (req@.method is Some && req@.uri is Some && last_match(
                    self@,
                    (req@.method->0).name(),
                    (req@.uri->0).1,
                ) == Some(i)) ==> call_ensures(H::handle, (#[trigger] &self@[i].2, req, ctx), r),
    {
        self.dispatch(req, ctx)
    }
}

} // verus!
