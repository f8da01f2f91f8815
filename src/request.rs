//! The canonical request handlers receive.

use crate::error::{Error, ErrorKind};
use crate::json::Json;
use crate::strmap::{inserted, lookup, text_eq, StrMap};
use vstd::prelude::*;
use vstd::utf8::{decode_utf8, encode_utf8, valid_utf8};

verus! {

/// A `tchar` of RFC 9110: an ASCII letter or digit, or one of ``!#$%&'*+-.^_`|~``.
pub open spec fn is_tchar(c: char) -> bool {
    ('a' <= c && c <= 'z') || ('A' <= c && c <= 'Z') || ('0' <= c && c <= '9') || c == '!'
        || c == '#' || c == '$' || c == '%' || c == '&' || c == '\'' || c == '*' || c == '+'
        || c == '-' || c == '.' || c == '^' || c == '_' || c == '`' || c == '|' || c == '~'
}

/// A valid method name: one or more `tchar`s.
pub open spec fn is_method_token(s: Seq<char>) -> bool {
    s.len() > 0 && forall|i: int| 0 <= i < s.len() ==> is_tchar(#[trigger] s[i])
}

/// Relies on `http::Method::from_str` and `Method::as_str`: a method parses
/// exactly when its text is a non-empty token of RFC 9110 characters, and the
/// parsed method's text is the text given.
#[verifier::external_body]
fn parse_http_method(s: &str) -> (r: Option<String>)
    ensures
        r is Some == is_method_token(s@),
        r matches Some(t) ==> t@ == s@,
{
    match <http::Method as std::str::FromStr>::from_str(s) {
        Ok(m) => Some(m.as_str().to_owned()),
        Err(_) => None,
    }
}

/// What `http::Uri` makes of a text: `None` where it does not parse, else the
/// URI's display text and its path.
pub uninterp spec fn uri_parts(s: Seq<char>) -> Option<(Seq<char>, Seq<char>)>;

/// Relies on `http::Uri`'s `FromStr`, `Display` and `path`: whether the text
/// parses, how the parsed URI displays and what its path is depend on the text
/// alone.
#[verifier::external_body]
fn parse_http_uri(s: &str) -> (r: Option<(String, String)>)
    ensures
        match r {
            Some(p) => uri_parts(s@) == Some((p.0@, p.1@)),
            None => uri_parts(s@) is None,
        },
{
    match <http::Uri as std::str::FromStr>::from_str(s) {
        Ok(u) => Some((u.to_string(), u.path().to_owned())),
        Err(_) => None,
    }
}

/// Relies on `String::from_utf8`: it succeeds exactly on valid UTF-8, and
/// then holds the characters those bytes encode.
#[verifier::external_body]
fn utf8_to_string(b: Vec<u8>) -> (r: Option<String>)
    ensures
        r is Some == valid_utf8(b@),
        r matches Some(s) ==> s@ == decode_utf8(b@),
{
    String::from_utf8(b).ok()
}

/// An HTTP request method. The standard methods have their own variants; any
/// other valid token is an extension method.
#[allow(non_camel_case_types)]
#[derive(Debug, Clone)]
pub enum Method {
    GET,
    POST,
    PUT,
    DELETE,
    HEAD,
    OPTIONS,
    CONNECT,
    PATCH,
    TRACE,
    Extension(String),
}

impl Method {
    /// The method's name.
    pub open spec fn name(&self) -> Seq<char> {
        match self {
            Method::GET => "GET"@,
            Method::POST => "POST"@,
            Method::PUT => "PUT"@,
            Method::DELETE => "DELETE"@,
            Method::HEAD => "HEAD"@,
            Method::OPTIONS => "OPTIONS"@,
            Method::CONNECT => "CONNECT"@,
            Method::PATCH => "PATCH"@,
            Method::TRACE => "TRACE"@,
            Method::Extension(s) => s@,
        }
    }

    /// The method's name.
    pub fn as_str(&self) -> (r: &str)
        ensures
            r@ == self.name(),
    {
        match self {
            Method::GET => "GET",
            Method::POST => "POST",
            Method::PUT => "PUT",
            Method::DELETE => "DELETE",
            Method::HEAD => "HEAD",
            Method::OPTIONS => "OPTIONS",
            Method::CONNECT => "CONNECT",
            Method::PATCH => "PATCH",
            Method::TRACE => "TRACE",
            Method::Extension(s) => s.as_str(),
        }
    }

    /// The method named `name`, where `name` is a valid method token.
    pub fn parse(name: &str) -> (r: Option<Method>)
        ensures
            r is Some == is_method_token(name@),
            r matches Some(m) ==> m.name() == name@,
    {
        match parse_http_method(name) {
            Some(t) => Some(Method::from_token(t)),
            None => None,
        }
    }

    fn from_token(t: String) -> (r: Method)
        ensures
            r.name() == t@,
    {
        let s = t.as_str();
        if text_eq(s, "GET") {
            Method::GET
        } else if text_eq(s, "POST") {
            Method::POST
        } else if text_eq(s, "PUT") {
            Method::PUT
        } else if text_eq(s, "DELETE") {
            Method::DELETE
        } else if text_eq(s, "HEAD") {
            Method::HEAD
        } else if text_eq(s, "OPTIONS") {
            Method::OPTIONS
        } else if text_eq(s, "CONNECT") {
            Method::CONNECT
        } else if text_eq(s, "PATCH") {
            Method::PATCH
        } else if text_eq(s, "TRACE") {
            Method::TRACE
        } else {
            Method::Extension(t)
        }
    }
}

impl PartialEq for Method {
    fn eq(&self, other: &Method) -> (r: bool)
        ensures
            r == (self.name() == other.name()),
    {
        text_eq(self.as_str(), other.as_str())
    }
}

impl vstd::std_specs::cmp::PartialEqSpecImpl for Method {
    open spec fn obeys_eq_spec() -> bool {
        true
    }

    open spec fn eq_spec(&self, other: &Method) -> bool {
        self.name() == other.name()
    }
}

/// A parsed request URI: its display text and its path.
#[derive(Debug, Clone)]
pub struct Uri {
    text: String,
    path: String,
}

impl View for Uri {
    type V = (Seq<char>, Seq<char>);

    closed spec fn view(&self) -> (Seq<char>, Seq<char>) {
        (self.text@, self.path@)
    }
}

impl Uri {
    /// Parses a URI.
    pub fn parse(s: &str) -> (r: Option<Uri>)
        ensures
            match r {
                Some(u) => uri_parts(s@) == Some(u@),
                None => uri_parts(s@) is None,
            },
    {
        match parse_http_uri(s) {
            Some((text, path)) => Some(Uri { text, path }),
            None => None,
        }
    }

    /// The path of the URI.
    pub fn path(&self) -> (r: &str)
        ensures
            r@ == self@.1,
    {
        self.path.as_str()
    }

    /// The text of the URI.
    pub fn to_string(&self) -> (r: String)
        ensures
            r@ == self@.0,
    {
        self.text.clone()
    }
}

/// What a [`Request`] holds, but the native event.
pub ghost struct RequestView {
    pub method: Option<Method>,
    pub uri: Option<(Seq<char>, Seq<char>)>,
    pub headers: Seq<(String, String)>,
    pub query: Seq<(String, String)>,
    pub path_params: Seq<(String, String)>,
    pub body: Seq<u8>,
}

/// A request: optional method and URI (absent outside HTTP), headers, query
/// and path parameters, body bytes, and the platform's native event.
#[derive(Debug)]
pub struct Request {
    method: Option<Method>,
    uri: Option<Uri>,
    headers: StrMap<String>,
    query: StrMap<String>,
    path_params: StrMap<String>,
    body: Vec<u8>,
    raw_event: Json,
}

/// The view of an optional URI.
pub open spec fn uri_view(u: Option<Uri>) -> Option<(Seq<char>, Seq<char>)> {
    match u {
        Some(x) => Some(x@),
        None => None,
    }
}

impl View for Request {
    type V = RequestView;

    closed spec fn view(&self) -> RequestView {
        RequestView {
            method: self.method,
            uri: uri_view(self.uri),
            headers: self.headers@,
            query: self.query@,
            path_params: self.path_params@,
            body: self.body@,
        }
    }
}

impl Request {
    /// The native event this request was built from.
    pub closed spec fn spec_raw_event(&self) -> Json {
        self.raw_event
    }

    /// No method, no URI, no headers or parameters, empty body, null event.
    pub fn new() -> (r: Request)
        ensures
            r@.method is None,
            r@.uri is None,
            r@.headers.len() == 0,
            r@.query.len() == 0,
            r@.path_params.len() == 0,
            r@.body.len() == 0,
            r.spec_raw_event() is Null,
    {
        Request {
            method: None,
            uri: None,
            headers: StrMap::new(),
            query: StrMap::new(),
            path_params: StrMap::new(),
            body: Vec::new(),
            raw_event: Json::Null,
        }
    }

    /// The method, if any.
    pub fn method(&self) -> (r: Option<&Method>)
        ensures
            match r {
                Some(m) => self@.method == Some(*m),
                None => self@.method is None,
            },
    {
        match &self.method {
            Some(m) => Some(m),
            None => None,
        }
    }

    /// The method's name, if any.
    pub fn method_str(&self) -> (r: Option<String>)
        ensures
            match r {
                Some(t) => self@.method matches Some(m) && t@ == m.name(),
                None => self@.method is None,
            },
    {
        match &self.method {
            Some(m) => Some(m.as_str().to_owned()),
            None => None,
        }
    }

    /// The same request with method `method`.
    pub fn with_method(self, method: Method) -> (r: Request)
        ensures
            r@ == (RequestView { method: Some(method), ..self@ }),
            r.spec_raw_event() == self.spec_raw_event(),
    {
        Request { method: Some(method), ..self }
    }

    /// The same request with the method named `method`; unchanged where
    /// `method` is not a valid method token.
    pub fn with_method_str(self, method: &str) -> (r: Request)
        ensures
            is_method_token(method@) ==> (r@.method matches Some(m) && m.name() == method@ && r@
                == (RequestView { method: r@.method, ..self@ })),
            !is_method_token(method@) ==> r@ == self@,
            r.spec_raw_event() == self.spec_raw_event(),
    {
        match Method::parse(method) {
            Some(m) => Request { method: Some(m), ..self },
            None => self,
        }
    }

    /// The URI, if any.
    pub fn uri(&self) -> (r: Option<&Uri>)
        ensures
            match r {
                Some(u) => self@.uri == Some(u@),
                None => self@.uri is None,
            },
    {
        match &self.uri {
            Some(u) => Some(u),
            None => None,
        }
    }

    /// The URI's path, if there is a URI.
    pub fn path(&self) -> (r: Option<String>)
        ensures
            match r {
                Some(p) => self@.uri matches Some(u) && p@ == u.1,
                None => self@.uri is None,
            },
    {
        match &self.uri {
            Some(u) => Some(u.path().to_owned()),
            None => None,
        }
    }

    /// The same request with URI `uri`.
    pub fn with_uri(self, uri: Uri) -> (r: Request)
        ensures
            r@ == (RequestView { uri: Some(uri@), ..self@ }),
            r.spec_raw_event() == self.spec_raw_event(),
    {
        Request { uri: Some(uri), ..self }
    }

    /// The same request with the URI parsed from `path`; unchanged where
    /// `path` does not parse.
    pub fn with_path(self, path: &str) -> (r: Request)
        ensures
            match uri_parts(path@) {
                Some(u) => r@ == (RequestView { uri: Some(u), ..self@ }),
                None => r@ == self@,
            },
            r.spec_raw_event() == self.spec_raw_event(),
    {
        match Uri::parse(path) {
            Some(u) => Request { uri: Some(u), ..self },
            None => self,
        }
    }

    /// The headers.
    pub fn headers(&self) -> (r: &StrMap<String>)
        ensures
            r@ == self@.headers,
    {
        &self.headers
    }

    /// The same request with header `name` set to `value`.
    pub fn with_header(self, name: &str, value: &str) -> (r: Request)
        ensures
            exists|k: String, v: String|
                k@ == name@ && v@ == value@ && r@ == (RequestView {
                    headers: inserted(self@.headers, k, v),
                    ..self@
                }),
            r.spec_raw_event() == self.spec_raw_event(),
    {
        let mut r = self;
        let k = name.to_owned();
        let v = value.to_owned();
        let ghost (gk, gv) = (k, v);
        r.headers.insert(k, v);
        assert(r@ == (RequestView { headers: inserted(self@.headers, gk, gv), ..self@ }));
        r
    }

    /// The value of header `name`.
    pub fn header(&self, name: &str) -> (r: Option<&String>)
        ensures
            match r {
                Some(v) => lookup(self@.headers, name@) == Some(*v),
                None => lookup(self@.headers, name@) is None,
            },
    {
        self.headers.get(name)
    }

    /// The query parameters.
    pub fn query(&self) -> (r: &StrMap<String>)
        ensures
            r@ == self@.query,
    {
        &self.query
    }

    /// The same request with query parameter `name` set to `value`.
    pub fn with_query(self, name: &str, value: &str) -> (r: Request)
        ensures
            exists|k: String, v: String|
                k@ == name@ && v@ == value@ && r@ == (RequestView {
                    query: inserted(self@.query, k, v),
                    ..self@
                }),
            r.spec_raw_event() == self.spec_raw_event(),
    {
        let mut r = self;
        let k = name.to_owned();
        let v = value.to_owned();
        let ghost (gk, gv) = (k, v);
        r.query.insert(k, v);
        assert(r@ == (RequestView { query: inserted(self@.query, gk, gv), ..self@ }));
        r
    }

    /// The value of query parameter `name`.
    pub fn query_param(&self, name: &str) -> (r: Option<&String>)
        ensures
            match r {
                Some(v) => lookup(self@.query, name@) == Some(*v),
                None => lookup(self@.query, name@) is None,
            },
    {
        self.query.get(name)
    }

    /// The path parameters.
    pub fn path_params(&self) -> (r: &StrMap<String>)
        ensures
            r@ == self@.path_params,
    {
        &self.path_params
    }

    /// The same request with path parameter `name` set to `value`.
    pub fn with_path_param(self, name: &str, value: &str) -> (r: Request)
        ensures
            exists|k: String, v: String|
                k@ == name@ && v@ == value@ && r@ == (RequestView {
                    path_params: inserted(self@.path_params, k, v),
                    ..self@
                }),
            r.spec_raw_event() == self.spec_raw_event(),
    {
        let mut r = self;
        let k = name.to_owned();
        let v = value.to_owned();
        let ghost (gk, gv) = (k, v);
        r.path_params.insert(k, v);
        assert(r@ == (RequestView { path_params: inserted(self@.path_params, gk, gv), ..self@ }));
        r
    }

    /// The value of path parameter `name`.
    pub fn path_param(&self, name: &str) -> (r: Option<&String>)
        ensures
            match r {
                Some(v) => lookup(self@.path_params, name@) == Some(*v),
                None => lookup(self@.path_params, name@) is None,
            },
    {
        self.path_params.get(name)
    }

    /// The body bytes.
    pub fn body(&self) -> (r: &[u8])
        ensures
            r@ == self@.body,
    {
        self.body.as_slice()
    }

    /// The same request with another body.
    pub fn with_body(self, body: Vec<u8>) -> (r: Request)
        ensures
            r@ == (RequestView { body: body@, ..self@ }),
            r.spec_raw_event() == self.spec_raw_event(),
    {
        Request { body, ..self }
    }

    /// The body as text; a serialization error where it is not valid UTF-8.
    pub fn body_string(&self) -> (r: Result<String, Error>)
        ensures
            r is Ok == valid_utf8(self@.body),
            r matches Ok(s) ==> s@ == decode_utf8(self@.body) && encode_utf8(s@) == self@.body,
            r matches Err(e) ==> e.spec_kind() == ErrorKind::Serialization,
    {
        let bytes = vstd::slice::slice_to_vec(self.body.as_slice());
        match utf8_to_string(bytes) {
            Some(s) => {
                proof {
                    vstd::utf8::decode_utf8_encode_utf8(self@.body);
                }
                Ok(s)
            },
            None => Err(Error::serialization("body is not valid UTF-8")),
        }
    }

    /// The same request with the given header and query maps.
    pub(crate) fn with_maps(self, headers: StrMap<String>, query: StrMap<String>) -> (r: Request)
        ensures
            r@ == (RequestView { headers: headers@, query: query@, ..self@ }),
            r.spec_raw_event() == self.spec_raw_event(),
    {
        Request { headers, query, ..self }
    }

    /// The native event.
    pub fn raw_event(&self) -> (r: &Json)
        ensures
            *r == self.spec_raw_event(),
    {
        &self.raw_event
    }

    /// The same request with another native event.
    pub fn with_raw_event(self, event: Json) -> (r: Request)
        ensures
            r@ == self@,
            r.spec_raw_event() == event,
    {
        Request { raw_event: event, ..self }
    }
}

impl Default for Request {
    fn default() -> (r: Request)
        ensures
            r@.method is None,
            r@.uri is None,
            r@.headers.len() == 0,
            r@.query.len() == 0,
            r@.path_params.len() == 0,
            r@.body.len() == 0,
            r.spec_raw_event() is Null,
    {
        Request::new()
    }
}

} // verus!
