//! The canonical response handlers return.

use crate::error::Error;
use crate::json::{json_text, numbers_ok, Json};
use crate::strmap::{inserted, lookup, StrMap};
use vstd::prelude::*;
use vstd::utf8::encode_utf8;

verus! {

/// What a [`Response`] holds.
pub ghost struct ResponseView {
    pub status: u16,
    pub headers: Seq<(String, String)>,
    pub body: Seq<u8>,
    pub is_base64: bool,
}

/// A response: status code, headers, body bytes, and whether the body is
/// already base64 text that the platform must pass on as binary content.
#[derive(Debug, Clone)]
pub struct Response {
    status: u16,
    headers: StrMap<String>,
    body: Vec<u8>,
    is_base64: bool,
}

impl View for Response {
    type V = ResponseView;

    closed spec fn view(&self) -> ResponseView {
        ResponseView {
            status: self.status,
            headers: self.headers@,
            body: self.body@,
            is_base64: self.is_base64,
        }
    }
}

impl Response {
    /// Status 200, no headers, empty body, not base64.
    pub fn new() -> (r: Response)
        ensures
            r@.status == 200,
            r@.headers.len() == 0,
            r@.body.len() == 0,
            !r@.is_base64,
    {
        Response { status: 200, headers: StrMap::new(), body: Vec::new(), is_base64: false }
    }

    /// The status code.
    pub fn status(&self) -> (r: u16)
        ensures
            r == self@.status,
    {
        self.status
    }

    /// The same response with another status code.
    pub fn with_status(self, status: u16) -> (r: Response)
        ensures
            r@ == (ResponseView { status, ..self@ }),
    {
        Response { status, ..self }
    }

    /// The headers.
    pub fn headers(&self) -> (r: &StrMap<String>)
        ensures
            r@ == self@.headers,
    {
        &self.headers
    }

    /// The same response with header `name` set to `value`.
    pub fn with_header(self, name: &str, value: &str) -> (r: Response)
        ensures
            exists|k: String, v: String|
                k@ == name@ && v@ == value@ && r@ == (ResponseView {
                    headers: inserted(self@.headers, k, v),
                    ..self@
                }),
    {
        let mut r = self;
        let k = name.to_owned();
        let v = value.to_owned();
        let ghost (gk, gv) = (k, v);
        r.headers.insert(k, v);
        assert(r@ == (ResponseView { headers: inserted(self@.headers, gk, gv), ..self@ }));
        r
    }

    /// The value of header `name`.
    pub fn header(&self, name: &str) -> (r: Option<&String>)
        ensures
            match r {
                Some(v) => lookup(self@.headers, name@) == Some(*v),
                None => lookup(self@.headers, name@) == None::<String>,
            },
    {
        self.headers.get(name)
    }

    /// The body bytes.
    pub fn body(&self) -> (r: &[u8])
        ensures
            r@ == self@.body,
    {
        self.body.as_slice()
    }

    /// The same response with another body.
    pub fn with_body(self, body: Vec<u8>) -> (r: Response)
        ensures
            r@ == (ResponseView { body: body@, ..self@ }),
    {
        Response { body, ..self }
    }

    /// Whether the body is base64 text.
    pub fn is_base64(&self) -> (r: bool)
        ensures
            r == self@.is_base64,
    {
        self.is_base64
    }

    /// The same response with the base64 mark set to `is_base64`.
    pub fn with_base64(self, is_base64: bool) -> (r: Response)
        ensures
            r@ == (ResponseView { is_base64, ..self@ }),
    {
        Response { is_base64, ..self }
    }

    /// Status 200, `Content-Type: application/json`, the UTF-8 bytes of the
    /// JSON text of `value` as body; a serialization error where a number in
    /// `value` is not written as a JSON number.
    pub fn json(value: &Json) -> (r: Result<Response, Error>)
        ensures
            r is Ok == numbers_ok(value@),
            r matches Ok(resp) ==> resp@.status == 200 && resp@.headers.len() == 1
                && resp@.headers[0].0@ == "Content-Type"@ && resp@.headers[0].1@
                == "application/json"@ && resp@.body == encode_utf8(json_text(value@))
                && !resp@.is_base64,
            r matches Err(e) ==> e.spec_kind() == crate::error::ErrorKind::Serialization,
    {
        if !value.numbers_valid() {
            return Err(Error::serialization("a number is not written as a JSON number"));
        }
        let text = value.to_text();
        Ok(
            Response::new().with_header("Content-Type", "application/json").with_body(
                vstd::slice::slice_to_vec(text.as_str().as_bytes()),
            ),
        )
    }

    /// Status 200, `Content-Type: text/plain`, the UTF-8 bytes of `text` as body.
    pub fn text(text: &str) -> (r: Response)
        ensures
            r@.status == 200,
            r@.headers.len() == 1,
            r@.headers[0].0@ == "Content-Type"@,
            r@.headers[0].1@ == "text/plain"@,
            r@.body == encode_utf8(text@),
            !r@.is_base64,
    {
        Response::new().with_header("Content-Type", "text/plain").with_body(
            vstd::slice::slice_to_vec(text.as_bytes()),
        )
    }

    /// Status 200, `Content-Type: text/html`, the UTF-8 bytes of `html` as body.
    pub fn html(html: &str) -> (r: Response)
        ensures
            r@.status == 200,
            r@.headers.len() == 1,
            r@.headers[0].0@ == "Content-Type"@,
            r@.headers[0].1@ == "text/html"@,
            r@.body == encode_utf8(html@),
            !r@.is_base64,
    {
        Response::new().with_header("Content-Type", "text/html").with_body(
            vstd::slice::slice_to_vec(html.as_bytes()),
        )
    }

    /// Status 302 with `Location: location`, empty body.
    pub fn redirect(location: &str) -> (r: Response)
        ensures
            r@.status == 302,
            r@.headers.len() == 1,
            r@.headers[0].0@ == "Location"@,
            r@.headers[0].1@ == location@,
            r@.body.len() == 0,
            !r@.is_base64,
    {
        Response::new().with_status(302).with_header("Location", location)
    }

    /// Status 404, body "Not Found".
    pub fn not_found() -> (r: Response)
        ensures
            r@.status == 404,
            r@.headers.len() == 0,
            r@.body == encode_utf8("Not Found"@),
            !r@.is_base64,
    {
        Response::new().with_status(404).with_body(vstd::slice::slice_to_vec("Not Found".as_bytes()))
    }

    /// Status 400, body "Bad Request".
    pub fn bad_request() -> (r: Response)
        ensures
            r@.status == 400,
            r@.headers.len() == 0,
            r@.body == encode_utf8("Bad Request"@),
            !r@.is_base64,
    {
        Response::new().with_status(400).with_body(
            vstd::slice::slice_to_vec("Bad Request".as_bytes()),
        )
    }

    /// Status 500, body "Internal Server Error".
    pub fn internal_error() -> (r: Response)
        ensures
            r@.status == 500,
            r@.headers.len() == 0,
            r@.body == encode_utf8("Internal Server Error"@),
            !r@.is_base64,
    {
        Response::new().with_status(500).with_body(
            vstd::slice::slice_to_vec("Internal Server Error".as_bytes()),
        )
    }
}

impl Default for Response {
    fn default() -> (r: Response)
        ensures
            r@.status == 200,
            r@.headers.len() == 0,
            r@.body.len() == 0,
            !r@.is_base64,
    {
        Response::new()
    }
}

} // verus!
