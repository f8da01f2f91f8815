//! The adapter protocol: one entry-point logic, parameterised by a platform
//! descriptor, that turns a platform's native event into a canonical request
//! and context and a canonical outcome into the platform's native reply.
//!
//! An entry point runs in three steps: [`Adapter::begin`] decides between
//! introspection and invocation; the caller runs the handler, containing any
//! fault; [`Adapter::finish`] encodes what came of it.

use crate::context::Context;
use crate::error::Error;
use crate::info::{rendered, string_map_json, string_map_to_json, FunctionInfo, InfoFlags};
use crate::json::{decimal, decimal_text, lemma_object_view, member_of, Json, JsonV};
use crate::request::{is_method_token, uri_parts, Request};
use crate::response::Response;
use crate::strmap::{inserted_kv, lemma_inserted_texts, text_keys, text_vals, StrMap};
use vstd::prelude::*;
use vstd::string::StrSliceExecFns;
use vstd::utf8::{decode_utf8, encode_utf8, valid_utf8};

verus! {

/// What `String::from_utf8_lossy` makes of a byte sequence.
pub uninterp spec fn utf8_lossy(b: Seq<u8>) -> Seq<char>;

/// Relies on `String::from_utf8_lossy`: the result depends on the bytes
/// alone, and valid UTF-8 is decoded unchanged (invalid sequences elsewhere
/// become U+FFFD).
#[verifier::external_body]
fn lossy_text(b: &[u8]) -> (r: String)
    ensures
        r@ == utf8_lossy(b@),
        valid_utf8(b@) ==> r@ == decode_utf8(b@),
{
    String::from_utf8_lossy(b).into_owned()
}

/// The standard base64 alphabet.
pub open spec fn b64_char(v: int) -> char {
    "ABCDEFGHIJKLMNOPQRSTUVWXYZabcdefghijklmnopqrstuvwxyz0123456789+/"@[v]
}

/// The standard base64 encoding of `b`, padded with `=`.
pub open spec fn base64(b: Seq<u8>) -> Seq<char>
    decreases b.len(),
{
    if b.len() == 0 {
        Seq::empty()
    } else if b.len() == 1 {
        seq![b64_char(b[0] as int / 4), b64_char((b[0] as int % 4) * 16), '=', '=']
    } else if b.len() == 2 {
        seq![
            b64_char(b[0] as int / 4),
            b64_char((b[0] as int % 4) * 16 + b[1] as int / 16),
            b64_char((b[1] as int % 16) * 4),
            '=',
        ]
    } else {
        seq![
            b64_char(b[0] as int / 4),
            b64_char((b[0] as int % 4) * 16 + b[1] as int / 16),
            b64_char((b[1] as int % 16) * 4 + b[2] as int / 64),
            b64_char(b[2] as int % 64),
        ] + base64(b.subrange(3, b.len() as int))
    }
}

fn b64_piece(v: usize) -> (r: &'static str)
    requires
        v < 64,
    ensures
        r@ == seq![b64_char(v as int)],
{
    let alphabet: &'static str = "ABCDEFGHIJKLMNOPQRSTUVWXYZabcdefghijklmnopqrstuvwxyz0123456789+/";
    proof {
        reveal_strlit("ABCDEFGHIJKLMNOPQRSTUVWXYZabcdefghijklmnopqrstuvwxyz0123456789+/");
    }
    let r = alphabet.substring_char(v, v + 1);
    assert(r@ =~= seq![b64_char(v as int)]);
    r
}

/// The standard base64 encoding of `b`.
pub fn base64_text(b: &[u8]) -> (r: String)
    ensures
        r@ == base64(b@),
{
    let n = b.len();
    let mut out = String::new();
    let mut i: usize = 0;
    assert(b@.subrange(0, n as int) =~= b@);
    while n - i >= 3
        invariant
            n == b@.len(),
            i <= n,
            base64(b@) == out@ + base64(b@.subrange(i as int, n as int)),
        decreases n - i,
    {
        let x = b[i] as usize;
        let y = b[i + 1] as usize;
        let z = b[i + 2] as usize;
        let ghost rest = b@.subrange(i as int, n as int);
        let ghost before = out@;
        out.append(b64_piece(x / 4));
        out.append(b64_piece((x % 4) * 16 + y / 16));
        out.append(b64_piece((y % 16) * 4 + z / 64));
        out.append(b64_piece(z % 64));
        proof {
            assert(rest.subrange(3, rest.len() as int) =~= b@.subrange(i + 3, n as int));
            assert(out@ =~= before + seq![
                b64_char(rest[0] as int / 4),
                b64_char((rest[0] as int % 4) * 16 + rest[1] as int / 16),
                b64_char((rest[1] as int % 16) * 4 + rest[2] as int / 64),
                b64_char(rest[2] as int % 64),
            ]);
        }
        i = i + 3;
    }
    let ghost rest = b@.subrange(i as int, n as int);
    let ghost before = out@;
    if n - i == 1 {
        let x = b[i] as usize;
        out.append(b64_piece(x / 4));
        out.append(b64_piece((x % 4) * 16));
        out.append("==");
        proof {
            reveal_strlit("==");
            assert(out@ =~= before + base64(rest));
        }
    } else if n - i == 2 {
        let x = b[i] as usize;
        let y = b[i + 1] as usize;
        out.append(b64_piece(x / 4));
        out.append(b64_piece((x % 4) * 16 + y / 16));
        out.append(b64_piece((y % 16) * 4));
        out.append("=");
        proof {
            reveal_strlit("=");
            assert(out@ =~= before + base64(rest));
        }
    } else {
        assert(rest.len() == 0);
        assert(out@ =~= before + base64(rest));
    }
    out
}

/// The body of a response as reply text: base64 where the response marks its
/// body as binary, else the body read as UTF-8.
pub open spec fn body_text(r: crate::response::ResponseView) -> Seq<char> {
    if r.is_base64 {
        base64(r.body)
    } else {
        utf8_lossy(r.body)
    }
}

fn response_body_text(resp: &Response) -> (r: String)
    ensures
        r@ == body_text(resp@),
{
    if resp.is_base64() {
        base64_text(resp.body())
    } else {
        lossy_text(resp.body())
    }
}

/// How a platform's reply marks a base64 body.
#[derive(Debug, Clone)]
pub enum EncodingMark {
    /// A boolean member with this name (`isBase64Encoded`).
    Flag(String),
    /// A string member with this name, `"base64"` or `"utf-8"` (`bodyEncoding`).
    Label(String),
}

/// The field names and request-id scheme of one platform's native shapes.
#[derive(Debug, Clone)]
pub struct Platform {
    /// Platform identifier ("aws", "cloudflare").
    pub name: String,
    /// Reply member holding the status code.
    pub status_field: String,
    /// How the reply marks a base64 body.
    pub encoding: EncodingMark,
    /// Event member holding the HTTP method.
    pub method_field: String,
    /// Event member holding the path or URL.
    pub path_field: String,
    /// Event member holding the headers object.
    pub headers_field: String,
    /// Event member holding the query-parameter object.
    pub query_field: String,
    /// Event member holding the body text.
    pub body_field: String,
    /// Native-context member holding the request id.
    pub request_id_field: String,
    /// Request id used where the native context has none.
    pub default_request_id: String,
}

impl Platform {
    /// Lambda-style platform, API-gateway event shape:
    /// `{statusCode, headers, body, isBase64Encoded}` replies.
    pub fn aws_lambda() -> (r: Platform)
        ensures
            r.name@ == "aws"@,
            r.status_field@ == "statusCode"@,
            r.encoding matches EncodingMark::Flag(f) && f@ == "isBase64Encoded"@,
            r.method_field@ == "httpMethod"@,
            r.path_field@ == "path"@,
            r.headers_field@ == "headers"@,
            r.query_field@ == "queryStringParameters"@,
            r.body_field@ == "body"@,
            r.request_id_field@ == "awsRequestId"@,
            r.default_request_id@ == "aws-request-id"@,
    {
        Platform {
            name: "aws".to_owned(),
            status_field: "statusCode".to_owned(),
            encoding: EncodingMark::Flag("isBase64Encoded".to_owned()),
            method_field: "httpMethod".to_owned(),
            path_field: "path".to_owned(),
            headers_field: "headers".to_owned(),
            query_field: "queryStringParameters".to_owned(),
            body_field: "body".to_owned(),
            request_id_field: "awsRequestId".to_owned(),
            default_request_id: "aws-request-id".to_owned(),
        }
    }

    /// Workers-style platform: `{status, headers, body, bodyEncoding}` replies.
    pub fn cloudflare_workers() -> (r: Platform)
        ensures
            r.name@ == "cloudflare"@,
            r.status_field@ == "status"@,
            r.encoding matches EncodingMark::Label(f) && f@ == "bodyEncoding"@,
            r.method_field@ == "method"@,
            r.path_field@ == "url"@,
            r.headers_field@ == "headers"@,
            r.query_field@ == "query"@,
            r.body_field@ == "body"@,
            r.request_id_field@ == "requestId"@,
            r.default_request_id@ == "cf-request-id"@,
    {
        Platform {
            name: "cloudflare".to_owned(),
            status_field: "status".to_owned(),
            encoding: EncodingMark::Label("bodyEncoding".to_owned()),
            method_field: "method".to_owned(),
            path_field: "url".to_owned(),
            headers_field: "headers".to_owned(),
            query_field: "query".to_owned(),
            body_field: "body".to_owned(),
            request_id_field: "requestId".to_owned(),
            default_request_id: "cf-request-id".to_owned(),
        }
    }
}

/// What came of running the handler.
#[derive(Debug)]
pub enum Outcome {
    /// The handler returned a response.
    Success(Response),
    /// The handler returned an error.
    Failure(Error),
    /// The handler ended abruptly; the caller contained the fault.
    Fault,
}

/// The first step of an entry point.
#[derive(Debug)]
pub enum Step {
    /// Introspection was requested: print `rendered`, reply `reply`; the
    /// handler is not run.
    Introspect { rendered: String, reply: Json },
    /// Run the handler on `request` and `context`, then call [`Adapter::finish`].
    Invoke { request: Request, context: Context },
}

/// The entry point of one function on one platform.
pub struct Adapter {
    pub platform: Platform,
    pub info: FunctionInfo,
    pub flags: InfoFlags,
}

/// A status code as a JSON number.
pub open spec fn status_json(n: nat) -> JsonV {
    JsonV::Number(decimal(n))
}

/// The reply that reports introspection.
pub open spec fn info_reply(p: Platform) -> JsonV {
    JsonV::Object(
        seq![p.status_field@, "body"@],
        seq![status_json(200), JsonV::Str("Function information displayed"@)],
    )
}

/// A 500 reply with body `text`.
pub open spec fn error_reply(p: Platform, text: Seq<char>) -> JsonV {
    JsonV::Object(seq![p.status_field@, "body"@], seq![status_json(500), JsonV::Str(text)])
}

/// The reply member that marks the body's encoding.
pub open spec fn encoding_member(p: Platform, base64: bool) -> (Seq<char>, JsonV) {
    match p.encoding {
        EncodingMark::Flag(f) => (f@, JsonV::Bool(base64)),
        EncodingMark::Label(f) => (
            f@,
            JsonV::Str(
                if base64 {
                    "base64"@
                } else {
                    "utf-8"@
                },
            ),
        ),
    }
}

/// The reply for a response: status, headers, body text (base64 where the
/// response marks its body as binary) and encoding mark.
pub open spec fn success_reply(p: Platform, r: crate::response::ResponseView) -> JsonV {
    let (ef, ev) = encoding_member(p, r.is_base64);
    JsonV::Object(
        seq![p.status_field@, "headers"@, "body"@, ef],
        seq![
            status_json(r.status as nat),
            string_map_json(r.headers),
            JsonV::Str(body_text(r)),
            ev,
        ],
    )
}

/// The reply for an outcome.
pub open spec fn outcome_reply(p: Platform, o: Outcome) -> JsonV {
    match o {
        Outcome::Success(r) => success_reply(p, r@),
        Outcome::Failure(e) => error_reply(
            p,
            "Error: "@ + Error::kind_prefix(e.spec_kind()) + e.spec_message(),
        ),
        Outcome::Fault => error_reply(p, "Internal Error: Handler panicked"@),
    }
}

/// The informational reply of a direct invocation.
pub open spec fn direct_info_reply() -> JsonV {
    JsonV::Object(seq!["message"@], seq![JsonV::Str("Function information displayed"@)])
}

/// The reply of a direct invocation: the response body as reply text; or an
/// `error` member carrying the error's text, or the fault's.
pub open spec fn direct_reply(o: Outcome) -> JsonV {
    match o {
        Outcome::Success(r) => JsonV::Str(body_text(r@)),
        Outcome::Failure(e) => JsonV::Object(
            seq!["error"@],
            seq![JsonV::Str(Error::kind_prefix(e.spec_kind()) + e.spec_message())],
        ),
        Outcome::Fault => JsonV::Object(
            seq!["error"@],
            seq![JsonV::Str("Internal Error: Handler panicked"@)],
        ),
    }
}

/// The method an event names, where it names a valid one.
pub open spec fn event_method(p: Platform, ev: JsonV) -> Option<Seq<char>> {
    match member_of(ev, p.method_field@) {
        Some(JsonV::Str(m)) => if is_method_token(m) {
            Some(m)
        } else {
            None
        },
        _ => None,
    }
}

/// The URI an event names, where it names one that parses.
pub open spec fn event_uri(p: Platform, ev: JsonV) -> Option<(Seq<char>, Seq<char>)> {
    match member_of(ev, p.path_field@) {
        Some(JsonV::Str(t)) => uri_parts(t),
        _ => None,
    }
}

/// The string members among the first `n` members (`ks`, `vs`), inserted in
/// order; a later member under a key replaces an earlier one.
pub open spec fn string_pairs(ks: Seq<Seq<char>>, vs: Seq<JsonV>, n: int) -> (
    Seq<Seq<char>>,
    Seq<Seq<char>>,
)
    decreases n,
{
    if n <= 0 || n > vs.len() || n > ks.len() {
        (Seq::empty(), Seq::empty())
    } else {
        let r = string_pairs(ks, vs, n - 1);
        match vs[n - 1] {
            JsonV::Str(x) => inserted_kv(r.0, r.1, ks[n - 1], x),
            _ => r,
        }
    }
}

/// The string members of the object an event holds under `field`.
pub open spec fn event_pairs(ev: JsonV, field: Seq<char>) -> (Seq<Seq<char>>, Seq<Seq<char>>) {
    match member_of(ev, field) {
        Some(JsonV::Object(ks, vs)) => string_pairs(ks, vs, vs.len() as int),
        _ => (Seq::empty(), Seq::empty()),
    }
}

/// The body bytes an event holds: the UTF-8 encoding of its body text.
pub open spec fn event_body(p: Platform, ev: JsonV) -> Seq<u8> {
    match member_of(ev, p.body_field@) {
        Some(JsonV::Str(b)) => encode_utf8(b),
        _ => Seq::empty(),
    }
}

/// `req` is the canonical request for native event `ev`.
pub open spec fn decodes_event(p: Platform, ev: Json, req: Request) -> bool {
    let v = req@;
    &&& match event_method(p, ev@) {
        Some(m) => v.method matches Some(x) && x.name() == m,
        None => v.method is None,
    }
    &&& v.uri == event_uri(p, ev@)
    &&& (text_keys(v.headers), text_vals(v.headers)) == event_pairs(ev@, p.headers_field@)
    &&& (text_keys(v.query), text_vals(v.query)) == event_pairs(ev@, p.query_field@)
    &&& v.path_params.len() == 0
    &&& v.body == event_body(p, ev@)
    &&& req.spec_raw_event() == ev
}

/// The request id for native context `nc`.
pub open spec fn request_id_of(p: Platform, nc: JsonV) -> Seq<char> {
    match member_of(nc, p.request_id_field@) {
        Some(JsonV::Str(id)) => id,
        _ => p.default_request_id@,
    }
}

/// `ctx` is the canonical context for native context `nc`.
pub open spec fn context_for(p: Platform, info: FunctionInfo, nc: Json, ctx: Context) -> bool {
    let v = ctx@;
    &&& v.request_id == request_id_of(p, nc@)
    &&& v.function_name == info.name@
    &&& v.function_version.len() == 0
    &&& v.memory_limit is None
    &&& v.remaining_time is None
    &&& v.deadline is None
    &&& v.env_vars.len() == 0
    &&& v.platform_data == nc
}

fn str_member<'a>(j: &'a Json, key: &str) -> (r: Option<&'a String>)
    ensures
        match r {
            Some(s) => member_of(j@, key@) == Some(JsonV::Str(s@)),
            None => !(member_of(j@, key@) matches Some(JsonV::Str(_))),
        },
{
    match j.member(key) {
        Some(m) => match m {
            Json::Str(s) => Some(s),
            _ => None,
        },
        None => None,
    }
}

fn decode_pairs(ev: &Json, field: &str) -> (r: StrMap<String>)
    ensures
        (text_keys(r@), text_vals(r@)) == event_pairs(ev@, field@),
{
    let mut map: StrMap<String> = StrMap::new();
    match ev.member(field) {
        Some(obj) => match obj {
            Json::Object(v) => {
                proof {
                    lemma_object_view(*v);
                }
                let ghost ks = obj@->Object_0;
                let ghost vs = obj@->Object_1;
                assert(text_keys(map@) =~= Seq::<Seq<char>>::empty());
                assert(text_vals(map@) =~= Seq::<Seq<char>>::empty());
                let mut i: usize = 0;
                while i < v.len()
                    invariant
                        i <= v@.len(),
                        ks.len() == v@.len(),
                        vs.len() == v@.len(),
                        forall|j: int| 0 <= j < v@.len() ==> #[trigger] ks[j] == v@[j].0@,
                        forall|j: int| 0 <= j < v@.len() ==> #[trigger] vs[j] == v@[j].1@,
                        (text_keys(map@), text_vals(map@)) == string_pairs(ks, vs, i as int),
                    decreases v.len() - i,
                {
                    match &v[i].1 {
                        Json::Str(x) => {
                            let k = v[i].0.clone();
                            let val = x.clone();
                            proof {
                                lemma_inserted_texts(map@, k, val);
                            }
                            map.insert(k, val);
                        },
                        _ => {},
                    }
                    i = i + 1;
                }
            },
            _ => {},
        },
        None => {},
    }
    map
}

fn single_member(key: &str, value: Json) -> (r: Json)
    ensures
        r@ == JsonV::Object(seq![key@], seq![value@]),
{
    let mut v: Vec<(String, Json)> = Vec::new();
    v.push((key.to_owned(), value));
    proof {
        lemma_object_view(v);
        assert(Json::Object(v)@->Object_0 =~= seq![key@]);
        assert(Json::Object(v)@->Object_1 =~= seq![v@[0].1@]);
    }
    Json::Object(v)
}

impl Adapter {
    /// An entry point for `info` on `platform`, with the introspection
    /// switches `flags`.
    pub fn new(platform: Platform, info: FunctionInfo, flags: InfoFlags) -> (r: Adapter)
        ensures
            r.platform == platform,
            r.info == info,
            r.flags == flags,
    {
        Adapter { platform, info, flags }
    }

    /// The canonical request for a native event: method, URI, headers, query
    /// and body where the event is HTTP-shaped, the event itself kept.
    pub fn decode_event(&self, event: Json) -> (r: Request)
        ensures
            decodes_event(self.platform, event, r),
    {
        let p = &self.platform;
        let mut req = Request::new();
        match str_member(&event, p.method_field.as_str()) {
            Some(m) => {
                req = req.with_method_str(m.as_str());
            },
            None => {},
        }
        match str_member(&event, p.path_field.as_str()) {
            Some(t) => {
                req = req.with_path(t.as_str());
            },
            None => {},
        }
        let headers = decode_pairs(&event, p.headers_field.as_str());
        let query = decode_pairs(&event, p.query_field.as_str());
        let body = match str_member(&event, p.body_field.as_str()) {
            Some(b) => vstd::slice::slice_to_vec(b.as_str().as_bytes()),
            None => Vec::new(),
        };
        req = req.with_body(body);
        req.with_maps(headers, query).with_raw_event(event)
    }

    /// The canonical context for a native context.
    pub fn decode_context(&self, native_context: Json) -> (r: Context)
        ensures
            context_for(self.platform, self.info, native_context, r),
    {
        let id: String = match str_member(&native_context, self.platform.request_id_field.as_str()) {
            Some(s) => s.clone(),
            None => self.platform.default_request_id.clone(),
        };
        Context::new().with_request_id(id.as_str()).with_function_name(
            self.info.name.as_str(),
        ).with_platform_data(native_context)
    }

    /// The first step of an invocation. With introspection requested, the
    /// rendered metadata and the informational reply, and nothing to run;
    /// otherwise the request and context to run the handler on.
    pub fn begin(&self, event: Json, native_context: Json) -> (r: Step)
        ensures
            self.flags.info_requested ==> (r matches Step::Introspect { rendered: t, reply } && t@
                == rendered(self.info, self.flags.format) && reply@ == info_reply(self.platform)),
            !self.flags.info_requested ==> (r matches Step::Invoke { request, context }
                && decodes_event(self.platform, event, request) && context_for(
                self.platform,
                self.info,
                native_context,
                context,
            )),
    {
        if self.flags.info_requested {
            Step::Introspect { rendered: self.info.render(self.flags.format), reply: self.info_reply() }
        } else {
            Step::Invoke {
                request: self.decode_event(event),
                context: self.decode_context(native_context),
            }
        }
    }

    /// The first step of a direct invocation, which skips HTTP semantics:
    /// with introspection requested, the rendered metadata and a `message`
    /// reply; otherwise a request that only carries the event, and the context.
    pub fn begin_direct(&self, event: Json, native_context: Json) -> (r: Step)
        ensures
            self.flags.info_requested ==> (r matches Step::Introspect { rendered: t, reply } && t@
                == rendered(self.info, self.flags.format) && reply@ == direct_info_reply()),
            !self.flags.info_requested ==> (r matches Step::Invoke { request, context }
                && request@.method is None && request@.uri is None && request@.headers.len() == 0
                && request@.query.len() == 0 && request@.path_params.len() == 0
                && request@.body.len() == 0 && request.spec_raw_event() == event && context_for(
                self.platform,
                self.info,
                native_context,
                context,
            )),
    {
        if self.flags.info_requested {
            let reply = single_member("message", Json::Str("Function information displayed".to_owned()));
            Step::Introspect { rendered: self.info.render(self.flags.format), reply }
        } else {
            Step::Invoke {
                request: Request::new().with_raw_event(event),
                context: self.decode_context(native_context),
            }
        }
    }

    /// The reply of a direct invocation for what came of the handler.
    pub fn finish_direct(&self, outcome: Outcome) -> (r: Json)
        ensures
            r@ == direct_reply(outcome),
    {
        match &outcome {
            Outcome::Success(resp) => Json::Str(response_body_text(resp)),
            Outcome::Failure(e) => single_member("error", Json::Str(e.to_string())),
            Outcome::Fault => single_member(
                "error",
                Json::Str("Internal Error: Handler panicked".to_owned()),
            ),
        }
    }

    /// The informational reply.
    pub fn info_reply(&self) -> (r: Json)
        ensures
            r@ == info_reply(self.platform),
    {
        let mut v: Vec<(String, Json)> = Vec::new();
        v.push((self.platform.status_field.clone(), Json::Number(decimal_text(200))));
        v.push(("body".to_owned(), Json::Str("Function information displayed".to_owned())));
        proof {
            lemma_object_view(v);
            assert(Json::Object(v)@->Object_0 =~= info_reply(self.platform)->Object_0);
            assert(Json::Object(v)@->Object_1 =~= info_reply(self.platform)->Object_1);
        }
        Json::Object(v)
    }

    fn error_reply(&self, text: String) -> (r: Json)
        ensures
            r@ == error_reply(self.platform, text@),
    {
        let mut v: Vec<(String, Json)> = Vec::new();
        v.push((self.platform.status_field.clone(), Json::Number(decimal_text(500))));
        v.push(("body".to_owned(), Json::Str(text)));
        proof {
            lemma_object_view(v);
            assert(Json::Object(v)@->Object_0 =~= error_reply(self.platform, text@)->Object_0);
            assert(Json::Object(v)@->Object_1 =~= error_reply(self.platform, text@)->Object_1);
        }
        Json::Object(v)
    }

    fn success_reply(&self, resp: &Response) -> (r: Json)
        ensures
            r@ == success_reply(self.platform, resp@),
    {
        let mut v: Vec<(String, Json)> = Vec::new();
        v.push((self.platform.status_field.clone(), Json::Number(decimal_text(resp.status() as u64))));
        v.push(("headers".to_owned(), string_map_to_json(resp.headers())));
        v.push(("body".to_owned(), Json::Str(response_body_text(resp))));
        match &self.platform.encoding {
            EncodingMark::Flag(f) => {
                v.push((f.clone(), Json::Bool(resp.is_base64())));
            },
            EncodingMark::Label(f) => {
                let label = if resp.is_base64() {
                    "base64".to_owned()
                } else {
                    "utf-8".to_owned()
                };
                v.push((f.clone(), Json::Str(label)));
            },
        }
        proof {
            lemma_object_view(v);
            assert(Json::Object(v)@->Object_0 =~= success_reply(self.platform, resp@)->Object_0);
            assert(Json::Object(v)@->Object_1 =~= success_reply(self.platform, resp@)->Object_1);
        }
        Json::Object(v)
    }

    /// The native reply for what came of the handler: the response in the
    /// platform's shape; a 500 reply carrying the error's text; a 500 reply
    /// for a contained fault.
    pub fn finish(&self, outcome: Outcome) -> (r: Json)
        ensures
            r@ == outcome_reply(self.platform, outcome),
    {
        match &outcome {
            Outcome::Success(resp) => self.success_reply(resp),
            Outcome::Failure(e) => {
                let mut text = "Error: ".to_owned();
                text.append(e.to_string().as_str());
                assert(text@ =~= "Error: "@ + Error::kind_prefix(e.spec_kind()) + e.spec_message());
                self.error_reply(text)
            },
            Outcome::Fault => self.error_reply("Internal Error: Handler panicked".to_owned()),
        }
    }
}

} // verus!
