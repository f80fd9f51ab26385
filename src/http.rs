//! Plain request/response flavour: endpoints keyed by path and verb.
use vstd::prelude::*;
use vstd::string::StringSliceAdditionalSpecFns;
use vstd::utf8::{decode_utf8, valid_utf8};
use crate::collect::Collector;
use crate::dispatch::{chosen_handler, step_fires, step_used, total_slots, Dispatcher};
use crate::error::HarnessError;
use crate::json::json_bytes;
use crate::respond::{Fixed, Respond};
use crate::text::{copy_bytes, text_eq};

verus! {

/// HTTP verbs that an endpoint may be declared for.
#[derive(Debug, Clone, Copy, PartialEq, Eq, Hash, Structural)]
pub enum Method {
    Get,
    Post,
    Put,
    Patch,
    Delete,
    Head,
    Options,
}

/// The verb as written on the wire.
pub open spec fn method_name(m: Method) -> Seq<char> {
    match m {
        Method::Get => "GET"@,
        Method::Post => "POST"@,
        Method::Put => "PUT"@,
        Method::Patch => "PATCH"@,
        Method::Delete => "DELETE"@,
        Method::Head => "HEAD"@,
        Method::Options => "OPTIONS"@,
    }
}

/// The verb written as `s`; an unknown verb is taken for `GET`.
pub open spec fn method_of_name(s: Seq<char>) -> Method {
    if s == "POST"@ {
        Method::Post
    } else if s == "PUT"@ {
        Method::Put
    } else if s == "PATCH"@ {
        Method::Patch
    } else if s == "DELETE"@ {
        Method::Delete
    } else if s == "HEAD"@ {
        Method::Head
    } else if s == "OPTIONS"@ {
        Method::Options
    } else {
        Method::Get
    }
}

impl Method {
    /// The verb as written on the wire, such as `GET`.
    pub fn as_str(&self) -> (s: &'static str)
        ensures
            s@ == method_name(*self),
    {
        match self {
            Method::Get => "GET",
            Method::Post => "POST",
            Method::Put => "PUT",
            Method::Patch => "PATCH",
            Method::Delete => "DELETE",
            Method::Head => "HEAD",
            Method::Options => "OPTIONS",
        }
    }

    /// The verb written as `name`; an unknown verb is taken for `GET`.
    pub fn from_name(name: &str) -> (m: Method)
        ensures
            m == method_of_name(name@),
    {
        if text_eq(name, "POST") {
            Method::Post
        } else if text_eq(name, "PUT") {
            Method::Put
        } else if text_eq(name, "PATCH") {
            Method::Patch
        } else if text_eq(name, "DELETE") {
            Method::Delete
        } else if text_eq(name, "HEAD") {
            Method::Head
        } else if text_eq(name, "OPTIONS") {
            Method::Options
        } else {
            Method::Get
        }
    }
}

/// Header entries as pairs of texts.
pub open spec fn header_pairs(h: Seq<(String, String)>) -> Seq<(Seq<char>, Seq<char>)> {
    h.map_values(|p: (String, String)| (p.0@, p.1@))
}

/// The value of the last entry named `key`, if any.
pub open spec fn header_value(h: Seq<(Seq<char>, Seq<char>)>, key: Seq<char>) -> Option<Seq<char>>
    decreases h.len(),
{
    if h.len() == 0 {
        None
    } else if h.last().0 == key {
        Some(h.last().1)
    } else {
        header_value(h.drop_last(), key)
    }
}

/// The entries with `key` set to `value`: any earlier entry of that name leaves,
/// the new one comes last.
pub open spec fn with_entry(h: Seq<(Seq<char>, Seq<char>)>, key: Seq<char>, value: Seq<char>) -> Seq<(Seq<char>, Seq<char>)> {
    h.filter(not_named(key)).push((key, value))
}

/// Holds of the entries whose name is not `key`.
pub open spec fn not_named(key: Seq<char>) -> spec_fn((Seq<char>, Seq<char>)) -> bool {
    |p: (Seq<char>, Seq<char>)| p.0 != key
}

/// No two entries share a name.
pub open spec fn distinct_names(h: Seq<(Seq<char>, Seq<char>)>) -> bool {
    forall|i: int, j: int| 0 <= i < j < h.len() ==> #[trigger] h[i].0 != #[trigger] h[j].0
}

proof fn lemma_filter_names(h: Seq<(Seq<char>, Seq<char>)>, key: Seq<char>)
    requires
        distinct_names(h),
    ensures
        distinct_names(h.filter(not_named(key))),
        forall|k: int| 0 <= k < h.filter(not_named(key)).len() ==> #[trigger] h.filter(not_named(key))[k].0 != key,
    decreases h.len(),
{
    let p = not_named(key);
    if h.len() > 0 {
        let rest = h.drop_last();
        let x = h.last();
        assert(distinct_names(rest)) by {
            assert forall|i: int, j: int| 0 <= i < j < rest.len() implies #[trigger] rest[i].0 != #[trigger] rest[j].0 by {
                assert(rest[i] == h[i] && rest[j] == h[j]);
            }
        }
        lemma_filter_names(rest, key);
        assert(rest.push(x) =~= h);
        rest.lemma_filter_push(x, p);
        let f = rest.filter(p);
        if p(x) {
            assert forall|k: int| 0 <= k < f.len() implies #[trigger] f[k].0 != x.0 by {
                assert(f.contains(f[k]));
                rest.lemma_filter_contains_rev(p, f[k]);
                let m = choose|m: int| 0 <= m < rest.len() && rest[m] == f[k];
                assert(h[m] == rest[m]);
                assert(h[m].0 != h[h.len() - 1].0);
            }
            let g = f.push(x);
            assert forall|i: int, j: int| 0 <= i < j < g.len() implies #[trigger] g[i].0 != #[trigger] g[j].0 by {
                if j == g.len() - 1 {
                    assert(g[i] == f[i]);
                } else {
                    assert(g[i] == f[i] && g[j] == f[j]);
                }
            }
        }
    }
}

/// Setting a header keeps the names distinct.
pub proof fn lemma_with_entry_distinct(h: Seq<(Seq<char>, Seq<char>)>, key: Seq<char>, value: Seq<char>)
    requires
        distinct_names(h),
    ensures
        distinct_names(with_entry(h, key, value)),
        header_value(with_entry(h, key, value), key) == Some(value),
{
    lemma_filter_names(h, key);
    let f = h.filter(not_named(key));
    let g = f.push((key, value));
    assert forall|i: int, j: int| 0 <= i < j < g.len() implies #[trigger] g[i].0 != #[trigger] g[j].0 by {
        if j == g.len() - 1 {
            assert(g[i] == f[i]);
        } else {
            assert(g[i] == f[i] && g[j] == f[j]);
        }
    }
}

fn put_header(headers: Vec<(String, String)>, key: &str, value: &str) -> (r: Vec<(String, String)>)
    ensures
        header_pairs(r@) == with_entry(header_pairs(headers@), key@, value@),
{
    let ghost pred = not_named(key@);
    let ghost src = header_pairs(headers@);
    let mut out: Vec<(String, String)> = Vec::new();
    let mut i: usize = 0;
    while i < headers.len()
        invariant
            i <= headers@.len(),
            src == header_pairs(headers@),
            pred == not_named(key@),
            header_pairs(out@) == src.subrange(0, i as int).filter(pred),
        decreases headers@.len() - i,
    {
        let entry = &headers[i];
        assert(src[i as int] == (entry.0@, entry.1@));
        proof {
            src.subrange(0, i as int).lemma_filter_push(src[i as int], pred);
            assert(src.subrange(0, i + 1) =~= src.subrange(0, i as int).push(src[i as int]));
        }
        if !text_eq(entry.0.as_str(), key) {
            let ghost before = out@;
            out.push((entry.0.clone(), entry.1.clone()));
            assert(header_pairs(out@) =~= header_pairs(before).push(src[i as int]));
        }
        assert(header_pairs(out@) == src.subrange(0, i + 1).filter(pred));
        i = i + 1;
    }
    assert(src.subrange(0, i as int) =~= src);
    out.push((key.to_owned(), value.to_owned()));
    assert(header_pairs(out@) =~= with_entry(src, key@, value@));
    out
}

fn find_header<'a>(headers: &'a Vec<(String, String)>, key: &str) -> (r: Option<&'a String>)
    ensures
        r matches Some(v) ==> header_value(header_pairs(headers@), key@) == Some(v@),
        r is None ==> header_value(header_pairs(headers@), key@) is None,
{
    let ghost src = header_pairs(headers@);
    let mut i: usize = headers.len();
    assert(src.subrange(0, i as int) =~= src);
    while i > 0
        invariant
            i <= headers@.len(),
            src == header_pairs(headers@),
            header_value(src, key@) == header_value(src.subrange(0, i as int), key@),
        decreases i,
    {
        assert(src.subrange(0, i as int).drop_last() =~= src.subrange(0, i - 1));
        if text_eq(headers[i - 1].0.as_str(), key) {
            return Some(&headers[i - 1].1);
        }
        i = i - 1;
    }
    None
}

fn copy_headers(headers: &Vec<(String, String)>) -> (r: Vec<(String, String)>)
    ensures
        header_pairs(r@) == header_pairs(headers@),
{
    let mut out: Vec<(String, String)> = Vec::new();
    let mut i: usize = 0;
    while i < headers.len()
        invariant
            i <= headers@.len(),
            header_pairs(out@) == header_pairs(headers@).subrange(0, i as int),
        decreases headers@.len() - i,
    {
        let ghost before = out@;
        out.push((headers[i].0.clone(), headers[i].1.clone()));
        assert(header_pairs(out@) =~= header_pairs(before).push((headers@[i as int].0@, headers@[i as int].1@)));
        assert(header_pairs(out@) =~= header_pairs(headers@).subrange(0, i + 1));
        i = i + 1;
    }
    assert(header_pairs(headers@).subrange(0, i as int) =~= header_pairs(headers@));
    out
}

/// Relies on std::str::from_utf8: it succeeds exactly on well-formed UTF-8, and
/// then the text holds the decoded characters.
#[verifier::external_body]
fn utf8_text(bytes: &[u8]) -> (r: Option<&str>)
    ensures
        r is Some <==> valid_utf8(bytes@),
        r matches Some(s) ==> s@ == decode_utf8(bytes@),
{
    std::str::from_utf8(bytes).ok()
}

/// A request as received by the harness.
#[derive(Debug, Clone)]
pub struct Request {
    pub method: Method,
    pub path: String,
    pub headers: Vec<(String, String)>,
    pub body: Vec<u8>,
}

impl Request {
    pub fn new(method: Method, path: &str) -> (r: Request)
        ensures
            r.method == method,
            r.path@ == path@,
            r.headers@.len() == 0,
            r.body@.len() == 0,
    {
        Request { method, path: path.to_owned(), headers: Vec::new(), body: Vec::new() }
    }

    /// Sets a header, replacing any entry of the same name.
    pub fn with_header(self, key: &str, value: &str) -> (r: Request)
        ensures
            r.method == self.method,
            r.path == self.path,
            r.body == self.body,
            header_pairs(r.headers@) == with_entry(header_pairs(self.headers@), key@, value@),
            header_value(header_pairs(r.headers@), key@) == Some(value@),
            distinct_names(header_pairs(self.headers@)) ==> distinct_names(header_pairs(r.headers@)),
    {
        proof {
            if distinct_names(header_pairs(self.headers@)) {
                lemma_with_entry_distinct(header_pairs(self.headers@), key@, value@);
            }
        }
        let Request { method, path, headers, body } = self;
        Request { method, path, headers: put_header(headers, key, value), body }
    }

    pub fn with_body(self, body: &[u8]) -> (r: Request)
        ensures
            r.method == self.method,
            r.path == self.path,
            r.headers == self.headers,
            r.body@ == body@,
    {
        let Request { method, path, headers, body: _ } = self;
        Request { method, path, headers, body: copy_bytes(body) }
    }

    /// The request as plain values: verb, path, header entries, body.
    pub open spec fn view(&self) -> (Method, Seq<char>, Seq<(Seq<char>, Seq<char>)>, Seq<u8>) {
        (self.method, self.path@, header_pairs(self.headers@), self.body@)
    }

    /// A copy with the same verb, path, headers and body.
    pub fn duplicate(&self) -> (r: Request)
        ensures
            r.view() == self.view(),
    {
        Request {
            method: self.method,
            path: self.path.clone(),
            headers: copy_headers(&self.headers),
            body: copy_bytes(self.body.as_slice()),
        }
    }

    /// The body as text, when it is well-formed UTF-8.
    pub fn body_as_str(&self) -> (r: Option<&str>)
        ensures
            r is Some <==> valid_utf8(self.body@),
            r matches Some(s) ==> s@ == decode_utf8(self.body@),
    {
        utf8_text(self.body.as_slice())
    }

    /// The value of the header named `key`, if it was given.
    pub fn header(&self, key: &str) -> (r: Option<&String>)
        ensures
            r matches Some(v) ==> header_value(header_pairs(self.headers@), key@) == Some(v@),
            r is None ==> header_value(header_pairs(self.headers@), key@) is None,
    {
        find_header(&self.headers, key)
    }
}

/// A response that the harness sends back.
#[derive(Debug, Clone)]
pub struct Response {
    pub status: u16,
    pub headers: Vec<(String, String)>,
    pub body: Vec<u8>,
}

impl Response {
    /// The response as plain values: status, header entries, body.
    pub open spec fn view(&self) -> (u16, Seq<(Seq<char>, Seq<char>)>, Seq<u8>) {
        (self.status, header_pairs(self.headers@), self.body@)
    }

    pub fn new(status: u16) -> (r: Response)
        ensures
            r.status == status,
            r.headers@.len() == 0,
            r.body@.len() == 0,
    {
        Response { status, headers: Vec::new(), body: Vec::new() }
    }

    pub fn ok() -> (r: Response)
        ensures
            r.status == 200,
            r.headers@.len() == 0,
            r.body@.len() == 0,
    {
        Response::new(200)
    }

    pub fn created() -> (r: Response)
        ensures
            r.status == 201,
            r.headers@.len() == 0,
            r.body@.len() == 0,
    {
        Response::new(201)
    }

    pub fn not_found() -> (r: Response)
        ensures
            r.status == 404,
            r.headers@.len() == 0,
            r.body@.len() == 0,
    {
        Response::new(404)
    }

    pub fn internal_error() -> (r: Response)
        ensures
            r.status == 500,
            r.headers@.len() == 0,
            r.body@.len() == 0,
    {
        Response::new(500)
    }

    /// Sets a header, replacing any entry of the same name.
    pub fn with_header(self, key: &str, value: &str) -> (r: Response)
        ensures
            r.status == self.status,
            r.body == self.body,
            header_pairs(r.headers@) == with_entry(header_pairs(self.headers@), key@, value@),
            header_value(header_pairs(r.headers@), key@) == Some(value@),
            distinct_names(header_pairs(self.headers@)) ==> distinct_names(header_pairs(r.headers@)),
    {
        proof {
            if distinct_names(header_pairs(self.headers@)) {
                lemma_with_entry_distinct(header_pairs(self.headers@), key@, value@);
            }
        }
        let Response { status, headers, body } = self;
        Response { status, headers: put_header(headers, key, value), body }
    }

    pub fn with_body(self, body: &[u8]) -> (r: Response)
        ensures
            r.status == self.status,
            r.headers == self.headers,
            r.body@ == body@,
    {
        let Response { status, headers, body: _ } = self;
        Response { status, headers, body: copy_bytes(body) }
    }

    /// Sets the body to the JSON text of `value`, marked as JSON.
    pub fn with_json(self, value: &serde_json::Value) -> (r: Response)
        ensures
            r.status == self.status,
            header_pairs(r.headers@) == with_entry(
                header_pairs(self.headers@),
                "content-type"@,
                "application/json"@,
            ),
    {
        let Response { status, headers, body: _ } = self;
        Response {
            status,
            headers: put_header(headers, "content-type", "application/json"),
            body: json_bytes(value),
        }
    }

    /// The value of the header named `key`, if it was set.
    pub fn header(&self, key: &str) -> (r: Option<&String>)
        ensures
            r matches Some(v) ==> header_value(header_pairs(self.headers@), key@) == Some(v@),
            r is None ==> header_value(header_pairs(self.headers@), key@) is None,
    {
        find_header(&self.headers, key)
    }

    /// A copy with the same status, headers and body.
    pub fn duplicate(&self) -> (r: Response)
        ensures
            r.view() == self.view(),
    {
        Response {
            status: self.status,
            headers: copy_headers(&self.headers),
            body: copy_bytes(self.body.as_slice()),
        }
    }
}

impl Default for Response {
    fn default() -> (r: Response)
        ensures
            r.status == 200,
            r.headers@.len() == 0,
            r.body@.len() == 0,
    {
        Response::ok()
    }
}

/// Answers a request: with a fixed response, or with one computed from the
/// request.
#[derive(Debug, Clone)]
pub enum Handler<F = Fixed> {
    Static(Response),
    Dynamic(F),
}

impl Respond<Request, Response> for Fixed {
    open spec fn accepts(&self, ctx: &Request) -> bool {
        true
    }

    open spec fn gives(&self, ctx: &Request, out: &Response) -> bool {
        true
    }

    fn respond(&self, ctx: &Request) -> (out: Response) {
        Response::ok()
    }
}

/// A dynamic behaviour that answers every request with `status` and the
/// request's own body.
#[derive(Debug, Clone, Copy)]
pub struct EchoBody {
    pub status: u16,
}

impl Respond<Request, Response> for EchoBody {
    open spec fn accepts(&self, ctx: &Request) -> bool {
        true
    }

    open spec fn gives(&self, ctx: &Request, out: &Response) -> bool {
        out.status == self.status && out.headers@.len() == 0 && out.body@ == ctx.body@
    }

    fn respond(&self, ctx: &Request) -> (out: Response) {
        Response::new(self.status).with_body(ctx.body.as_slice())
    }
}

impl<F> Handler<F> {
    pub fn new(response: Response) -> (h: Self)
        ensures
            h == Handler::<F>::Static(response),
    {
        Handler::Static(response)
    }

    pub fn dynamic(f: F) -> (h: Self)
        ensures
            h == Handler::<F>::Dynamic(f),
    {
        Handler::Dynamic(f)
    }

    /// A fixed `200` response whose body is the JSON text of `value`.
    pub fn from_json(value: &serde_json::Value) -> (h: Self)
        ensures
            h matches Handler::Static(r) && r.status == 200 && header_pairs(r.headers@) == seq![
                ("content-type"@, "application/json"@),
            ],
    {
        let r = Response::ok().with_json(value);
        assert(header_pairs(Seq::<(String, String)>::empty()) =~= Seq::empty());
        assert(Seq::<(Seq<char>, Seq<char>)>::empty().filter(not_named("content-type"@)) =~= Seq::empty());
        assert(header_pairs(r.headers@) =~= seq![("content-type"@, "application/json"@)]);
        Handler::Static(r)
    }

    /// Sets the status of a fixed response; a dynamic handler is left as it is.
    pub fn with_status(self, status: u16) -> (h: Self)
        ensures
            match self {
                Handler::Static(r) => h == Handler::<F>::Static(Response { status, ..r }),
                Handler::Dynamic(f) => h == Handler::<F>::Dynamic(f),
            },
    {
        match self {
            Handler::Static(mut response) => {
                response.status = status;
                Handler::Static(response)
            },
            Handler::Dynamic(f) => Handler::Dynamic(f),
        }
    }

    /// Sets a header of a fixed response; a dynamic handler is left as it is.
    pub fn with_header(self, key: &str, value: &str) -> (h: Self)
        ensures
            match self {
                Handler::Static(r) => h matches Handler::Static(n) && n.status == r.status && n.body == r.body
                    && header_pairs(n.headers@) == with_entry(header_pairs(r.headers@), key@, value@),
                Handler::Dynamic(f) => h == Handler::<F>::Dynamic(f),
            },
    {
        match self {
            Handler::Static(response) => Handler::Static(response.with_header(key, value)),
            Handler::Dynamic(f) => Handler::Dynamic(f),
        }
    }

    /// The fixed response, or a plain `200` for a dynamic handler.
    pub fn response(&self) -> (r: Response)
        ensures
            match self {
                Handler::Static(s) => r.view() == s.view(),
                Handler::Dynamic(_) => r.status == 200 && r.headers@.len() == 0 && r.body@.len() == 0,
            },
    {
        match self {
            Handler::Static(response) => response.duplicate(),
            Handler::Dynamic(_) => Response::new(200),
        }
    }
}

impl<F: Respond<Request, Response>> Handler<F> {
    /// The handler may be asked to answer `request`.
    pub open spec fn accepts(&self, request: &Request) -> bool {
        match self {
            Handler::Static(_) => true,
            Handler::Dynamic(f) => f.accepts(request),
        }
    }

    /// `out` is an answer of this handler to `request`: a copy of the fixed
    /// response, or what the dynamic behaviour gives.
    pub open spec fn answers(&self, request: &Request, out: &Response) -> bool {
        match self {
            Handler::Static(r) => out.view() == r.view(),
            Handler::Dynamic(f) => f.gives(request, out),
        }
    }

    pub fn respond(&self, request: &Request) -> (out: Response)
        requires
            self.accepts(request),
        ensures
            self.answers(request, &out),
    {
        match self {
            Handler::Static(response) => response.duplicate(),
            Handler::Dynamic(f) => f.respond(request),
        }
    }
}

impl<F> From<Response> for Handler<F> {
    fn from(response: Response) -> (h: Self) {
        Handler::Static(response)
    }
}

impl<F> vstd::std_specs::convert::FromSpecImpl<Response> for Handler<F> {
    open spec fn obeys_from_spec() -> bool {
        true
    }

    open spec fn from_spec(response: Response) -> Self {
        Handler::Static(response)
    }
}

/// A declared route: a path pattern and a verb, with the handlers that answer
/// its calls in turn.
#[derive(Debug, Clone)]
pub struct Endpoint<F = Fixed> {
    pub path: String,
    pub method: Method,
    pub handlers: Vec<Handler<F>>,
}

impl<F> Endpoint<F> {
    pub fn new(path: &str, method: Method) -> (e: Self)
        ensures
            e.path@ == path@,
            e.method == method,
            e.handlers@.len() == 0,
    {
        Endpoint { path: path.to_owned(), method, handlers: Vec::new() }
    }

    pub fn with_handler(self, handler: Handler<F>) -> (e: Self)
        ensures
            e.path == self.path,
            e.method == self.method,
            e.handlers@ == self.handlers@.push(handler),
    {
        let Endpoint { path, method, mut handlers } = self;
        handlers.push(handler);
        Endpoint { path, method, handlers }
    }

    pub fn with_handlers(self, more: Vec<Handler<F>>) -> (e: Self)
        ensures
            e.path == self.path,
            e.method == self.method,
            e.handlers@ == self.handlers@ + more@,
    {
        let Endpoint { path, method, mut handlers } = self;
        let mut more = more;
        handlers.append(&mut more);
        Endpoint { path, method, handlers }
    }
}

/// No two endpoints share both path and verb.
pub open spec fn distinct_routes<F>(eps: Seq<Endpoint<F>>) -> bool {
    forall|i: int, j: int|
        0 <= i < j < eps.len() ==> !(#[trigger] eps[i].path@ == #[trigger] eps[j].path@ && eps[i].method
            == eps[j].method)
}

/// Number of handlers of each endpoint.
pub open spec fn endpoint_counts<F>(eps: Seq<Endpoint<F>>) -> Seq<nat> {
    eps.map_values(|e: Endpoint<F>| e.handlers@.len())
}

/// The answer to one request, and whether the run is now complete.
#[derive(Debug)]
pub struct Reply {
    pub response: Response,
    pub fires: bool,
}

/// The state of a run: the handlers of each endpoint and the accounting of
/// their use.
pub struct HttpRun<F> {
    handlers: Vec<Vec<Handler<F>>>,
    dispatcher: Dispatcher,
}

/// The response when the route has no handler.
pub open spec fn unanswered(out: &Response) -> bool {
    out.status == 404 && out.body@ == "No handler configured".spec_bytes()
}

impl<F: Respond<Request, Response>> HttpRun<F> {
    /// The handlers of each route.
    pub closed spec fn routes(&self) -> Seq<Seq<Handler<F>>> {
        self.handlers@.map_values(|v: Vec<Handler<F>>| v@)
    }

    /// Used slots of each route.
    pub closed spec fn used(&self) -> Seq<nat> {
        self.dispatcher.used()
    }

    pub open spec fn counts(&self) -> Seq<nat> {
        self.routes().map_values(|hs: Seq<Handler<F>>| hs.len())
    }

    pub closed spec fn wf(&self) -> bool {
        &&& self.dispatcher.wf()
        &&& self.dispatcher.counts() == self.counts()
        &&& self.dispatcher.used().len() == self.counts().len()
    }

    /// The run is complete: every slot of every route has been used.
    pub open spec fn complete(&self) -> bool {
        crate::dispatch::sum(self.used()) == total_slots(self.counts())
    }

    /// Starts a run over `endpoints`, returning it with the path and verb of
    /// each route in declaration order. Fails on a repeated path and verb, and
    /// when the number of slots does not fit in a `usize`.
    pub fn start(endpoints: Vec<Endpoint<F>>) -> (r: Result<(HttpRun<F>, Vec<(String, Method)>), HarnessError>)
        ensures
            r is Ok <==> distinct_routes(endpoints@) && total_slots(endpoint_counts(endpoints@)) <= usize::MAX,
            r matches Ok((run, keys)) ==> {
                &&& run.wf()
                &&& run.routes() == endpoints@.map_values(|e: Endpoint<F>| e.handlers@)
                &&& run.used() == Seq::new(endpoints@.len(), |i: int| 0nat)
                &&& keys@.len() == endpoints@.len()
                &&& forall|i: int| 0 <= i < keys@.len() ==> (#[trigger] keys@[i]).0@ == endpoints@[i].path@ && keys@[i].1 == endpoints@[i].method
            },
            r matches Err(e) ==> e is ConfigurationError,
    {
        let n = endpoints.len();
        let mut i: usize = 0;
        while i < n
            invariant
                n == endpoints@.len(),
                i <= n,
                forall|a: int, b: int| 0 <= a < b < n && a < i ==> !(#[trigger] endpoints@[a].path@ == #[trigger] endpoints@[b].path@ && endpoints@[a].method == endpoints@[b].method),
            decreases n - i,
        {
            let mut j: usize = i + 1;
            while j < n
                invariant
                    n == endpoints@.len(),
                    i < n,
                    i + 1 <= j <= n,
                    forall|a: int, b: int| 0 <= a < b < n && a < i ==> !(#[trigger] endpoints@[a].path@ == #[trigger] endpoints@[b].path@ && endpoints@[a].method == endpoints@[b].method),
                    forall|b: int| i < b < j ==> !(endpoints@[i as int].path@ == #[trigger] endpoints@[b].path@ && endpoints@[i as int].method == endpoints@[b].method),
                decreases n - j,
            {
                if text_eq(endpoints[i].path.as_str(), endpoints[j].path.as_str()) && endpoints[i].method == endpoints[j].method {
                    return Err(HarnessError::ConfigurationError("duplicate endpoint".to_owned()));
                }
                j = j + 1;
            }
            i = i + 1;
        }
        let mut counts: Vec<usize> = Vec::new();
        let mut k: usize = 0;
        while k < n
            invariant
                n == endpoints@.len(),
                k <= n,
                counts@.len() == k,
                forall|a: int| 0 <= a < k ==> #[trigger] counts@[a] as nat == endpoints@[a].handlers@.len(),
            decreases n - k,
        {
            counts.push(endpoints[k].handlers.len());
            k = k + 1;
        }
        assert(counts@.map_values(|h: usize| h as nat) =~= endpoint_counts(endpoints@));
        let dispatcher = match Dispatcher::new(&counts) {
            Some(d) => d,
            None => {
                return Err(HarnessError::ConfigurationError("too many handler slots".to_owned()));
            },
        };
        let mut handlers: Vec<Vec<Handler<F>>> = Vec::new();
        let mut keys: Vec<(String, Method)> = Vec::new();
        let mut rest = endpoints;
        let ghost all = rest@;
        let mut m: usize = 0;
        while m < n
            invariant
                n == all.len(),
                m <= n,
                rest@ == all.subrange(m as int, n as int),
                handlers@.len() == m,
                keys@.len() == m,
                forall|a: int| 0 <= a < m ==> (#[trigger] handlers@[a])@ == all[a].handlers@,
                forall|a: int| 0 <= a < m ==> (#[trigger] keys@[a]).0@ == all[a].path@ && keys@[a].1 == all[a].method,
            decreases n - m,
        {
            let e = rest.remove(0);
            assert(e == all[m as int]);
            assert(rest@ =~= all.subrange(m + 1, n as int));
            keys.push((e.path, e.method));
            handlers.push(e.handlers);
            m = m + 1;
        }
        let run = HttpRun { handlers, dispatcher };
        assert(run.routes() =~= all.map_values(|e: Endpoint<F>| e.handlers@));
        assert(run.counts() =~= endpoint_counts(all));
        Ok((run, keys))
    }

    pub fn is_complete(&self) -> (r: bool)
        requires
            self.wf(),
        ensures
            r == self.complete(),
    {
        self.dispatcher.is_complete()
    }

    /// Serves one request to the route at position `route`: first hands a copy
    /// of the request to the collector, then uses a slot of the route while one
    /// is left and answers with the handler whose turn it is.
    pub fn handle<C: Collector<Request>>(&mut self, collector: &mut C, route: usize, request: Request) -> (reply: Reply)
        requires
            old(self).wf(),
            route < old(self).counts().len(),
            forall|j: int| 0 <= j < old(self).routes()[route as int].len() ==> (#[trigger] old(self).routes()[route as int][j]).accepts(&request),
        ensures
            old(self).used().len() == old(self).counts().len(),
            final(self).used().len() == final(self).counts().len(),
            final(self).wf(),
            final(self).routes() == old(self).routes(),
            final(self).used() == old(self).used().update(
                route as int,
                step_used(old(self).used()[route as int], old(self).counts()[route as int]),
            ),
            final(collector).recorded().len() == old(collector).recorded().len() + 1,
            final(collector).recorded().drop_last() == old(collector).recorded(),
            final(collector).recorded().last().view() == request.view(),
            match chosen_handler(old(self).used()[route as int], old(self).counts()[route as int]) {
                Some(i) => old(self).routes()[route as int][i as int].answers(&request, &reply.response),
                None => unanswered(&reply.response),
            },
            reply.fires == step_fires(old(self).counts(), old(self).used(), route as int),
            reply.fires == (final(self).complete() && !old(self).complete()),
    {
        collector.collect(request.duplicate());
        assert(self.handlers@[route as int]@ == self.routes()[route as int]);
        let d = self.dispatcher.dispatch(route);
        let response = match d.handler {
            Some(i) => self.handlers[route][i].respond(&request),
            None => {
                Response::new(404).with_body("No handler configured".as_bytes())
            },
        };
        Reply { response, fires: d.fires }
    }
}

/// Collects the server, collector and endpoints of a scenario.
pub type ScenarioBuilder<S = (), C = (), F = Fixed> = crate::scenario::ScenarioBuilder<S, C, Endpoint<F>>;

/// A scenario over endpoints, ready to run.
pub type Scenario<S, C, F = Fixed> = crate::scenario::Scenario<S, C, Endpoint<F>>;

impl<S, C, F> crate::scenario::ScenarioBuilder<S, C, Endpoint<F>> {
    /// Declares one more endpoint.
    pub fn endpoint(self, endpoint: Endpoint<F>) -> (b: Self)
        ensures
            b.server_part() == self.server_part(),
            b.collector_part() == self.collector_part(),
            b.declared() == self.declared().push(endpoint),
    {
        self.route(endpoint)
    }

    /// Declares several more endpoints, in order.
    pub fn endpoints(self, endpoints: Vec<Endpoint<F>>) -> (b: Self)
        ensures
            b.server_part() == self.server_part(),
            b.collector_part() == self.collector_part(),
            b.declared() == self.declared() + endpoints@,
    {
        self.routes(endpoints)
    }
}

} // verus!
