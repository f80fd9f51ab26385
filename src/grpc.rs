//! Multi-method service flavour: routes keyed by `/service/method`, messages
//! carried as length-prefixed frames.
use vstd::prelude::*;
use vstd::string::StringExecFns;
use crate::collect::Collector;
use crate::dispatch::{chosen_handler, step_fires, step_used, total_slots, Dispatcher};
use crate::error::HarnessError;
use crate::respond::{Fixed, Respond};
use crate::text::{copy_bytes, text_eq};

verus! {

/// A message (request or response) as raw bytes.
#[derive(Debug, Clone)]
pub struct Message {
    pub data: Vec<u8>,
}

impl Message {
    pub fn new(data: Vec<u8>) -> (m: Message)
        ensures
            m.data == data,
    {
        Message { data }
    }

    pub fn empty() -> (m: Message)
        ensures
            m.data@.len() == 0,
    {
        Message { data: Vec::new() }
    }

    pub fn is_empty(&self) -> (r: bool)
        ensures
            r == (self.data@.len() == 0),
    {
        self.data.len() == 0
    }

    /// A copy holding the same bytes.
    pub fn duplicate(&self) -> (m: Message)
        ensures
            m.data@ == self.data@,
    {
        Message { data: copy_bytes(self.data.as_slice()) }
    }
}

impl From<Vec<u8>> for Message {
    fn from(data: Vec<u8>) -> (m: Message) {
        Message { data }
    }
}

impl vstd::std_specs::convert::FromSpecImpl<Vec<u8>> for Message {
    open spec fn obeys_from_spec() -> bool {
        true
    }

    open spec fn from_spec(data: Vec<u8>) -> Message {
        Message { data }
    }
}

impl From<Message> for Vec<u8> {
    fn from(m: Message) -> (v: Vec<u8>) {
        m.data
    }
}

impl vstd::std_specs::convert::FromSpecImpl<Message> for Vec<u8> {
    open spec fn obeys_from_spec() -> bool {
        true
    }

    open spec fn from_spec(m: Message) -> Vec<u8> {
        m.data
    }
}

/// What a dynamic handler sees of a call.
#[derive(Debug, Clone)]
pub struct RequestContext {
    pub service: String,
    pub method: String,
    pub message: Message,
}

impl RequestContext {
    pub fn new(service: &str, method: &str, message: Message) -> (c: RequestContext)
        ensures
            c.service@ == service@,
            c.method@ == method@,
            c.message == message,
    {
        RequestContext { service: service.to_owned(), method: method.to_owned(), message }
    }
}

/// A call as recorded by the collector.
#[derive(Debug, Clone)]
pub struct CollectedRequest {
    pub service: String,
    pub method: String,
    pub message: Message,
}

impl CollectedRequest {
    pub fn new(service: &str, method: &str, message: Message) -> (c: CollectedRequest)
        ensures
            c.service@ == service@,
            c.method@ == method@,
            c.message == message,
    {
        CollectedRequest { service: service.to_owned(), method: method.to_owned(), message }
    }
}

/// Answers a call: with a fixed message, or with one computed from the call.
#[derive(Debug, Clone)]
pub enum Handler<F = Fixed> {
    Static(Message),
    Dynamic(F),
}

impl Respond<RequestContext, Message> for Fixed {
    open spec fn accepts(&self, ctx: &RequestContext) -> bool {
        true
    }

    open spec fn gives(&self, ctx: &RequestContext, out: &Message) -> bool {
        true
    }

    fn respond(&self, ctx: &RequestContext) -> (out: Message) {
        Message::empty()
    }
}

impl<F> Handler<F> {
    pub fn new(message: Message) -> (h: Self)
        ensures
            h == Handler::<F>::Static(message),
    {
        Handler::Static(message)
    }

    pub fn dynamic(f: F) -> (h: Self)
        ensures
            h == Handler::<F>::Dynamic(f),
    {
        Handler::Dynamic(f)
    }

    /// A fixed message holding `data`.
    pub fn from_bytes(data: Vec<u8>) -> (h: Self)
        ensures
            h matches Handler::Static(m) && m.data == data,
    {
        Handler::Static(Message::new(data))
    }

    /// A copy of the fixed message, or an empty message for a dynamic handler.
    pub fn response(&self) -> (m: Message)
        ensures
            match self {
                Handler::Static(s) => m.data@ == s.data@,
                Handler::Dynamic(_) => m.data@.len() == 0,
            },
    {
        match self {
            Handler::Static(message) => message.duplicate(),
            Handler::Dynamic(_) => Message::empty(),
        }
    }

    /// The fixed message, or an empty message for a dynamic handler.
    pub fn into_response(self) -> (m: Message)
        ensures
            match self {
                Handler::Static(s) => m == s,
                Handler::Dynamic(_) => m.data@.len() == 0,
            },
    {
        match self {
            Handler::Static(message) => message,
            Handler::Dynamic(_) => Message::empty(),
        }
    }
}

impl<F: Respond<RequestContext, Message>> Handler<F> {
    pub open spec fn accepts(&self, ctx: &RequestContext) -> bool {
        match self {
            Handler::Static(_) => true,
            Handler::Dynamic(f) => f.accepts(ctx),
        }
    }

    /// `out` is an answer of this handler to `ctx`: a copy of the fixed
    /// message, or what the dynamic behaviour gives.
    pub open spec fn answers(&self, ctx: &RequestContext, out: &Message) -> bool {
        match self {
            Handler::Static(m) => out.data@ == m.data@,
            Handler::Dynamic(f) => f.gives(ctx, out),
        }
    }

    pub fn respond(&self, ctx: &RequestContext) -> (out: Message)
        requires
            self.accepts(ctx),
        ensures
            self.answers(ctx, &out),
    {
        match self {
            Handler::Static(message) => message.duplicate(),
            Handler::Dynamic(f) => f.respond(ctx),
        }
    }
}

impl<F> From<Message> for Handler<F> {
    fn from(message: Message) -> (h: Self) {
        Handler::Static(message)
    }
}

impl<F> vstd::std_specs::convert::FromSpecImpl<Message> for Handler<F> {
    open spec fn obeys_from_spec() -> bool {
        true
    }

    open spec fn from_spec(message: Message) -> Self {
        Handler::Static(message)
    }
}

/// A dynamic behaviour that answers every call with `prefix` followed by the
/// call's own payload.
#[derive(Debug, Clone)]
pub struct Echo {
    pub prefix: Vec<u8>,
}

impl Echo {
    pub fn new(prefix: Vec<u8>) -> (e: Echo)
        ensures
            e.prefix == prefix,
    {
        Echo { prefix }
    }
}

impl Respond<RequestContext, Message> for Echo {
    open spec fn accepts(&self, ctx: &RequestContext) -> bool {
        true
    }

    open spec fn gives(&self, ctx: &RequestContext, out: &Message) -> bool {
        out.data@ == self.prefix@ + ctx.message.data@
    }

    fn respond(&self, ctx: &RequestContext) -> (out: Message) {
        let mut data = copy_bytes(self.prefix.as_slice());
        let mut i: usize = 0;
        while i < ctx.message.data.len()
            invariant
                i <= ctx.message.data@.len(),
                data@ == self.prefix@ + ctx.message.data@.subrange(0, i as int),
            decreases ctx.message.data@.len() - i,
        {
            data.push(ctx.message.data[i]);
            assert(data@ =~= self.prefix@ + ctx.message.data@.subrange(0, i + 1));
            i = i + 1;
        }
        assert(ctx.message.data@.subrange(0, i as int) =~= ctx.message.data@);
        Message { data }
    }
}

/// Echoing is reproducible and a round trip: an echo handler accepts every
/// call, and any two of its answers to the same context hold the same bytes,
/// the prefix followed by the context's payload.
pub proof fn lemma_echo_round_trip(h: Handler<Echo>, ctx: &RequestContext, a: Message, b: Message)
    requires
        h is Dynamic,
        h.answers(ctx, &a),
        h.answers(ctx, &b),
    ensures
        forall|c: RequestContext| #[trigger] h.accepts(&c),
        a.data@ == b.data@,
        a.data@ == h->Dynamic_0.prefix@ + ctx.message.data@,
{
}

/// Every handler of a run whose dynamic behaviour is `Echo` accepts every
/// call: such a run meets the precondition of `GrpcRun::handle`.
pub proof fn lemma_echo_run_accepts(run: &GrpcRun<Echo>)
    ensures
        forall|r: int, j: int, ctx: RequestContext|
            0 <= r < run.routes().len() && 0 <= j < run.routes()[r].len() ==> #[trigger] run.routes()[r][j].accepts(&ctx),
{
}

/// A method of a service, with the handlers that answer its calls in turn.
#[derive(Debug, Clone)]
pub struct Method<F = Fixed> {
    pub name: String,
    pub handlers: Vec<Handler<F>>,
}

impl<F> Method<F> {
    pub fn new(name: &str) -> (m: Self)
        ensures
            m.name@ == name@,
            m.handlers@.len() == 0,
    {
        Method { name: name.to_owned(), handlers: Vec::new() }
    }

    pub fn with_handler(self, handler: Handler<F>) -> (m: Self)
        ensures
            m.name == self.name,
            m.handlers@ == self.handlers@.push(handler),
    {
        let Method { name, mut handlers } = self;
        handlers.push(handler);
        Method { name, handlers }
    }

    pub fn with_handlers(self, more: Vec<Handler<F>>) -> (m: Self)
        ensures
            m.name == self.name,
            m.handlers@ == self.handlers@ + more@,
    {
        let Method { name, mut handlers } = self;
        let mut more = more;
        handlers.append(&mut more);
        Method { name, handlers }
    }
}

/// A service: a name and its methods.
#[derive(Debug, Clone)]
pub struct Service<F = Fixed> {
    pub name: String,
    pub methods: Vec<Method<F>>,
}

impl<F> Service<F> {
    pub fn new(name: &str) -> (s: Self)
        ensures
            s.name@ == name@,
            s.methods@.len() == 0,
    {
        Service { name: name.to_owned(), methods: Vec::new() }
    }

    pub fn with_method(self, method: Method<F>) -> (s: Self)
        ensures
            s.name == self.name,
            s.methods@ == self.methods@.push(method),
    {
        let Service { name, mut methods } = self;
        methods.push(method);
        Service { name, methods }
    }

    pub fn with_methods(self, more: Vec<Method<F>>) -> (s: Self)
        ensures
            s.name == self.name,
            s.methods@ == self.methods@ + more@,
    {
        let Service { name, mut methods } = self;
        let mut more = more;
        methods.append(&mut more);
        Service { name, methods }
    }
}

/// The request path of a method: `/service/method`.
pub open spec fn route_path(service: Seq<char>, method: Seq<char>) -> Seq<char> {
    "/"@ + service + "/"@ + method
}

pub fn path_of(service: &str, method: &str) -> (p: String)
    ensures
        p@ == route_path(service@, method@),
{
    let mut p = "/".to_owned();
    p.append(service);
    p.append("/");
    p.append(method);
    p
}

/// The message carried by a request body: what follows the one-byte
/// compression flag and the four-byte length; nothing when the body holds no
/// byte after them.
pub open spec fn frame_payload(body: Seq<u8>) -> Seq<u8> {
    if body.len() > 5 {
        body.skip(5)
    } else {
        Seq::empty()
    }
}

/// `n` as four bytes, most significant first.
pub open spec fn be32(n: nat) -> Seq<u8> {
    seq![
        ((n / 16777216) % 256) as u8,
        ((n / 65536) % 256) as u8,
        ((n / 256) % 256) as u8,
        (n % 256) as u8,
    ]
}

/// A response frame: no compression, the length of `data`, then `data`.
pub open spec fn framed(data: Seq<u8>) -> Seq<u8> {
    seq![0u8] + be32(data.len()) + data
}

pub fn unframe(body: &[u8]) -> (m: Vec<u8>)
    ensures
        m@ == frame_payload(body@),
{
    let mut out: Vec<u8> = Vec::new();
    if body.len() > 5 {
        let mut i: usize = 5;
        while i < body.len()
            invariant
                5 <= i <= body@.len(),
                out@ == body@.subrange(5, i as int),
            decreases body@.len() - i,
        {
            out.push(body[i]);
            assert(out@ =~= body@.subrange(5, i + 1));
            i = i + 1;
        }
        assert(body@.subrange(5, i as int) =~= body@.skip(5));
    }
    out
}

pub fn frame(data: &[u8]) -> (f: Vec<u8>)
    requires
        data@.len() <= u32::MAX,
    ensures
        f@ == framed(data@),
{
    let n = data.len() as u32;
    let mut out: Vec<u8> = Vec::new();
    out.push(0u8);
    out.push(((n / 16777216) % 256) as u8);
    out.push(((n / 65536) % 256) as u8);
    out.push(((n / 256) % 256) as u8);
    out.push((n % 256) as u8);
    let mut i: usize = 0;
    while i < data.len()
        invariant
            i <= data@.len(),
            n == data@.len(),
            out@ == seq![0u8] + be32(n as nat) + data@.subrange(0, i as int),
        decreases data@.len() - i,
    {
        out.push(data[i]);
        assert(out@ =~= seq![0u8] + be32(n as nat) + data@.subrange(0, i + 1));
        i = i + 1;
    }
    assert(data@.subrange(0, i as int) =~= data@);
    out
}

/// Outcome of a call as the protocol reports it.
#[derive(Debug, Clone, Copy, PartialEq, Eq, Structural)]
pub enum Status {
    Success,
    Unimplemented,
    Internal,
}

impl Status {
    /// The numeric status code sent to the client.
    pub fn code(&self) -> (c: u8)
        ensures
            c == match self {
                Status::Success => 0u8,
                Status::Unimplemented => 12u8,
                Status::Internal => 13u8,
            },
    {
        match self {
            Status::Success => 0,
            Status::Unimplemented => 12,
            Status::Internal => 13,
        }
    }
}

/// The answer to one call: its status, the response body, and whether the
/// run is now complete.
#[derive(Debug)]
pub struct Reply {
    /// Position of the route that the call matched, if any.
    pub route: Option<usize>,
    /// Position, within the route, of the handler that answered, if any.
    pub handler: Option<usize>,
    pub status: Status,
    pub body: Vec<u8>,
    pub fires: bool,
}

/// No two methods share a request path.
pub open spec fn distinct_paths(paths: Seq<Seq<char>>) -> bool {
    forall|i: int, j: int| 0 <= i < j < paths.len() ==> #[trigger] paths[i] != #[trigger] paths[j]
}

/// A declared method as plain values: service name, method name, handlers.
pub type DeclaredRoute<F> = (Seq<char>, Seq<char>, Seq<Handler<F>>);

/// The methods of one service, in order.
pub open spec fn service_routes<F>(s: Service<F>) -> Seq<DeclaredRoute<F>> {
    s.methods@.map_values(|m: Method<F>| (s.name@, m.name@, m.handlers@))
}

/// The methods of all services, service by service, in declaration order.
pub open spec fn declared_routes<F>(services: Seq<Service<F>>) -> Seq<DeclaredRoute<F>>
    decreases services.len(),
{
    if services.len() == 0 {
        Seq::empty()
    } else {
        declared_routes(services.drop_last()) + service_routes(services.last())
    }
}

/// The request path of each declared method.
pub open spec fn route_paths<F>(d: Seq<DeclaredRoute<F>>) -> Seq<Seq<char>> {
    d.map_values(|x: DeclaredRoute<F>| route_path(x.0, x.1))
}

/// The number of handlers of each declared method.
pub open spec fn route_counts<F>(d: Seq<DeclaredRoute<F>>) -> Seq<nat> {
    d.map_values(|x: DeclaredRoute<F>| x.2.len())
}

/// The state of a run: the path, names and handlers of each method, and the
/// accounting of their use.
pub struct GrpcRun<F> {
    paths: Vec<String>,
    names: Vec<(String, String)>,
    handlers: Vec<Vec<Handler<F>>>,
    dispatcher: Dispatcher,
}

impl<F: Respond<RequestContext, Message>> GrpcRun<F> {
    /// The request path of each route.
    pub closed spec fn paths(&self) -> Seq<Seq<char>> {
        self.paths@.map_values(|p: String| p@)
    }

    /// The service and method name of each route.
    pub closed spec fn names(&self) -> Seq<(Seq<char>, Seq<char>)> {
        self.names@.map_values(|p: (String, String)| (p.0@, p.1@))
    }

    /// The handlers of each route.
    pub closed spec fn routes(&self) -> Seq<Seq<Handler<F>>> {
        self.handlers@.map_values(|v: Vec<Handler<F>>| v@)
    }

    /// Used slots of each route.
    pub closed spec fn used(&self) -> Seq<nat> {
        self.dispatcher.used()
    }

    pub open spec fn counts(&self) -> Seq<nat> {
        self.routes().map_values(|hs: Seq<Handler<F>>| hs.len())
    }

    pub closed spec fn wf(&self) -> bool {
        &&& self.dispatcher.wf()
        &&& self.dispatcher.counts() == self.counts()
        &&& self.dispatcher.used().len() == self.counts().len()
        &&& self.paths@.len() == self.counts().len()
        &&& self.names@.len() == self.counts().len()
        &&& distinct_paths(self.paths())
        &&& forall|r: int| 0 <= r < self.paths@.len() ==> #[trigger] self.paths()[r] == route_path(self.names()[r].0, self.names()[r].1)
    }

    /// The request paths of a well-formed run are distinct: a path names at
    /// most one route.
    pub proof fn lemma_paths_distinct(&self)
        requires
            self.wf(),
        ensures
            distinct_paths(self.paths()),
            self.paths().len() == self.counts().len(),
            self.names().len() == self.counts().len(),
    {
    }

    pub open spec fn complete(&self) -> bool {
        crate::dispatch::sum(self.used()) == total_slots(self.counts())
    }

    /// Starts a run over the methods of `services`, in declaration order.
    /// Fails when two methods share a request path, or when the number of
    /// slots does not fit in a `usize`.
    pub fn start(services: Vec<Service<F>>) -> (r: Result<GrpcRun<F>, HarnessError>)
        ensures
            r is Ok <==> distinct_paths(route_paths(declared_routes(services@)))
                && total_slots(route_counts(declared_routes(services@))) <= usize::MAX,
            r matches Ok(run) ==> {
                &&& run.wf()
                &&& run.names() == declared_routes(services@).map_values(|d: DeclaredRoute<F>| (d.0, d.1))
                &&& run.routes() == declared_routes(services@).map_values(|d: DeclaredRoute<F>| d.2)
                &&& run.paths() == route_paths(declared_routes(services@))
                &&& run.used() == Seq::new(run.counts().len(), |i: int| 0nat)
            },
            r matches Err(e) ==> e is ConfigurationError,
    {
        let ghost all = services@;
        let mut paths: Vec<String> = Vec::new();
        let mut names: Vec<(String, String)> = Vec::new();
        let mut handlers: Vec<Vec<Handler<F>>> = Vec::new();
        let mut counts: Vec<usize> = Vec::new();
        let ghost mut flat: Seq<DeclaredRoute<F>> = Seq::empty();
        let ghost mut k: int = 0;
        let mut pending = services;
        while pending.len() > 0
            invariant
                all == services@,
                0 <= k <= all.len(),
                pending@ == all.subrange(k, all.len() as int),
                flat == declared_routes(all.subrange(0, k)),
                paths@.map_values(|p: String| p@) == route_paths(flat),
                names@.map_values(|p: (String, String)| (p.0@, p.1@)) == flat.map_values(|d: DeclaredRoute<F>| (d.0, d.1)),
                handlers@.map_values(|v: Vec<Handler<F>>| v@) == flat.map_values(|d: DeclaredRoute<F>| d.2),
                counts@.map_values(|c: usize| c as nat) == route_counts(flat),
            decreases pending@.len(),
        {
            let service = pending.remove(0);
            let ghost cur = all[k];
            assert(service == cur);
            let Service { name: service_name, methods } = service;
            let mut methods = methods;
            let ghost mut j: int = 0;
            let ghost base = flat;
            while methods.len() > 0
                invariant
                    all == services@,
                    0 <= j <= cur.methods@.len(),
                    methods@ == cur.methods@.subrange(j, cur.methods@.len() as int),
                    service_name == cur.name,
                    flat == base + service_routes(cur).subrange(0, j),
                    paths@.map_values(|p: String| p@) == route_paths(flat),
                    names@.map_values(|p: (String, String)| (p.0@, p.1@)) == flat.map_values(|d: DeclaredRoute<F>| (d.0, d.1)),
                    handlers@.map_values(|v: Vec<Handler<F>>| v@) == flat.map_values(|d: DeclaredRoute<F>| d.2),
                    counts@.map_values(|c: usize| c as nat) == route_counts(flat),
                decreases methods@.len(),
            {
                let method = methods.remove(0);
                assert(method == cur.methods@[j]);
                let Method { name: method_name, handlers: hs } = method;
                let path = path_of(service_name.as_str(), method_name.as_str());
                let ghost entry: DeclaredRoute<F> = (service_name@, method_name@, hs@);
                assert(service_routes(cur)[j] == entry);
                let ghost pv = paths@;
                let ghost nv = names@;
                let ghost hv = handlers@;
                let ghost cv = counts@;
                counts.push(hs.len());
                handlers.push(hs);
                names.push((service_name.clone(), method_name));
                paths.push(path);
                proof {
                    assert(service_routes(cur).subrange(0, j + 1) =~= service_routes(cur).subrange(0, j).push(entry));
                    flat = flat.push(entry);
                    j = j + 1;
                    assert(paths@.map_values(|p: String| p@) =~= pv.map_values(|p: String| p@).push(route_path(entry.0, entry.1)));
                    assert(route_paths(flat) =~= route_paths(flat.drop_last()).push(route_path(entry.0, entry.1)));
                    assert(names@.map_values(|p: (String, String)| (p.0@, p.1@)) =~= nv.map_values(|p: (String, String)| (p.0@, p.1@)).push((entry.0, entry.1)));
                    assert(flat.map_values(|d: DeclaredRoute<F>| (d.0, d.1)) =~= flat.drop_last().map_values(|d: DeclaredRoute<F>| (d.0, d.1)).push((entry.0, entry.1)));
                    assert(handlers@.map_values(|v: Vec<Handler<F>>| v@) =~= hv.map_values(|v: Vec<Handler<F>>| v@).push(entry.2));
                    assert(flat.map_values(|d: DeclaredRoute<F>| d.2) =~= flat.drop_last().map_values(|d: DeclaredRoute<F>| d.2).push(entry.2));
                    assert(counts@.map_values(|c: usize| c as nat) =~= cv.map_values(|c: usize| c as nat).push(entry.2.len()));
                    assert(route_counts(flat) =~= route_counts(flat.drop_last()).push(entry.2.len()));
                }
            }
            proof {
                assert(service_routes(cur).subrange(0, j) =~= service_routes(cur));
                assert(all.subrange(0, k + 1).drop_last() =~= all.subrange(0, k));
                k = k + 1;
            }
        }
        assert(all.subrange(0, k) =~= all);
        let n = paths.len();
        let ghost pv = paths@.map_values(|p: String| p@);
        assert(pv == route_paths(declared_routes(all)));
        let mut i: usize = 0;
        while i < n
            invariant
                all == services@,
                n == paths@.len(),
                pv == paths@.map_values(|p: String| p@),
                pv == route_paths(declared_routes(all)),
                i <= n,
                forall|a: int, b: int| 0 <= a < b < n && a < i ==> #[trigger] pv[a] != #[trigger] pv[b],
            decreases n - i,
        {
            let mut j: usize = i + 1;
            while j < n
                invariant
                    all == services@,
                    n == paths@.len(),
                    pv == paths@.map_values(|p: String| p@),
                    pv == route_paths(declared_routes(all)),
                    i < n,
                    i + 1 <= j <= n,
                    forall|a: int, b: int| 0 <= a < b < n && a < i ==> #[trigger] pv[a] != #[trigger] pv[b],
                    forall|b: int| i < b < j ==> pv[i as int] != #[trigger] pv[b],
                decreases n - j,
            {
                if text_eq(paths[i].as_str(), paths[j].as_str()) {
                    assert(pv[i as int] == pv[j as int]);
                    assert(route_paths(declared_routes(all))[i as int] == route_paths(declared_routes(all))[j as int]);
                    assert(!distinct_paths(route_paths(declared_routes(all))));
                    return Err(HarnessError::ConfigurationError("duplicate method path".to_owned()));
                }
                j = j + 1;
            }
            i = i + 1;
        }
        let dispatcher = match Dispatcher::new(&counts) {
            Some(d) => d,
            None => {
                return Err(HarnessError::ConfigurationError("too many handler slots".to_owned()));
            },
        };
        let run = GrpcRun { paths, names, handlers, dispatcher };
        assert(run.counts() =~= route_counts(flat));
        assert forall|r: int| 0 <= r < run.paths@.len() implies #[trigger] run.paths()[r] == route_path(run.names()[r].0, run.names()[r].1) by {
            assert(run.paths()[r] == route_paths(flat)[r]);
            assert(run.names()[r] == flat.map_values(|d: DeclaredRoute<F>| (d.0, d.1))[r]);
        }
        Ok(run)
    }

    /// Position of the route whose request path is `path`.
    pub fn lookup(&self, path: &str) -> (r: Option<usize>)
        requires
            self.wf(),
        ensures
            r matches Some(i) ==> i < self.paths().len() && self.paths()[i as int] == path@,
            r is None ==> forall|i: int| 0 <= i < self.paths().len() ==> self.paths()[i] != path@,
    {
        let mut i: usize = 0;
        while i < self.paths.len()
            invariant
                self.wf(),
                i <= self.paths@.len(),
                forall|k: int| 0 <= k < i ==> self.paths()[k] != path@,
            decreases self.paths@.len() - i,
        {
            if text_eq(self.paths[i].as_str(), path) {
                return Some(i);
            }
            i = i + 1;
        }
        None
    }

    pub fn is_complete(&self) -> (r: bool)
        requires
            self.wf(),
        ensures
            r == self.complete(),
    {
        self.dispatcher.is_complete()
    }

    /// Serves one call to `path` with request body `body`. A call to a declared
    /// method is handed to the collector, answered by the handler whose turn it
    /// is, and uses a slot of the route while one is left. A call to any other
    /// path is answered as unimplemented and leaves collector and run as they
    /// were.
    pub fn handle<C: Collector<CollectedRequest>>(&mut self, collector: &mut C, path: &str, body: &[u8]) -> (reply: Reply)
        requires
            old(self).wf(),
            forall|r: int, j: int, ctx: RequestContext| 0 <= r < old(self).routes().len() && 0 <= j < old(self).routes()[r].len() ==> #[trigger] old(self).routes()[r][j].accepts(&ctx),
        ensures
            old(self).used().len() == old(self).counts().len(),
            final(self).used().len() == final(self).counts().len(),
            final(self).wf(),
            final(self).routes() == old(self).routes(),
            final(self).paths() == old(self).paths(),
            final(self).names() == old(self).names(),
            !old(self).paths().contains(path@) ==> {
                &&& reply.status == Status::Unimplemented
                &&& reply.body@.len() == 0
                &&& !reply.fires
                &&& final(self).used() == old(self).used()
                &&& final(collector).recorded() == old(collector).recorded()
            },
            reply.route is None <==> !old(self).paths().contains(path@),
            reply.fires == (final(self).complete() && !old(self).complete()),
            reply.route matches Some(ri) ==> {
                let r = ri as int;
                let u = old(self).used()[r];
                let h = old(self).counts()[r];
                &&& 0 <= r < old(self).paths().len()
                &&& old(self).paths()[r] == path@
                &&& final(self).used() == old(self).used().update(r, step_used(u, h))
                &&& final(collector).recorded().len() == old(collector).recorded().len() + 1
                &&& final(collector).recorded().drop_last() == old(collector).recorded()
                &&& final(collector).recorded().last().service@ == old(self).names()[r].0
                &&& final(collector).recorded().last().method@ == old(self).names()[r].1
                &&& final(collector).recorded().last().message.data@ == frame_payload(body@)
                &&& reply.fires == step_fires(old(self).counts(), old(self).used(), r)
                &&& (reply.handler is None <==> chosen_handler(u, h) is None)
                &&& reply.handler is None ==> reply.status == Status::Success && reply.body@ == framed(Seq::empty())
                &&& reply.handler matches Some(i) ==> {
                    &&& chosen_handler(u, h) == Some(i as nat)
                    &&& exists|out: Message, ctx: RequestContext| {
                        &&& ctx.service@ == old(self).names()[r].0
                        &&& ctx.method@ == old(self).names()[r].1
                        &&& ctx.message.data@ == frame_payload(body@)
                        &&& #[trigger] old(self).routes()[r][i as int].answers(&ctx, &out)
                        &&& if out.data@.len() <= u32::MAX {
                            reply.status == Status::Success && reply.body@ == framed(out.data@)
                        } else {
                            reply.status == Status::Internal && reply.body@.len() == 0
                        }
                    }
                }
            },
    {
        let ghost paths0 = self.paths();
        let ghost routes0 = self.routes();
        let found = self.lookup(path);
        match found {
            None => {
                assert(!paths0.contains(path@));
                Reply { route: None, handler: None, status: Status::Unimplemented, body: Vec::new(), fires: false }
            },
            Some(r) => {
                let payload = unframe(body);
                let service_name = self.names[r].0.as_str();
                let method_name = self.names[r].1.as_str();
                assert(self.names()[r as int] == (self.names@[r as int].0@, self.names@[r as int].1@));
                let ctx = RequestContext::new(service_name, method_name, Message::new(copy_bytes(payload.as_slice())));
                collector.collect(CollectedRequest::new(service_name, method_name, Message::new(payload)));
                assert(self.handlers@[r as int]@ == self.routes()[r as int]);
                let d = self.dispatcher.dispatch(r);
                match d.handler {
                    None => {
                        let empty: Vec<u8> = Vec::new();
                        Reply { route: Some(r), handler: d.handler, status: Status::Success, body: frame(empty.as_slice()), fires: d.fires }
                    },
                    Some(i) => {
                        let out = self.handlers[r][i].respond(&ctx);
                        assert(routes0[r as int][i as int].answers(&ctx, &out));
                        let reply = if out.data.len() <= 4294967295 {
                            Reply { route: Some(r), handler: d.handler, status: Status::Success, body: frame(out.data.as_slice()), fires: d.fires }
                        } else {
                            Reply { route: Some(r), handler: d.handler, status: Status::Internal, body: Vec::new(), fires: d.fires }
                        };
                        reply
                    },
                }
            },
        }
    }
}

/// Collects the server, collector and services of a scenario.
pub type ScenarioBuilder<S = (), C = (), F = Fixed> = crate::scenario::ScenarioBuilder<S, C, Service<F>>;

/// A scenario over services, ready to run.
pub type Scenario<S, C, F = Fixed> = crate::scenario::Scenario<S, C, Service<F>>;

impl<S, C, F> crate::scenario::ScenarioBuilder<S, C, Service<F>> {
    /// Declares one more service.
    pub fn service(self, service: Service<F>) -> (b: Self)
        ensures
            b.server_part() == self.server_part(),
            b.collector_part() == self.collector_part(),
            b.declared() == self.declared().push(service),
    {
        self.route(service)
    }

    /// Declares several more services, in order.
    pub fn services(self, services: Vec<Service<F>>) -> (b: Self)
        ensures
            b.server_part() == self.server_part(),
            b.collector_part() == self.collector_part(),
            b.declared() == self.declared() + services@,
    {
        self.routes(services)
    }
}

} // verus!
