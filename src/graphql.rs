//! Typed-operation flavour: routes keyed by operation type and field name, the
//! fields of a request found by name in its query text.
use vstd::prelude::*;
use crate::collect::Collector;
use crate::dispatch::{chosen_handler, step_used, total_slots, Dispatcher};
use crate::error::HarnessError;
use crate::json::{json_entry, json_null};
use crate::respond::{Fixed, Respond};
use crate::text::{contains, is_prefix, occurs_in, starts_with_after_space, text_eq, trim_start};

verus! {

/// Kind of a GraphQL operation.
#[derive(Debug, Clone, Copy, PartialEq, Eq, Structural)]
pub enum OperationType {
    Query,
    Mutation,
    Subscription,
}

impl OperationType {
    /// The keyword that opens an operation of this kind, such as `query`.
    pub fn as_str(&self) -> (s: &'static str)
        ensures
            s@ == match self {
                OperationType::Query => "query"@,
                OperationType::Mutation => "mutation"@,
                OperationType::Subscription => "subscription"@,
            },
    {
        match self {
            OperationType::Query => "query",
            OperationType::Mutation => "mutation",
            OperationType::Subscription => "subscription",
        }
    }
}

/// An error reported beside the data of a response.
#[derive(Debug, Clone)]
pub struct GraphQLError {
    pub message: String,
    pub path: Option<Vec<String>>,
}

/// Data and errors that a handler answers with.
#[derive(Debug, Clone)]
pub struct HandlerResponse {
    pub data: serde_json::Value,
    pub errors: Option<Vec<GraphQLError>>,
}

/// The error messages of `errors`, absent errors counting as none.
pub open spec fn error_messages(errors: Option<Vec<GraphQLError>>) -> Seq<Seq<char>> {
    match errors {
        Some(v) => v@.map_values(|e: GraphQLError| e.message@),
        None => Seq::empty(),
    }
}

/// An error as plain values: its message, and its path if it has one.
pub open spec fn error_view(e: GraphQLError) -> (Seq<char>, Option<Seq<Seq<char>>>) {
    (e.message@, match e.path {
        Some(p) => Some(p@.map_values(|s: String| s@)),
        None => None,
    })
}

/// The errors as plain values, absent errors staying absent.
pub open spec fn error_views(errors: Option<Vec<GraphQLError>>) -> Option<Seq<(Seq<char>, Option<Seq<Seq<char>>>)>> {
    match errors {
        Some(v) => Some(v@.map_values(|e: GraphQLError| error_view(e))),
        None => None,
    }
}

/// The errors as plain values, absent errors counting as none.
pub open spec fn error_list(errors: Option<Vec<GraphQLError>>) -> Seq<(Seq<char>, Option<Seq<Seq<char>>>)> {
    match errors {
        Some(v) => v@.map_values(|e: GraphQLError| error_view(e)),
        None => Seq::empty(),
    }
}

/// A path as plain values.
pub open spec fn path_view(path: Vec<String>) -> Seq<Seq<char>> {
    path@.map_values(|s: String| s@)
}

fn push_error(errors: Option<Vec<GraphQLError>>, error: GraphQLError) -> (r: Option<Vec<GraphQLError>>)
    ensures
        r matches Some(v) && v@ == match errors {
            Some(w) => w@,
            None => Seq::empty(),
        }.push(error),
{
    let mut v = match errors {
        Some(w) => w,
        None => Vec::new(),
    };
    v.push(error);
    Some(v)
}

impl HandlerResponse {
    pub fn new(data: serde_json::Value) -> (r: HandlerResponse)
        ensures
            r.data == data,
            r.errors is None,
    {
        HandlerResponse { data, errors: None }
    }

    /// Adds an error without a path after those already present.
    pub fn with_error(self, message: &str) -> (r: HandlerResponse)
        ensures
            r.data == self.data,
            r.errors matches Some(v) && v@.len() == match self.errors {
                Some(w) => w@.len() + 1,
                None => 1,
            },
            error_messages(r.errors) == error_messages(self.errors).push(message@),
            r.errors is Some,
            error_list(r.errors) == error_list(self.errors).push((message@, None)),
    {
        let HandlerResponse { data, errors } = self;
        let ghost before = errors;
        let error = GraphQLError { message: message.to_owned(), path: None };
        let errors = push_error(errors, error);
        assert(error_messages(errors) =~= error_messages(before).push(message@));
        assert(error_list(errors) =~= error_list(before).push((message@, None)));
        HandlerResponse { data, errors }
    }
}

/// What a dynamic handler sees of a request.
#[derive(Debug, Clone)]
pub struct RequestContext {
    pub query: String,
    pub operation_name: Option<String>,
    pub variables: Option<serde_json::Value>,
    pub field_name: String,
}

fn copy_name(name: &Option<String>) -> (r: Option<String>)
    ensures
        r == *name,
{
    match name {
        Some(s) => Some(s.clone()),
        None => None,
    }
}

fn copy_variables(v: &Option<serde_json::Value>) -> (r: Option<serde_json::Value>)
    ensures
        r == *v,
{
    match v {
        Some(x) => Some(x.clone()),
        None => None,
    }
}

impl RequestContext {
    pub fn new(field_name: &str) -> (c: RequestContext)
        ensures
            c.field_name@ == field_name@,
            c.query@.len() == 0,
            c.operation_name is None,
            c.variables is None,
    {
        RequestContext { query: String::new(), operation_name: None, variables: None, field_name: field_name.to_owned() }
    }

    pub fn with_query(self, query: &str) -> (c: RequestContext)
        ensures
            c.query@ == query@,
            c.operation_name == self.operation_name,
            c.variables == self.variables,
            c.field_name == self.field_name,
    {
        RequestContext { query: query.to_owned(), ..self }
    }

    pub fn with_operation_name(self, name: &str) -> (c: RequestContext)
        ensures
            c.query == self.query,
            c.operation_name matches Some(n) && n@ == name@,
            c.variables == self.variables,
            c.field_name == self.field_name,
    {
        RequestContext { operation_name: Some(name.to_owned()), ..self }
    }

    pub fn with_variables(self, variables: serde_json::Value) -> (c: RequestContext)
        ensures
            c.query == self.query,
            c.operation_name == self.operation_name,
            c.variables == Some(variables),
            c.field_name == self.field_name,
    {
        RequestContext { variables: Some(variables), ..self }
    }

    /// The variable named `name`, when variables were given and hold it.
    pub fn get_variable(&self, name: &str) -> (r: Option<&serde_json::Value>)
        ensures
            self.variables is None ==> r is None,
    {
        match &self.variables {
            Some(v) => json_entry(v, name),
            None => None,
        }
    }
}

/// A request as recorded by the collector.
#[derive(Debug, Clone)]
pub struct CollectedRequest {
    pub query: String,
    pub operation_name: Option<String>,
    pub variables: Option<serde_json::Value>,
}

impl CollectedRequest {
    pub fn new(query: &str) -> (c: CollectedRequest)
        ensures
            c.query@ == query@,
            c.operation_name is None,
            c.variables is None,
    {
        CollectedRequest { query: query.to_owned(), operation_name: None, variables: None }
    }

    pub fn with_operation_name(self, name: &str) -> (c: CollectedRequest)
        ensures
            c.query == self.query,
            c.operation_name matches Some(n) && n@ == name@,
            c.variables == self.variables,
    {
        CollectedRequest { operation_name: Some(name.to_owned()), ..self }
    }

    pub fn with_variables(self, variables: serde_json::Value) -> (c: CollectedRequest)
        ensures
            c.query == self.query,
            c.operation_name == self.operation_name,
            c.variables == Some(variables),
    {
        CollectedRequest { variables: Some(variables), ..self }
    }
}

/// Answers a field: with fixed data and errors, or with a response computed
/// from the request.
#[derive(Debug, Clone)]
pub enum Handler<F = Fixed> {
    Static(HandlerResponse),
    Dynamic(F),
}

impl Respond<RequestContext, HandlerResponse> for Fixed {
    open spec fn accepts(&self, ctx: &RequestContext) -> bool {
        true
    }

    open spec fn gives(&self, ctx: &RequestContext, out: &HandlerResponse) -> bool {
        true
    }

    fn respond(&self, ctx: &RequestContext) -> (out: HandlerResponse) {
        HandlerResponse::new(json_null())
    }
}

fn copy_path(p: &Vec<String>) -> (q: Vec<String>)
    ensures
        q@.map_values(|s: String| s@) == p@.map_values(|s: String| s@),
{
    let mut q: Vec<String> = Vec::new();
    let mut k: usize = 0;
    while k < p.len()
        invariant
            k <= p@.len(),
            q@.map_values(|s: String| s@) == p@.map_values(|s: String| s@).subrange(0, k as int),
        decreases p@.len() - k,
    {
        let ghost before = q@;
        q.push(p[k].clone());
        assert(q@.map_values(|s: String| s@) =~= before.map_values(|s: String| s@).push(p@[k as int]@));
        assert(q@.map_values(|s: String| s@) =~= p@.map_values(|s: String| s@).subrange(0, k + 1));
        k = k + 1;
    }
    assert(p@.map_values(|s: String| s@).subrange(0, k as int) =~= p@.map_values(|s: String| s@));
    q
}

fn copy_errors(errors: &Option<Vec<GraphQLError>>) -> (r: Option<Vec<GraphQLError>>)
    ensures
        error_views(r) == error_views(*errors),
        error_messages(r) == error_messages(*errors),
{
    match errors {
        None => None,
        Some(v) => {
            let mut out: Vec<GraphQLError> = Vec::new();
            let mut i: usize = 0;
            while i < v.len()
                invariant
                    i <= v@.len(),
                    out@.map_values(|e: GraphQLError| error_view(e)) == v@.map_values(|e: GraphQLError| error_view(e)).subrange(0, i as int),
                    out@.map_values(|e: GraphQLError| e.message@) == v@.map_values(|e: GraphQLError| e.message@).subrange(0, i as int),
                decreases v@.len() - i,
            {
                let path = match &v[i].path {
                    Some(p) => Some(copy_path(p)),
                    None => None,
                };
                let e = GraphQLError { message: v[i].message.clone(), path };
                assert(error_view(e) == error_view(v@[i as int]));
                let ghost before = out@;
                out.push(e);
                assert(out@.map_values(|e: GraphQLError| error_view(e)) =~= before.map_values(|e: GraphQLError| error_view(e)).push(error_view(v@[i as int])));
                assert(out@.map_values(|e: GraphQLError| error_view(e)) =~= v@.map_values(|e: GraphQLError| error_view(e)).subrange(0, i + 1));
                assert(out@.map_values(|e: GraphQLError| e.message@) =~= before.map_values(|e: GraphQLError| e.message@).push(v@[i as int].message@));
                assert(out@.map_values(|e: GraphQLError| e.message@) =~= v@.map_values(|e: GraphQLError| e.message@).subrange(0, i + 1));
                i = i + 1;
            }
            assert(v@.map_values(|e: GraphQLError| error_view(e)).subrange(0, i as int) =~= v@.map_values(|e: GraphQLError| error_view(e)));
            assert(v@.map_values(|e: GraphQLError| e.message@).subrange(0, i as int) =~= v@.map_values(|e: GraphQLError| e.message@));
            Some(out)
        },
    }
}

impl<F> Handler<F> {
    /// A fixed response holding `data` and no error.
    pub fn new(data: serde_json::Value) -> (h: Self)
        ensures
            h matches Handler::Static(r) && r.data == data && r.errors is None,
    {
        Handler::Static(HandlerResponse::new(data))
    }

    pub fn dynamic(f: F) -> (h: Self)
        ensures
            h == Handler::<F>::Dynamic(f),
    {
        Handler::Dynamic(f)
    }

    /// Adds an error without a path to a fixed response; a dynamic handler is
    /// left as it is.
    pub fn with_error(self, message: &str) -> (h: Self)
        ensures
            match self {
                Handler::Static(r) => h matches Handler::Static(n) && n.data == r.data
                    && n.errors is Some
                    && error_list(n.errors) == error_list(r.errors).push((message@, None)),
                Handler::Dynamic(f) => h == Handler::<F>::Dynamic(f),
            },
    {
        match self {
            Handler::Static(response) => Handler::Static(response.with_error(message)),
            Handler::Dynamic(f) => Handler::Dynamic(f),
        }
    }

    /// Adds an error at `path` to a fixed response; a dynamic handler is left
    /// as it is.
    pub fn with_error_at_path(self, message: &str, path: Vec<String>) -> (h: Self)
        ensures
            match self {
                Handler::Static(r) => h matches Handler::Static(n) && n.data == r.data
                    && n.errors is Some
                    && error_list(n.errors) == error_list(r.errors).push((message@, Some(path_view(path)))),
                Handler::Dynamic(f) => h == Handler::<F>::Dynamic(f),
            },
    {
        match self {
            Handler::Static(response) => {
                let HandlerResponse { data, errors } = response;
                let ghost before = errors;
                let ghost pv = path_view(path);
                let errors = push_error(errors, GraphQLError { message: message.to_owned(), path: Some(path) });
                assert(error_list(errors) =~= error_list(before).push((message@, Some(pv))));
                Handler::Static(HandlerResponse { data, errors })
            },
            Handler::Dynamic(f) => Handler::Dynamic(f),
        }
    }

    /// The fixed data; none for a dynamic handler.
    pub fn data(&self) -> (r: Option<&serde_json::Value>)
        ensures
            match self {
                Handler::Static(s) => r == Some(&s.data),
                Handler::Dynamic(_) => r is None,
            },
    {
        match self {
            Handler::Static(response) => Some(&response.data),
            Handler::Dynamic(_) => None,
        }
    }

    /// The fixed errors; none for a dynamic handler.
    pub fn errors(&self) -> (r: Option<&Vec<GraphQLError>>)
        ensures
            match self {
                Handler::Static(s) => match s.errors {
                    Some(v) => r == Some(&v),
                    None => r is None,
                },
                Handler::Dynamic(_) => r is None,
            },
    {
        match self {
            Handler::Static(response) => match &response.errors {
                Some(v) => Some(v),
                None => None,
            },
            Handler::Dynamic(_) => None,
        }
    }
}

impl<F: Respond<RequestContext, HandlerResponse>> Handler<F> {
    pub open spec fn accepts(&self, ctx: &RequestContext) -> bool {
        match self {
            Handler::Static(_) => true,
            Handler::Dynamic(f) => f.accepts(ctx),
        }
    }

    /// `out` is an answer of this handler to `ctx`: the fixed data with the
    /// same errors, or what the dynamic behaviour gives.
    pub open spec fn answers(&self, ctx: &RequestContext, out: &HandlerResponse) -> bool {
        match self {
            Handler::Static(r) => out.data == r.data && error_views(out.errors) == error_views(r.errors),
            Handler::Dynamic(f) => f.gives(ctx, out),
        }
    }

    pub fn respond(&self, ctx: &RequestContext) -> (out: HandlerResponse)
        requires
            self.accepts(ctx),
        ensures
            self.answers(ctx, &out),
    {
        match self {
            Handler::Static(response) => HandlerResponse { data: response.data.clone(), errors: copy_errors(&response.errors) },
            Handler::Dynamic(f) => f.respond(ctx),
        }
    }
}

impl<F> From<serde_json::Value> for Handler<F> {
    fn from(data: serde_json::Value) -> (h: Self) {
        Handler::Static(HandlerResponse::new(data))
    }
}

impl<F> vstd::std_specs::convert::FromSpecImpl<serde_json::Value> for Handler<F> {
    open spec fn obeys_from_spec() -> bool {
        true
    }

    open spec fn from_spec(data: serde_json::Value) -> Self {
        Handler::Static(HandlerResponse { data, errors: None })
    }
}

/// A field of an operation, with the handlers that answer it in turn.
#[derive(Debug, Clone)]
pub struct Field<F = Fixed> {
    pub name: String,
    pub handlers: Vec<Handler<F>>,
}

impl<F> Field<F> {
    pub fn new(name: &str) -> (f: Self)
        ensures
            f.name@ == name@,
            f.handlers@.len() == 0,
    {
        Field { name: name.to_owned(), handlers: Vec::new() }
    }

    pub fn with_handler(self, handler: Handler<F>) -> (f: Self)
        ensures
            f.name == self.name,
            f.handlers@ == self.handlers@.push(handler),
    {
        let Field { name, mut handlers } = self;
        handlers.push(handler);
        Field { name, handlers }
    }

    pub fn with_handlers(self, more: Vec<Handler<F>>) -> (f: Self)
        ensures
            f.name == self.name,
            f.handlers@ == self.handlers@ + more@,
    {
        let Field { name, mut handlers } = self;
        let mut more = more;
        handlers.append(&mut more);
        Field { name, handlers }
    }
}

/// An operation of one kind and its fields.
#[derive(Debug, Clone)]
pub struct Operation<F = Fixed> {
    pub operation_type: OperationType,
    pub fields: Vec<Field<F>>,
}

impl<F> Operation<F> {
    pub fn query() -> (o: Self)
        ensures
            o.operation_type == OperationType::Query,
            o.fields@.len() == 0,
    {
        Operation { operation_type: OperationType::Query, fields: Vec::new() }
    }

    pub fn mutation() -> (o: Self)
        ensures
            o.operation_type == OperationType::Mutation,
            o.fields@.len() == 0,
    {
        Operation { operation_type: OperationType::Mutation, fields: Vec::new() }
    }

    pub fn subscription() -> (o: Self)
        ensures
            o.operation_type == OperationType::Subscription,
            o.fields@.len() == 0,
    {
        Operation { operation_type: OperationType::Subscription, fields: Vec::new() }
    }

    pub fn with_field(self, field: Field<F>) -> (o: Self)
        ensures
            o.operation_type == self.operation_type,
            o.fields@ == self.fields@.push(field),
    {
        let Operation { operation_type, mut fields } = self;
        fields.push(field);
        Operation { operation_type, fields }
    }

    pub fn with_fields(self, more: Vec<Field<F>>) -> (o: Self)
        ensures
            o.operation_type == self.operation_type,
            o.fields@ == self.fields@ + more@,
    {
        let Operation { operation_type, mut fields } = self;
        let mut more = more;
        fields.append(&mut more);
        Operation { operation_type, fields }
    }
}

/// The kind of operation a query text asks for: a mutation when it begins,
/// after white space, with `mutation`; a query otherwise.
pub open spec fn requested_kind(query: Seq<char>) -> OperationType {
    if is_prefix("mutation"@, trim_start(query)) {
        OperationType::Mutation
    } else {
        OperationType::Query
    }
}

pub fn kind_of_query(query: &str) -> (k: OperationType)
    ensures
        k == requested_kind(query@),
{
    if starts_with_after_space(query, "mutation") {
        OperationType::Mutation
    } else {
        OperationType::Query
    }
}

/// Positions, in order, of the routes among the first `n` that a query of
/// kind `kind` and text `query` reaches: those of that kind whose field name
/// occurs in the text.
pub open spec fn reached(kinds: Seq<OperationType>, names: Seq<Seq<char>>, kind: OperationType, query: Seq<char>, n: nat) -> Seq<nat>
    decreases n,
{
    if n == 0 {
        Seq::empty()
    } else {
        let before = reached(kinds, names, kind, query, (n - 1) as nat);
        let r = (n - 1) as int;
        if kinds[r] == kind && occurs_in(names[r], query) {
            before.push(r as nat)
        } else {
            before
        }
    }
}

proof fn lemma_reached_bounds(kinds: Seq<OperationType>, names: Seq<Seq<char>>, kind: OperationType, query: Seq<char>, n: nat)
    ensures
        forall|k: int| 0 <= k < reached(kinds, names, kind, query, n).len() ==> #[trigger] reached(kinds, names, kind, query, n)[k] < n,
        forall|r: nat| r < n ==> (#[trigger] reached(kinds, names, kind, query, n).contains(r) <==> kinds[r as int] == kind && occurs_in(names[r as int], query)),
    decreases n,
{
    if n > 0 {
        lemma_reached_bounds(kinds, names, kind, query, (n - 1) as nat);
        let before = reached(kinds, names, kind, query, (n - 1) as nat);
        let now = reached(kinds, names, kind, query, n);
        assert forall|r: nat| r < n implies (now.contains(r) <==> kinds[r as int] == kind && occurs_in(names[r as int], query)) by {
            if r < n - 1 {
                if now.contains(r) {
                    let k = choose|k: int| 0 <= k < now.len() && now[k] == r;
                    if k < before.len() {
                        assert(before[k] == r);
                    }
                }
                if before.contains(r) {
                    let k = choose|k: int| 0 <= k < before.len() && before[k] == r;
                    assert(now[k] == r);
                }
            } else {
                if kinds[r as int] == kind && occurs_in(names[r as int], query) {
                    assert(now[now.len() - 1] == r);
                } else if now.contains(r) {
                    let k = choose|k: int| 0 <= k < now.len() && now[k] == r;
                    assert(before[k] < n - 1);
                }
            }
        }
    }
}

/// The answer of one reached field.
#[derive(Debug)]
pub struct FieldAnswer {
    /// Position of the field's route.
    pub route: usize,
    pub field: String,
    /// Position of the handler that answered, if the field has any.
    pub handler: Option<usize>,
    pub response: Option<HandlerResponse>,
}

/// The answers to one request, in route order, and whether the run is now
/// complete.
#[derive(Debug)]
pub struct Reply {
    pub answers: Vec<FieldAnswer>,
    pub fires: bool,
}

/// No two routes share both kind and field name.
pub open spec fn distinct_keys(kinds: Seq<OperationType>, names: Seq<Seq<char>>) -> bool {
    forall|i: int, j: int| 0 <= i < j < kinds.len() ==> !(#[trigger] kinds[i] == #[trigger] kinds[j] && names[i] == names[j])
}

/// A declared field as plain values: kind, field name, handlers.
pub type DeclaredField<F> = (OperationType, Seq<char>, Seq<Handler<F>>);

/// The fields of one operation; none for a subscription, which is not served.
pub open spec fn operation_fields<F>(o: Operation<F>) -> Seq<DeclaredField<F>> {
    if o.operation_type == OperationType::Subscription {
        Seq::empty()
    } else {
        o.fields@.map_values(|f: Field<F>| (o.operation_type, f.name@, f.handlers@))
    }
}

/// The served fields of all operations, operation by operation, in
/// declaration order.
pub open spec fn declared_fields<F>(operations: Seq<Operation<F>>) -> Seq<DeclaredField<F>>
    decreases operations.len(),
{
    if operations.len() == 0 {
        Seq::empty()
    } else {
        declared_fields(operations.drop_last()) + operation_fields(operations.last())
    }
}

pub open spec fn field_kinds<F>(d: Seq<DeclaredField<F>>) -> Seq<OperationType> {
    d.map_values(|x: DeclaredField<F>| x.0)
}

pub open spec fn field_names<F>(d: Seq<DeclaredField<F>>) -> Seq<Seq<char>> {
    d.map_values(|x: DeclaredField<F>| x.1)
}

pub open spec fn field_counts<F>(d: Seq<DeclaredField<F>>) -> Seq<nat> {
    d.map_values(|x: DeclaredField<F>| x.2.len())
}

/// The state of a run: the kind, field name and handlers of each route, and
/// the accounting of their use. Fields of subscriptions are not served and
/// are no route.
pub struct GraphqlRun<F> {
    kinds: Vec<OperationType>,
    names: Vec<String>,
    handlers: Vec<Vec<Handler<F>>>,
    dispatcher: Dispatcher,
}

impl<F: Respond<RequestContext, HandlerResponse>> GraphqlRun<F> {
    pub closed spec fn kinds(&self) -> Seq<OperationType> {
        self.kinds@
    }

    pub closed spec fn names(&self) -> Seq<Seq<char>> {
        self.names@.map_values(|s: String| s@)
    }

    pub closed spec fn routes(&self) -> Seq<Seq<Handler<F>>> {
        self.handlers@.map_values(|v: Vec<Handler<F>>| v@)
    }

    pub closed spec fn used(&self) -> Seq<nat> {
        self.dispatcher.used()
    }

    pub open spec fn counts(&self) -> Seq<nat> {
        self.routes().map_values(|hs: Seq<Handler<F>>| hs.len())
    }

    pub closed spec fn wf(&self) -> bool {
        &&& self.dispatcher.wf()
        &&& self.dispatcher.counts() == self.counts()
        &&& self.dispatcher.used().len() == self.counts().len()
        &&& self.kinds@.len() == self.counts().len()
        &&& self.names@.len() == self.counts().len()
        &&& distinct_keys(self.kinds(), self.names())
    }

    /// The kind and field name of the routes of a well-formed run are
    /// distinct: they name at most one route.
    pub proof fn lemma_keys_distinct(&self)
        requires
            self.wf(),
        ensures
            distinct_keys(self.kinds(), self.names()),
            self.kinds().len() == self.counts().len(),
            self.names().len() == self.counts().len(),
    {
    }

    pub open spec fn complete(&self) -> bool {
        crate::dispatch::sum(self.used()) == total_slots(self.counts())
    }

    /// Starts a run over the query and mutation fields of `operations`, in
    /// declaration order. Fails when a kind and field name repeat, or when the
    /// number of slots does not fit in a `usize`.
    pub fn start(operations: Vec<Operation<F>>) -> (r: Result<GraphqlRun<F>, HarnessError>)
        ensures
            r is Ok <==> distinct_keys(field_kinds(declared_fields(operations@)), field_names(declared_fields(operations@)))
                && total_slots(field_counts(declared_fields(operations@))) <= usize::MAX,
            r matches Ok(run) ==> {
                &&& run.wf()
                &&& run.kinds() == field_kinds(declared_fields(operations@))
                &&& run.names() == field_names(declared_fields(operations@))
                &&& run.routes() == declared_fields(operations@).map_values(|d: DeclaredField<F>| d.2)
                &&& run.used() == Seq::new(run.counts().len(), |i: int| 0nat)
            },
            r matches Err(e) ==> e is ConfigurationError,
    {
        let ghost all = operations@;
        let mut kinds: Vec<OperationType> = Vec::new();
        let mut names: Vec<String> = Vec::new();
        let mut handlers: Vec<Vec<Handler<F>>> = Vec::new();
        let mut counts: Vec<usize> = Vec::new();
        let ghost mut flat: Seq<DeclaredField<F>> = Seq::empty();
        let ghost mut k: int = 0;
        let mut pending = operations;
        while pending.len() > 0
            invariant
                all == operations@,
                0 <= k <= all.len(),
                pending@ == all.subrange(k, all.len() as int),
                flat == declared_fields(all.subrange(0, k)),
                kinds@ == field_kinds(flat),
                names@.map_values(|s: String| s@) == field_names(flat),
                handlers@.map_values(|v: Vec<Handler<F>>| v@) == flat.map_values(|d: DeclaredField<F>| d.2),
                counts@.map_values(|c: usize| c as nat) == field_counts(flat),
            decreases pending@.len(),
        {
            let operation = pending.remove(0);
            let ghost cur = all[k];
            assert(operation == cur);
            let Operation { operation_type, fields } = operation;
            if operation_type != OperationType::Subscription {
                let mut fields = fields;
                let ghost mut j: int = 0;
                let ghost base = flat;
                while fields.len() > 0
                    invariant
                        all == operations@,
                        0 <= j <= cur.fields@.len(),
                        fields@ == cur.fields@.subrange(j, cur.fields@.len() as int),
                        operation_type == cur.operation_type,
                        operation_type != OperationType::Subscription,
                        flat == base + operation_fields(cur).subrange(0, j),
                        kinds@ == field_kinds(flat),
                        names@.map_values(|s: String| s@) == field_names(flat),
                        handlers@.map_values(|v: Vec<Handler<F>>| v@) == flat.map_values(|d: DeclaredField<F>| d.2),
                        counts@.map_values(|c: usize| c as nat) == field_counts(flat),
                    decreases fields@.len(),
                {
                    let field = fields.remove(0);
                    assert(field == cur.fields@[j]);
                    let Field { name, handlers: hs } = field;
                    let ghost entry: DeclaredField<F> = (operation_type, name@, hs@);
                    assert(operation_fields(cur)[j] == entry);
                    let ghost nv = names@;
                    let ghost hv = handlers@;
                    let ghost cv = counts@;
                    counts.push(hs.len());
                    handlers.push(hs);
                    kinds.push(operation_type);
                    names.push(name);
                    proof {
                        assert(operation_fields(cur).subrange(0, j + 1) =~= operation_fields(cur).subrange(0, j).push(entry));
                        flat = flat.push(entry);
                        j = j + 1;
                        assert(field_kinds(flat) =~= field_kinds(flat.drop_last()).push(entry.0));
                        assert(names@.map_values(|s: String| s@) =~= nv.map_values(|s: String| s@).push(entry.1));
                        assert(field_names(flat) =~= field_names(flat.drop_last()).push(entry.1));
                        assert(handlers@.map_values(|v: Vec<Handler<F>>| v@) =~= hv.map_values(|v: Vec<Handler<F>>| v@).push(entry.2));
                        assert(flat.map_values(|d: DeclaredField<F>| d.2) =~= flat.drop_last().map_values(|d: DeclaredField<F>| d.2).push(entry.2));
                        assert(counts@.map_values(|c: usize| c as nat) =~= cv.map_values(|c: usize| c as nat).push(entry.2.len()));
                        assert(field_counts(flat) =~= field_counts(flat.drop_last()).push(entry.2.len()));
                    }
                }
                proof {
                    assert(operation_fields(cur).subrange(0, j) =~= operation_fields(cur));
                }
            } else {
                assert(operation_fields(cur) =~= Seq::<DeclaredField<F>>::empty());
                assert(flat + operation_fields(cur) =~= flat);
            }
            proof {
                assert(all.subrange(0, k + 1).drop_last() =~= all.subrange(0, k));
                k = k + 1;
            }
        }
        assert(all.subrange(0, k) =~= all);
        let n = kinds.len();
        let ghost nv = names@.map_values(|s: String| s@);
        let mut i: usize = 0;
        while i < n
            invariant
                all == operations@,
                n == kinds@.len(),
                n == names@.len(),
                nv == names@.map_values(|s: String| s@),
                kinds@ == field_kinds(declared_fields(all)),
                nv == field_names(declared_fields(all)),
                i <= n,
                forall|a: int, b: int| 0 <= a < b < n && a < i ==> !(#[trigger] kinds@[a] == #[trigger] kinds@[b] && nv[a] == nv[b]),
            decreases n - i,
        {
            let mut j: usize = i + 1;
            while j < n
                invariant
                    all == operations@,
                    n == kinds@.len(),
                    n == names@.len(),
                    nv == names@.map_values(|s: String| s@),
                    kinds@ == field_kinds(declared_fields(all)),
                    nv == field_names(declared_fields(all)),
                    i < n,
                    i + 1 <= j <= n,
                    forall|a: int, b: int| 0 <= a < b < n && a < i ==> !(#[trigger] kinds@[a] == #[trigger] kinds@[b] && nv[a] == nv[b]),
                    forall|b: int| i < b < j ==> !(kinds@[i as int] == #[trigger] kinds@[b] && nv[i as int] == nv[b]),
                decreases n - j,
            {
                if kinds[i] == kinds[j] && text_eq(names[i].as_str(), names[j].as_str()) {
                    assert(nv[i as int] == nv[j as int]);
                    assert(!distinct_keys(field_kinds(declared_fields(all)), field_names(declared_fields(all))));
                    return Err(HarnessError::ConfigurationError("duplicate field".to_owned()));
                }
                j = j + 1;
            }
            i = i + 1;
        }
        let dispatcher = match Dispatcher::new(&counts) {
            Some(d) => d,
            None => {
                return Err(HarnessError::ConfigurationError("too many handler slots".to_owned()));
            },
        };
        let run = GraphqlRun { kinds, names, handlers, dispatcher };
        assert(run.counts() =~= field_counts(flat));
        Ok(run)
    }

    pub fn is_complete(&self) -> (r: bool)
        requires
            self.wf(),
        ensures
            r == self.complete(),
    {
        self.dispatcher.is_complete()
    }

    /// Serves one request: finds the routes of the requested kind whose field
    /// name occurs in the query text and answers each with the handler whose
    /// turn it is, using a slot of each while one is left. A request that
    /// reaches at least one route is handed to the collector; one that reaches
    /// none leaves collector and run as they were.
    pub fn handle<C: Collector<CollectedRequest>>(
        &mut self,
        collector: &mut C,
        query: &str,
        operation_name: Option<String>,
        variables: Option<serde_json::Value>,
    ) -> (reply: Reply)
        requires
            old(self).wf(),
            forall|r: int, j: int, ctx: RequestContext| 0 <= r < old(self).routes().len() && 0 <= j < old(self).routes()[r].len() ==> #[trigger] old(self).routes()[r][j].accepts(&ctx),
        ensures
            old(self).used().len() == old(self).counts().len(),
            final(self).used().len() == final(self).counts().len(),
            final(self).wf(),
            final(self).routes() == old(self).routes(),
            final(self).kinds() == old(self).kinds(),
            final(self).names() == old(self).names(),
            ({
                let hit = reached(old(self).kinds(), old(self).names(), requested_kind(query@), query@, old(self).counts().len());
                &&& reply.answers@.len() == hit.len()
                &&& forall|k: int| 0 <= k < hit.len() ==> {
                    let a = #[trigger] reply.answers@[k];
                    let r = hit[k] as int;
                    &&& a.route == r
                    &&& a.field@ == old(self).names()[r]
                    &&& (a.handler is None <==> chosen_handler(old(self).used()[r], old(self).counts()[r]) is None)
                    &&& (a.handler is None <==> a.response is None)
                    &&& a.handler matches Some(i) ==> {
                        &&& chosen_handler(old(self).used()[r], old(self).counts()[r]) == Some(i as nat)
                        &&& exists|ctx: RequestContext| {
                            &&& ctx.query@ == query@
                            &&& ctx.operation_name == operation_name
                            &&& ctx.variables == variables
                            &&& ctx.field_name@ == old(self).names()[r]
                            &&& #[trigger] old(self).routes()[r][i as int].answers(&ctx, &a.response->Some_0)
                        }
                    }
                }
                &&& forall|r: int| 0 <= r < old(self).counts().len() ==> #[trigger] final(self).used()[r] == if hit.contains(r as nat) {
                    step_used(old(self).used()[r], old(self).counts()[r])
                } else {
                    old(self).used()[r]
                }
                &&& final(self).used().len() == old(self).used().len()
                &&& hit.len() == 0 ==> final(collector).recorded() == old(collector).recorded()
                &&& hit.len() > 0 ==> {
                    &&& final(collector).recorded().len() == old(collector).recorded().len() + 1
                    &&& final(collector).recorded().drop_last() == old(collector).recorded()
                    &&& final(collector).recorded().last().query@ == query@
                    &&& final(collector).recorded().last().operation_name == operation_name
                    &&& final(collector).recorded().last().variables == variables
                }
            }),
            reply.fires == (final(self).complete() && !old(self).complete()),
    {
        let ghost kinds0 = self.kinds();
        let ghost names0 = self.names();
        let ghost routes0 = self.routes();
        let ghost counts0 = self.counts();
        let ghost used0 = self.used();
        let ghost complete0 = self.complete();
        let kind = kind_of_query(query);
        let n = self.kinds.len();
        let ghost hit = reached(kinds0, names0, kind, query@, n as nat);
        let mut answers: Vec<FieldAnswer> = Vec::new();
        let mut fires = false;
        let mut r: usize = 0;
        while r < n
            invariant
                n == counts0.len(),
                r <= n,
                self.wf(),
                self.kinds() == kinds0,
                self.names() == names0,
                self.routes() == routes0,
                self.counts() == counts0,
                self.used().len() == n,
                kind == requested_kind(query@),
                forall|x: int, j: int, ctx: RequestContext| 0 <= x < routes0.len() && 0 <= j < routes0[x].len() ==> #[trigger] routes0[x][j].accepts(&ctx),
                answers@.len() == reached(kinds0, names0, kind, query@, r as nat).len(),
                forall|k: int| 0 <= k < answers@.len() ==> {
                    let a = #[trigger] answers@[k];
                    let q = reached(kinds0, names0, kind, query@, r as nat)[k] as int;
                    &&& a.route == q
                    &&& a.field@ == names0[q]
                    &&& (a.handler is None <==> chosen_handler(used0[q], counts0[q]) is None)
                    &&& (a.handler is None <==> a.response is None)
                    &&& a.handler matches Some(i) ==> {
                        &&& chosen_handler(used0[q], counts0[q]) == Some(i as nat)
                        &&& exists|ctx: RequestContext| {
                            &&& ctx.query@ == query@
                            &&& ctx.operation_name == operation_name
                            &&& ctx.variables == variables
                            &&& ctx.field_name@ == names0[q]
                            &&& #[trigger] routes0[q][i as int].answers(&ctx, &a.response->Some_0)
                        }
                    }
                },
                forall|x: int| 0 <= x < n ==> #[trigger] self.used()[x] == if x < r && reached(kinds0, names0, kind, query@, r as nat).contains(x as nat) {
                    step_used(used0[x], counts0[x])
                } else {
                    used0[x]
                },
                fires == (self.complete() && !complete0),
                complete0 ==> self.complete(),
            decreases n - r,
        {
            proof {
                lemma_reached_bounds(kinds0, names0, kind, query@, r as nat);
                lemma_reached_bounds(kinds0, names0, kind, query@, (r + 1) as nat);
            }
            let ghost before = reached(kinds0, names0, kind, query@, r as nat);
            let ghost after = reached(kinds0, names0, kind, query@, (r + 1) as nat);
            assert(self.names()[r as int] == self.names@[r as int]@);
            if self.kinds[r] == kind && contains(query, self.names[r].as_str()) {
                assert(after == before.push(r as nat));
                let ghost used_before = self.used();
                assert(self.handlers@[r as int]@ == self.routes()[r as int]);
                let d = self.dispatcher.dispatch(r);
                fires = fires || d.fires;
                let ctx = RequestContext {
                    query: query.to_owned(),
                    operation_name: copy_name(&operation_name),
                    variables: copy_variables(&variables),
                    field_name: self.names[r].clone(),
                };
                let response = match d.handler {
                    Some(i) => {
                        let out = self.handlers[r][i].respond(&ctx);
                        Some(out)
                    },
                    None => None,
                };
                let ghost prev = answers@;
                answers.push(FieldAnswer { route: r, field: self.names[r].clone(), handler: d.handler, response });
                assert forall|k: int| 0 <= k < answers@.len() implies {
                    let a = #[trigger] answers@[k];
                    let q = after[k] as int;
                    &&& a.route == q
                    &&& a.field@ == names0[q]
                    &&& (a.handler is None <==> chosen_handler(used0[q], counts0[q]) is None)
                    &&& (a.handler is None <==> a.response is None)
                    &&& a.handler matches Some(i) ==> {
                        &&& chosen_handler(used0[q], counts0[q]) == Some(i as nat)
                        &&& exists|ctx: RequestContext| {
                            &&& ctx.query@ == query@
                            &&& ctx.operation_name == operation_name
                            &&& ctx.variables == variables
                            &&& ctx.field_name@ == names0[q]
                            &&& #[trigger] routes0[q][i as int].answers(&ctx, &a.response->Some_0)
                        }
                    }
                } by {
                    if k < prev.len() {
                        assert(answers@[k] == prev[k]);
                        assert(after[k] == before[k]);
                    } else {
                        assert(!before.contains(r as nat));
                        assert(used_before[r as int] == used0[r as int]);
                        assert(after[k] == r);
                        let a = answers@[k];
                        if a.handler is Some {
                            let i = a.handler->Some_0;
                            assert(routes0[r as int][i as int].answers(&ctx, &a.response->Some_0));
                            assert(exists|c: RequestContext| {
                                &&& c.query@ == query@
                                &&& c.operation_name == operation_name
                                &&& c.variables == variables
                                &&& c.field_name@ == names0[r as int]
                                &&& #[trigger] routes0[r as int][i as int].answers(&c, &a.response->Some_0)
                            });
                        }
                    }
                }
                assert forall|x: int| 0 <= x < n implies #[trigger] self.used()[x] == if x < r + 1 && after.contains(x as nat) {
                    step_used(used0[x], counts0[x])
                } else {
                    used0[x]
                } by {
                    if x < r {
                        assert(after.contains(x as nat) == before.contains(x as nat));
                    } else if x == r {
                        assert(after.contains(x as nat));
                        assert(!before.contains(x as nat));
                    }
                }
            } else {
                assert(after == before);
                assert forall|x: int| 0 <= x < n implies #[trigger] self.used()[x] == if x < r + 1 && after.contains(x as nat) {
                    step_used(used0[x], counts0[x])
                } else {
                    used0[x]
                } by {
                    if x == r {
                        assert(!after.contains(x as nat));
                    }
                }
            }
            r = r + 1;
        }
        proof {
            lemma_reached_bounds(kinds0, names0, kind, query@, n as nat);
        }
        if answers.len() > 0 {
            collector.collect(CollectedRequest { query: query.to_owned(), operation_name, variables });
        }
        Reply { answers, fires }
    }
}

/// Collects the server, collector and operations of a scenario.
pub type ScenarioBuilder<S = (), C = (), F = Fixed> = crate::scenario::ScenarioBuilder<S, C, Operation<F>>;

/// A scenario over operations, ready to run.
pub type Scenario<S, C, F = Fixed> = crate::scenario::Scenario<S, C, Operation<F>>;

impl<S, C, F> crate::scenario::ScenarioBuilder<S, C, Operation<F>> {
    /// Declares one more operation.
    pub fn operation(self, operation: Operation<F>) -> (b: Self)
        ensures
            b.server_part() == self.server_part(),
            b.collector_part() == self.collector_part(),
            b.declared() == self.declared().push(operation),
    {
        self.route(operation)
    }

    /// Declares several more operations, in order.
    pub fn operations(self, operations: Vec<Operation<F>>) -> (b: Self)
        ensures
            b.server_part() == self.server_part(),
            b.collector_part() == self.collector_part(),
            b.declared() == self.declared() + operations@,
    {
        self.routes(operations)
    }
}

} // verus!
