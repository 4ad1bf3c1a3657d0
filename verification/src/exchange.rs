//! Answering one request of a service, step by step: each step takes what
//! the caller did last (rendered templates, ran a script, forwarded the
//! request, listed the request log) and says what to do next, up to the
//! reply with its request log entry. Template rendering, scripts, the
//! network and the log storage stay with the caller.

use vstd::prelude::*;
use crate::config::{EndpointDefinition, ResponseDefinition, ServiceDefinition, SideEffect};
use crate::endpoints::{endpoint_matches, headers_view, path_params_spec};
use crate::graphql::{graphql_request_operation, handle_graphql_body, mock_index, render_error_body, GraphQLMocks, GraphQLReply};
use crate::handler::{
    cors_headers, cors_headers_of, decide_route, header_pairs_view, header_value, header_value_of, is_truthy,
    logs_path, logs_query, logs_query_ok, not_found_body, not_found_body_of, parse_query, parse_request_body,
    preflight_headers, preflight_headers_of, process_response_body_template, process_side_effect, processed_body_of,
    proxy_error_body, proxy_url_of, query_params_of, recorded_reply_body, recorded_reply_body_of, relative_path_of,
    relative_request_path, request_body_of, response_headers, response_headers_of, runtime_error_view,
    script_body_text, script_context, script_context_of, script_request_of, select_response, selected_response,
    side_effect_done, side_effect_parse_error, side_effect_result, status_or_ok, status_or_ok_spec, truthy,
    apply_script_result, LogsQuery, RequestRoute, RuntimeError,
};
use crate::instance::{rotations_ok, ServiceInstance};
use crate::json::{compact, json_data, json_parsed, JsonData, JsonValue};
use crate::recording::{build_recorded_endpoint, normalized_recorded_path};
use crate::routing::PathParameters;
use crate::scenario::{rotation_in_range, rotation_ready, scenario_choice_ok};
use crate::state::{data_map, ServiceState};
use crate::strmap::StrMap;
use crate::text::{concat3, string_views};

verus! {

/// A request as received: method, path (base path included), query text,
/// headers (names in lower case), body bytes and the body decoded as text.
pub struct IncomingRequest {
    pub method: String,
    pub path: String,
    pub query: Option<String>,
    pub headers: StrMap<String>,
    pub body: Vec<u8>,
    pub body_text: String,
}

/// A request log entry: the service, the endpoint that answered (by
/// position), the method, the request path and the status sent.
#[derive(Debug)]
pub struct LogEntry {
    pub service: String,
    pub endpoint: Option<usize>,
    pub method: String,
    pub path: String,
    pub status: u16,
}

/// A log entry as plain values: service, endpoint, method, path, status.
pub type EntryView = (Seq<char>, Option<usize>, Seq<char>, Seq<char>, u16);

/// The plain values of a log entry.
pub open spec fn entry_view(l: LogEntry) -> EntryView {
    (l.service@, l.endpoint, l.method@, l.path@, l.status)
}

/// The plain values of log entries.
pub open spec fn entries_view(v: Seq<LogEntry>) -> Seq<EntryView> {
    v.map_values(|l: LogEntry| entry_view(l))
}

/// The log entries of a request: the notes it already made, then its own
/// entry with these values.
pub open spec fn log_ok(l: Vec<LogEntry>, notes: Seq<EntryView>, service: Seq<char>, endpoint: Option<usize>,
    method: Seq<char>, path: Seq<char>, status: u16) -> bool {
    entries_view(l@) == notes.push((service, endpoint, method, path, status))
}

/// The note every request makes first: its `Origin` header (`none` without
/// one), under the method `DEBUG`.
pub open spec fn origin_note(service: Seq<char>, headers: Map<Seq<char>, Seq<char>>) -> EntryView {
    (service, None, "DEBUG"@, "Request Origin: "@ + if headers.contains_key("origin"@) {
        headers["origin"@]
    } else {
        "none"@
    }, 200)
}

/// The notes a request other than a CORS preflight makes: its origin, then
/// its body when it has one.
pub open spec fn request_notes(service: Seq<char>, req: IncomingRequest) -> Seq<EntryView> {
    let first = seq![origin_note(service, headers_view(req.headers))];
    if req.body@.len() > 0 {
        first.push((service, None, "DEBUG"@, "Request body: "@ + req.body_text@, 200))
    } else {
        first
    }
}

/// The notes a CORS preflight makes: its origin, then that it was answered.
pub open spec fn preflight_notes(service: Seq<char>, req: IncomingRequest) -> Seq<EntryView> {
    seq![origin_note(service, headers_view(req.headers)), (service, None, "DEBUG"@, "CORS preflight response sent"@, 204)]
}

/// A reply to send, with the entries to add to the request log, in order
/// (the request's notes, then its own entry); when `save_definition` is
/// set, the service's definition changed and is to be saved.
#[derive(Debug)]
pub struct Reply {
    pub status: u16,
    pub headers: Vec<(String, String)>,
    pub body: String,
    pub log: Vec<LogEntry>,
    pub save_definition: bool,
}

/// What a request brings, read once: method, path, path relative to the
/// service, query text and parameters, headers, body (read by its content
/// type), `Origin` header, the service's name, and the notes the request
/// made in the request log so far.
pub struct RequestData {
    pub method: String,
    pub path: String,
    pub relative: String,
    pub query_text: Option<String>,
    pub query: StrMap<String>,
    pub headers: StrMap<String>,
    pub body: Option<JsonValue>,
    pub origin: String,
    pub service: String,
    pub notes: Vec<LogEntry>,
}

impl RequestData {
    /// The tables are well formed.
    pub open spec fn wf(&self) -> bool {
        self.query.wf() && self.headers.wf()
    }
}

/// Which response answers: a scenario of the endpoint, or one of its
/// responses, by position.
#[derive(Clone, Copy, Debug)]
pub enum Chosen {
    Scenario(usize),
    Response(usize),
}

/// The answering response of an endpoint, with the endpoint's position, the
/// path parameters and the status.
pub struct Selection {
    pub endpoint_index: usize,
    pub params: PathParameters,
    pub status: u16,
    pub chosen: Chosen,
}

/// How far the answer to a request is.
pub enum HandlerProgress {
    /// No request taken yet.
    Idle,
    /// Waiting for a GraphQL mock template to be rendered.
    GraphQL(RequestData),
    /// Waiting for the conditions of an endpoint's responses to be rendered
    /// (endpoint position and path parameters).
    Conditions(RequestData, usize, PathParameters),
    /// Waiting for a response script to run.
    Script(RequestData, Selection),
    /// Waiting for the body (as given), side-effect values and header values
    /// of the answering response to be rendered.
    Templates(RequestData, Selection, String),
    /// Waiting for the request to be forwarded.
    Forwarding(RequestData),
    /// Waiting for the request log to be listed.
    Logs(RequestData),
    /// Answered.
    Done,
}

/// What the caller did.
pub enum HandlerEvent {
    /// A request came, with the GraphQL mocks of the service, if any.
    Start(IncomingRequest, Option<GraphQLMocks>),
    /// Each template asked for, rendered (or the renderer's error).
    Rendered(Vec<Result<String, String>>),
    /// What the script returned (or why it failed).
    ScriptRan(Result<JsonValue, String>),
    /// The status the forwarded request got (or why forwarding failed).
    Forwarded(Result<u16, String>),
    /// The request log entries asked for, as JSON text.
    LogsListed(String),
}

/// What the caller is to do next.
pub enum HandlerAction {
    /// Send this reply and add its entry to the request log.
    Reply(Reply),
    /// Send the forwarded request's reply as it came, and add these entries
    /// to the request log.
    Relay(Vec<LogEntry>),
    /// Render each template with the request and path parameters of the
    /// progress (see [`HandlerProgress::request`] and
    /// [`HandlerProgress::path_params`]) and the service's state as it is
    /// now; answer with `Rendered`.
    Render(Vec<String>),
    /// Run the script at this path with this context; answer with
    /// `ScriptRan`.
    RunScript(String, JsonValue),
    /// Forward the request to this URL; answer with `Forwarded`.
    Forward(String),
    /// List the request log entries this query selects; answer with
    /// `LogsListed`.
    ListLogs(LogsQuery),
    /// The request failed with this error, after adding these entries to
    /// the request log.
    Fail(RuntimeError, Vec<LogEntry>),
}

/// The value of a header, or nothing.
pub open spec fn header_opt(h: Map<Seq<char>, Seq<char>>, name: Seq<char>) -> Option<Seq<char>> {
    if h.contains_key(name) { Some(h[name]) } else { None }
}

/// The value of a header, or the empty text.
pub open spec fn header_text(h: Map<Seq<char>, Seq<char>>, name: Seq<char>) -> Seq<char> {
    if h.contains_key(name) { h[name] } else { Seq::empty() }
}

/// The view of an optional string.
pub open spec fn opt_text(o: Option<String>) -> Option<Seq<char>> {
    match o {
        Some(s) => Some(s@),
        None => None,
    }
}

/// The parameters of an optional query text.
pub open spec fn query_of(q: Option<String>) -> Map<Seq<char>, Seq<char>> {
    match q {
        Some(t) => query_params_of(t@),
        None => Map::<Seq<char>, Seq<char>>::empty(),
    }
}

/// The request data read from a request to a service.
pub open spec fn request_data_ok(d: RequestData, req: IncomingRequest, def: ServiceDefinition) -> bool {
    let hv = headers_view(req.headers);
    &&& d.wf()
    &&& d.method@ == req.method@
    &&& d.path@ == req.path@
    &&& d.relative@ == relative_path_of(req.path@, def.server.base_path@)
    &&& opt_text(d.query_text) == opt_text(req.query)
    &&& headers_view(d.query) == query_of(req.query)
    &&& headers_view(d.headers) == hv
    &&& match d.body {
        Some(b) => request_body_of(req.body_text@, header_text(hv, "content-type"@)) == Some(json_data(b)),
        None => request_body_of(req.body_text@, header_text(hv, "content-type"@)) is None,
    }
    &&& d.origin@ == header_text(hv, "origin"@)
    &&& d.service@ == def.name@
    &&& entries_view(d.notes@) == request_notes(def.name@, req)
}

/// Whether the GraphQL mocks answer a request: a GET or POST to `/graphql`.
pub open spec fn graphql_takes(gql: Option<GraphQLMocks>, method: Seq<char>, relative: Seq<char>) -> bool {
    gql is Some && relative == "/graphql"@ && (method == "GET"@ || method == "POST"@)
}

/// A JSON reply with this status and body, logged without endpoint.
pub open spec fn json_reply_ok(a: HandlerAction, status: u16, body: Seq<char>, notes: Seq<EntryView>, service: Seq<char>,
    method: Seq<char>, path: Seq<char>) -> bool {
    a matches HandlerAction::Reply(rep) && rep.status == status && rep.body@ == body
        && header_pairs_view(rep.headers@) == seq![("content-type"@, "application/json"@)]
        && log_ok(rep.log, notes, service, None, method, path, status) && !rep.save_definition
}

/// The answer of the GraphQL mocks to a request (see
/// [`crate::graphql::graphql_reply_ok`]): the schema as text, an error, or
/// the operation's mock template to render.
pub open spec fn graphql_start_ok(gql: GraphQLMocks, method: Seq<char>, operation: Option<Option<Seq<char>>>,
    notes: Seq<EntryView>, service: Seq<char>, path: Seq<char>, r: (HandlerProgress, HandlerAction)) -> bool {
    if method == "GET"@ {
        &&& r.0 is Done
        &&& (r.1 matches HandlerAction::Reply(rep) && rep.status == 200 && rep.body@ == gql.schema@
            && header_pairs_view(rep.headers@) == seq![("content-type"@, "text/plain"@)]
            && log_ok(rep.log, notes, service, None, method, path, 200) && !rep.save_definition)
    } else {
        match operation {
            None => r.0 is Done && json_reply_ok(r.1, 400, "{\"error\":\"Invalid GraphQL request\"}"@, notes, service, method, path),
            Some(None) => r.0 is Done && json_reply_ok(r.1, 400, "{\"error\":\"Missing operationName\"}"@, notes, service, method, path),
            Some(Some(op)) => match mock_index(gql.mocks@, op) {
                Some(i) => r.0 is GraphQL && (r.1 matches HandlerAction::Render(ts)
                    && ts@.len() == 1 && ts@[0]@ == gql.mocks@[i].1@),
                None => r.0 is Done && json_reply_ok(r.1, 400, "{\"error\":\"Unknown operation "@ + op + "\"}"@,
                    notes, service, method, path),
            },
        }
    }
}

/// The templates rendered to pick an endpoint's response: the condition of
/// each response (the empty text for one without condition).
pub open spec fn condition_templates(rs: Seq<(u16, ResponseDefinition)>) -> Seq<Seq<char>> {
    Seq::new(rs.len(), |i: int| match rs[i].1.condition {
        Some(c) => c@,
        None => Seq::<char>::empty(),
    })
}

/// The side effects of a response.
pub open spec fn effects_of(rd: ResponseDefinition) -> Seq<SideEffect> {
    match rd.side_effects {
        Some(v) => v@,
        None => Seq::empty(),
    }
}

/// The headers of a response, as written.
pub open spec fn own_headers_of(rd: ResponseDefinition) -> Seq<(String, String)> {
    match rd.headers {
        Some(v) => v@,
        None => Seq::empty(),
    }
}

/// The templates rendered to answer with a response: its body (as given),
/// the value of each side effect, the value of each header.
pub open spec fn reply_templates(rd: ResponseDefinition, body: Seq<char>) -> Seq<Seq<char>> {
    let es = effects_of(rd);
    let hs = own_headers_of(rd);
    seq![body] + Seq::new(es.len(), |i: int| es[i].value@) + Seq::new(hs.len(), |i: int| hs[i].1@)
}

/// The response a selection names in a definition.
pub open spec fn selected_definition(def: ServiceDefinition, sel: Selection) -> ResponseDefinition {
    let ep = def.endpoints@[sel.endpoint_index as int];
    match sel.chosen {
        Chosen::Scenario(k) => ep.scenarios->0@[k as int].response.definition,
        Chosen::Response(i) => ep.responses@[i as int].1,
    }
}

/// A selection names a response of a definition.
pub open spec fn selection_ok(def: ServiceDefinition, sel: Selection) -> bool {
    let eps = def.endpoints@;
    &&& sel.endpoint_index < eps.len()
    &&& sel.params.wf()
    &&& match sel.chosen {
        Chosen::Scenario(k) => eps[sel.endpoint_index as int].scenarios matches Some(v) && k < v@.len()
            && sel.status == v@[k as int].response.status,
        Chosen::Response(i) => i < eps[sel.endpoint_index as int].responses@.len()
            && sel.status == eps[sel.endpoint_index as int].responses@[i as int].0,
    }
}

/// The progress of a request fits the instance answering it.
pub open spec fn progress_ok(p: HandlerProgress, def: ServiceDefinition) -> bool {
    match p {
        HandlerProgress::Idle => true,
        HandlerProgress::Done => true,
        HandlerProgress::GraphQL(d) => d.wf(),
        HandlerProgress::Forwarding(d) => d.wf(),
        HandlerProgress::Logs(d) => d.wf(),
        HandlerProgress::Conditions(d, k, ps) => d.wf() && k < def.endpoints@.len() && ps.wf(),
        HandlerProgress::Script(d, sel) => d.wf() && selection_ok(def, sel),
        HandlerProgress::Templates(d, sel, _) => d.wf() && selection_ok(def, sel),
    }
}

/// How many rendered templates a progress waits for.
pub open spec fn renders_awaited(p: HandlerProgress, def: ServiceDefinition) -> nat {
    match p {
        HandlerProgress::GraphQL(_) => 1,
        HandlerProgress::Conditions(_, k, _) => def.endpoints@[k as int].responses@.len(),
        HandlerProgress::Templates(_, sel, body) => reply_templates(selected_definition(def, sel), body@).len(),
        _ => 0,
    }
}

/// Whether an event is what a progress waits for.
pub open spec fn accepts(p: HandlerProgress, e: HandlerEvent, def: ServiceDefinition) -> bool {
    match e {
        HandlerEvent::Start(..) => p is Idle,
        HandlerEvent::Rendered(v) => (p is GraphQL || p is Conditions || p is Templates)
            && v@.len() == renders_awaited(p, def),
        HandlerEvent::ScriptRan(_) => p is Script,
        HandlerEvent::Forwarded(_) => p is Forwarding,
        HandlerEvent::LogsListed(_) => p is Logs,
    }
}

/// Two instances agree on all but their definitions' endpoints and state.
pub open spec fn same_setup(a: ServiceInstance, b: ServiceInstance) -> bool {
    &&& a.port_view() == b.port_view()
    &&& a.running() == b.running()
    &&& a.scenario() == b.scenario()
    &&& a.definition_view().name == b.definition_view().name
    &&& a.definition_view().server == b.definition_view().server
}

/// The value of a header, or the empty text.
fn header_or_empty(h: &StrMap<String>, name: &str) -> (r: String)
    requires
        h.wf(),
    ensures
        r@ == header_text(headers_view(*h), name@),
{
    match h.get(name) {
        Some(v) => v.clone(),
        None => String::new(),
    }
}

/// The value of a header, if any.
fn header_value_opt(h: &StrMap<String>, name: &str) -> (r: Option<String>)
    requires
        h.wf(),
    ensures
        opt_text(r) == header_opt(headers_view(*h), name@),
{
    match h.get(name) {
        Some(v) => Some(v.clone()),
        None => None,
    }
}

/// A copy of a log entry.
fn copy_entry(l: &LogEntry) -> (c: LogEntry)
    ensures
        c == *l,
{
    LogEntry { service: l.service.clone(), endpoint: l.endpoint, method: l.method.clone(), path: l.path.clone(), status: l.status }
}

/// A copy of log entries.
fn copy_entries(v: &Vec<LogEntry>) -> (c: Vec<LogEntry>)
    ensures
        c@ == v@,
{
    let mut c: Vec<LogEntry> = Vec::new();
    let mut i: usize = 0;
    while i < v.len()
        invariant
            i <= v@.len(),
            c@ == v@.take(i as int),
        decreases v@.len() - i,
    {
        c.push(copy_entry(&v[i]));
        assert(c@ =~= v@.take(i + 1));
        i = i + 1;
    }
    assert(v@.take(v@.len() as int) =~= v@);
    c
}

/// The log entries of a request: its notes, then its own entry.
fn log_entry(d: &RequestData, endpoint: Option<usize>, status: u16) -> (l: Vec<LogEntry>)
    ensures
        log_ok(l, entries_view(d.notes@), d.service@, endpoint, d.method@, d.path@, status),
{
    let mut l = copy_entries(&d.notes);
    let ghost before = l@;
    l.push(LogEntry { service: d.service.clone(), endpoint, method: d.method.clone(), path: d.path.clone(), status });
    assert(entries_view(l@) =~= entries_view(before).push(entry_view(l@.last())));
    l
}

/// A JSON reply, logged without endpoint.
fn json_reply(d: &RequestData, status: u16, body: String) -> (a: HandlerAction)
    ensures
        json_reply_ok(a, status, body@, entries_view(d.notes@), d.service@, d.method@, d.path@),
{
    let mut headers: Vec<(String, String)> = Vec::new();
    headers.push((String::from_str("content-type"), String::from_str("application/json")));
    assert(header_pairs_view(headers@) =~= seq![("content-type"@, "application/json"@)]);
    HandlerAction::Reply(Reply { status, headers, body, log: log_entry(d, None, status), save_definition: false })
}

/// Reads what a request brings.
fn read_request(instance: &ServiceInstance, req: IncomingRequest) -> (r: (RequestData, Vec<u8>))
    requires
        req.headers.wf(),
    ensures
        request_data_ok(r.0, req, instance.definition_view()),
        r.1@ == req.body@,
{
    let IncomingRequest { method, path, query, headers, body, body_text } = req;
    let query_map = match &query {
        Some(q) => parse_query(q.as_str()),
        None => {
            let m: StrMap<String> = StrMap::new();
            assert(headers_view(m) =~= Map::<Seq<char>, Seq<char>>::empty());
            m
        },
    };
    let content_type = header_or_empty(&headers, "content-type");
    let parsed = parse_request_body(body_text.as_str(), content_type.as_str());
    let relative = relative_request_path(path.as_str(), instance.definition().server.base_path.as_str());
    let origin = header_or_empty(&headers, "origin");
    let service = instance.name();
    let mut notes: Vec<LogEntry> = Vec::new();
    notes.push(origin_entry(&headers, &service));
    if body.len() > 0 {
        let ghost before = notes@;
        notes.push(LogEntry {
            service: service.clone(),
            endpoint: None,
            method: String::from_str("DEBUG"),
            path: crate::text::concat2("Request body: ", body_text.as_str()),
            status: 200,
        });
        assert(entries_view(notes@) =~= entries_view(before).push(entry_view(notes@.last())));
    }
    assert(entries_view(notes@) =~= request_notes(service@, req));
    (RequestData {
        method,
        path,
        relative,
        query_text: query,
        query: query_map,
        headers,
        body: parsed,
        origin,
        service,
        notes,
    }, body)
}

/// The note of a request's `Origin` header.
fn origin_entry(h: &StrMap<String>, service: &String) -> (l: LogEntry)
    requires
        h.wf(),
    ensures
        entry_view(l) == origin_note(service@, headers_view(*h)),
{
    let seen = match h.get("origin") {
        Some(v) => v.clone(),
        None => String::from_str("none"),
    };
    LogEntry {
        service: service.clone(),
        endpoint: None,
        method: String::from_str("DEBUG"),
        path: crate::text::concat2("Request Origin: ", seen.as_str()),
        status: 200,
    }
}

/// A copy of a side effect.
fn copy_effect(se: &SideEffect) -> (c: SideEffect)
    ensures
        c == *se,
{
    SideEffect { action: se.action.clone(), target: se.target.clone(), value: se.value.clone() }
}

/// A copy of a list of side effects.
fn copy_effects(v: &Vec<SideEffect>) -> (c: Vec<SideEffect>)
    ensures
        c@ == v@,
{
    let mut c: Vec<SideEffect> = Vec::new();
    let mut i: usize = 0;
    while i < v.len()
        invariant
            i <= v@.len(),
            c@ == v@.take(i as int),
        decreases v@.len() - i,
    {
        c.push(copy_effect(&v[i]));
        assert(c@ =~= v@.take(i + 1));
        i = i + 1;
    }
    assert(v@.take(v@.len() as int) =~= v@);
    c
}

/// A copy of a list of name/value pairs.
fn copy_pairs(v: &Vec<(String, String)>) -> (c: Vec<(String, String)>)
    ensures
        c@ == v@,
{
    let mut c: Vec<(String, String)> = Vec::new();
    let mut i: usize = 0;
    while i < v.len()
        invariant
            i <= v@.len(),
            c@ == v@.take(i as int),
        decreases v@.len() - i,
    {
        c.push((v[i].0.clone(), v[i].1.clone()));
        assert(c@ =~= v@.take(i + 1));
        i = i + 1;
    }
    assert(v@.take(v@.len() as int) =~= v@);
    c
}


/// The views of rendered templates.
pub open spec fn rendered_views(v: Seq<Result<String, String>>) -> Seq<Result<Seq<char>, Seq<char>>> {
    v.map_values(|x: Result<String, String>| match x {
        Ok(t) => Ok(t@),
        Err(e) => Err(e@),
    })
}

/// The request body as a JSON value (`null` when there is none).
pub open spec fn body_data(b: Option<JsonValue>) -> JsonData {
    match b {
        Some(v) => json_data(v),
        None => JsonData::Null,
    }
}

/// The context a response script gets: the request, the path parameters,
/// and the service's fixtures and runtime data as they are.
pub open spec fn script_context_ok(ctx: JsonValue, d: RequestData, params: PathParameters, state: ServiceState) -> bool {
    exists|pt: StrMap<String>, f: StrMap<JsonValue>, rt: StrMap<JsonValue>|
        pt@.map_values(|v: String| v@) == params@ && data_map(f) == state.fixtures_view()
        && data_map(rt) == state.runtime_view()
        && json_data(ctx) == #[trigger] script_context_of(script_request_of(d.method@, d.relative@, d.query, d.headers,
            body_data(d.body)), pt, f, rt)
}

/// Going on once a response is chosen: its script runs first when it has
/// one; else its templates (its own body first) are rendered.
pub open spec fn after_selection_ok(def: ServiceDefinition, state: ServiceState, d: RequestData, sel: Selection,
    r: (HandlerProgress, HandlerAction)) -> bool {
    let rd = selected_definition(def, sel);
    match rd.script {
        Some(path) => (r.0 matches HandlerProgress::Script(d2, s2) && d2 == d && s2 == sel)
            && (r.1 matches HandlerAction::RunScript(sp, ctx) && sp@ == path@ && script_context_ok(ctx, d, sel.params, state)),
        None => (r.0 matches HandlerProgress::Templates(d2, s2, body) && d2 == d && s2 == sel && body@ == rd.body@)
            && (r.1 matches HandlerAction::Render(ts) && string_views(ts@) == reply_templates(rd, rd.body@)),
    }
}

/// The endpoint at `k` answers a request and none before it does.
pub open spec fn first_answering(eps: Seq<EndpointDefinition>, k: int, method: Seq<char>, path: Seq<char>,
    headers: Map<Seq<char>, Seq<char>>) -> bool {
    &&& 0 <= k < eps.len()
    &&& endpoint_matches(eps[k], method, path, headers)
    &&& forall|j: int| 0 <= j < k ==> !endpoint_matches(#[trigger] eps[j], method, path, headers)
}

/// The rotation counter of the endpoint that answers a request, if one is
/// looked for and found, points at one of its scenarios.
pub open spec fn answering_rotation_ok(inst: ServiceInstance, req: IncomingRequest, gql: Option<GraphQLMocks>) -> bool {
    let def = inst.definition_view();
    let eps = def.endpoints@;
    let m = req.method@;
    let rel = relative_path_of(req.path@, def.server.base_path@);
    let hv = headers_view(req.headers);
    m != "OPTIONS"@ && !graphql_takes(gql, m, rel) && !(m == "GET"@ && rel == logs_path()) ==> forall|k: int|
        #[trigger] first_answering(eps, k, m, rel, hv) ==> (eps[k].scenarios matches Some(v)
            ==> rotation_in_range(v@, inst.state_view().counter_of(k as usize)))
}

/// A request an endpoint answers: the scenario is chosen (see
/// [`scenario_choice_ok`]); with one, its response goes on (see
/// [`after_selection_ok`]); without, the conditions of the endpoint's
/// responses are rendered.
pub open spec fn endpoint_start_ok(inst0: ServiceInstance, inst1: ServiceInstance, req: IncomingRequest, k: int,
    r: (HandlerProgress, HandlerAction)) -> bool {
    let def = inst0.definition_view();
    let eps = def.endpoints@;
    let rel = relative_path_of(req.path@, def.server.base_path@);
    let hv = headers_view(req.headers);
    &&& inst1.definition_view() == def
    &&& same_setup(inst1, inst0)
    &&& match r.0 {
        HandlerProgress::Conditions(d, idx, ps) => {
            &&& idx == k
            &&& path_params_spec(eps[k].path@, rel) == Some(ps@)
            &&& request_data_ok(d, req, def)
            &&& scenario_choice_ok(eps[k], inst0.state_view(), inst1.state_view(), k as usize, inst0.scenario(),
                query_of(req.query), hv, d.body, None)
            &&& r.1 matches HandlerAction::Render(ts) && string_views(ts@) == condition_templates(eps[k].responses@)
        },
        HandlerProgress::Script(d, sel) => {
            &&& sel.endpoint_index == k
            &&& path_params_spec(eps[k].path@, rel) == Some(sel.params@)
            &&& request_data_ok(d, req, def)
            &&& sel.chosen matches Chosen::Scenario(c) && scenario_choice_ok(eps[k], inst0.state_view(),
                inst1.state_view(), k as usize, inst0.scenario(), query_of(req.query), hv, d.body, Some(c))
            &&& after_selection_ok(def, inst1.state_view(), d, sel, r)
        },
        HandlerProgress::Templates(d, sel, _) => {
            &&& sel.endpoint_index == k
            &&& path_params_spec(eps[k].path@, rel) == Some(sel.params@)
            &&& request_data_ok(d, req, def)
            &&& sel.chosen matches Chosen::Scenario(c) && scenario_choice_ok(eps[k], inst0.state_view(),
                inst1.state_view(), k as usize, inst0.scenario(), query_of(req.query), hv, d.body, Some(c))
            &&& after_selection_ok(def, inst1.state_view(), d, sel, r)
        },
        _ => false,
    }
}

/// A request no endpoint answers, recorded as a new endpoint: the endpoint
/// is added (its pattern the normalized path, its method in upper case),
/// the reply is 409 with the recording's body and the CORS headers, and the
/// definition is to be saved.
pub open spec fn recorded_ok(inst0: ServiceInstance, inst1: ServiceInstance, req: IncomingRequest,
    r: (HandlerProgress, HandlerAction)) -> bool {
    let def = inst0.definition_view();
    let rel = relative_path_of(req.path@, def.server.base_path@);
    let hv = headers_view(req.headers);
    let recorded = normalized_recorded_path(rel);
    &&& inst1.definition_view().endpoints@.len() == def.endpoints@.len() + 1
    &&& inst1.definition_view().endpoints@.take(def.endpoints@.len() as int) == def.endpoints@
    &&& inst1.definition_view().endpoints@.last().path@ == recorded
    &&& inst1.definition_view().endpoints@.last().method@ == crate::text::unicode_upper(req.method@)
    &&& inst1.definition_view().name == def.name
    &&& inst1.definition_view().server == def.server
    &&& inst1.definition_view().fixtures == def.fixtures
    &&& same_setup(inst1, inst0)
    &&& inst1.state_view() == inst0.state_view()
    &&& r.0 is Done
    &&& r.1 matches HandlerAction::Reply(rep) && rep.status == 409
        && rep.body@ == recorded_reply_body_of(req.method@, req.path@, recorded)
        && header_pairs_view(rep.headers@) == seq![("content-type"@, "application/json"@)]
            + cors_headers_of(def.server.cors, header_text(hv, "origin"@))
        && log_ok(rep.log, request_notes(def.name@, req), def.name@, None, req.method@, req.path@, 409)
        && rep.save_definition
}

/// What taking a request does: a CORS preflight is answered at once (204,
/// empty body, the preflight headers); a request the GraphQL mocks take is
/// answered by them; a `GET` of the request log path asks for the log;
/// a request an endpoint answers goes to it (see [`endpoint_start_ok`]);
/// else it is forwarded when a proxy is set, recorded when recording is on
/// (see [`recorded_ok`]), or answered 404.
pub open spec fn start_ok(inst0: ServiceInstance, inst1: ServiceInstance, req: IncomingRequest,
    gql: Option<GraphQLMocks>, r: (HandlerProgress, HandlerAction)) -> bool {
    let def = inst0.definition_view();
    let hv = headers_view(req.headers);
    let m = req.method@;
    let p = req.path@;
    let rel = relative_path_of(p, def.server.base_path@);
    let service = def.name@;
    let eps = def.endpoints@;
    if m == "OPTIONS"@ {
        &&& inst1 == inst0
        &&& r.0 is Done
        &&& r.1 matches HandlerAction::Reply(rep) && rep.status == 204 && rep.body@ == Seq::<char>::empty()
            && header_pairs_view(rep.headers@) == preflight_headers_of(def.server.cors, header_text(hv, "origin"@),
                header_opt(hv, "access-control-request-headers"@))
            && log_ok(rep.log, preflight_notes(service, req), service, None, m, p, 204) && !rep.save_definition
    } else if graphql_takes(gql, m, rel) {
        &&& inst1 == inst0
        &&& graphql_start_ok(gql->0, m, graphql_request_operation(req.body@), request_notes(service, req), service, p, r)
        &&& r.0 matches HandlerProgress::GraphQL(d) ==> request_data_ok(d, req, def)
    } else if m == "GET"@ && rel == logs_path() {
        &&& inst1 == inst0
        &&& r.0 matches HandlerProgress::Logs(d) && request_data_ok(d, req, def)
        &&& r.1 matches HandlerAction::ListLogs(q) && logs_query_ok(q, query_of(req.query))
    } else if exists|j: int| 0 <= j < eps.len() && endpoint_matches(#[trigger] eps[j], m, rel, hv) {
        exists|k: int| first_answering(eps, k, m, rel, hv) && endpoint_start_ok(inst0, inst1, req, k, r)
    } else {
        match def.server.proxy_base_url {
            Some(b) => {
                &&& inst1 == inst0
                &&& r.0 matches HandlerProgress::Forwarding(d) && request_data_ok(d, req, def)
                &&& r.1 matches HandlerAction::Forward(u) && u@ == proxy_url_of(b@, rel, opt_text(req.query))
            },
            None => if def.server.record_unknown {
                recorded_ok(inst0, inst1, req, r)
            } else {
                &&& inst1 == inst0
                &&& r.0 is Done
                &&& json_reply_ok(r.1, 404, not_found_body_of(m, rel, service), request_notes(service, req), service, m, p)
            },
        }
    }
}

/// The body of the reply when no response of an endpoint answers.
pub open spec fn no_response_body() -> Seq<char> {
    "{\"error\": \"No response definition found\"}"@
}

/// Whether each response's condition held, from the renderings of the
/// conditions.
pub open spec fn condition_holds(rs: Seq<(u16, ResponseDefinition)>, vals: Seq<Result<Seq<char>, Seq<char>>>) -> Seq<bool> {
    Seq::new(rs.len(), |j: int| rs[j].1.condition is Some && (vals[j] matches Ok(t) && truthy(t)))
}

/// What the rendered conditions of an endpoint's responses give: the
/// response they select goes on (see [`after_selection_ok`]); when none
/// does, the reply is 500.
pub open spec fn conditions_ok(def: ServiceDefinition, state: ServiceState, d: RequestData, k: usize,
    ps: PathParameters, vals: Seq<Result<Seq<char>, Seq<char>>>, r: (HandlerProgress, HandlerAction)) -> bool {
    let rs = def.endpoints@[k as int].responses@;
    match selected_response(rs, condition_holds(rs, vals)) {
        None => r.0 is Done && (r.1 matches HandlerAction::Reply(rep) && rep.status == 500
            && rep.body@ == no_response_body()
            && header_pairs_view(rep.headers@) == seq![("content-type"@, "application/json"@)]
            && log_ok(rep.log, entries_view(d.notes@), d.service@, Some(k), d.method@, d.path@, 500)
            && !rep.save_definition),
        Some(i) => after_selection_ok(def, state, d,
            Selection { endpoint_index: k, params: ps, status: rs[i].0, chosen: Chosen::Response(i as usize) }, r),
    }
}

/// The body a script's result gives, if any: a string as it is, another
/// value as compact JSON; `null` gives none.
pub open spec fn script_body_of(v: JsonData) -> Option<Seq<char>> {
    match v {
        JsonData::Null => None,
        JsonData::Str(t) => Some(t),
        other => Some(compact(other)),
    }
}

/// What a script's outcome gives: an object result's fields are stored as
/// runtime data; a result other than `null` overrides the response body; a
/// failed script changes nothing. The templates are rendered next.
pub open spec fn script_ok(def: ServiceDefinition, s0: ServiceState, s1: ServiceState, d: RequestData, sel: Selection,
    outcome: Result<JsonValue, String>, r: (HandlerProgress, HandlerAction)) -> bool {
    let rd = selected_definition(def, sel);
    let body = match outcome {
        Ok(v) => match script_body_of(json_data(v)) {
            Some(b) => b,
            None => rd.body@,
        },
        Err(_) => rd.body@,
    };
    &&& s1.wf()
    &&& s1.fixtures_view() == s0.fixtures_view()
    &&& s1.initial_view() == s0.initial_view()
    &&& forall|e: usize| #[trigger] s1.counter_of(e) == s0.counter_of(e)
    &&& s1.runtime_view() == match outcome {
        Ok(v) => match json_data(v) {
            JsonData::Object(fs) => crate::handler::store_fields(s0.runtime_view(), fs),
            _ => s0.runtime_view(),
        },
        Err(_) => s0.runtime_view(),
    }
    &&& r.0 matches HandlerProgress::Templates(d2, s2, b2) && d2 == d && s2 == sel && b2@ == body
    &&& r.1 matches HandlerAction::Render(ts) && string_views(ts@) == reply_templates(rd, body)
}

/// One side effect applied with the rendering of its value: the value is
/// parsed as JSON and the action done (see
/// [`crate::handler::process_side_effect`]); a failed rendering or action
/// changes nothing.
pub open spec fn effect_step(se: SideEffect, v: Result<Seq<char>, Seq<char>>, a: ServiceState, b: ServiceState) -> bool {
    match v {
        Ok(t) => exists|res: Result<(), RuntimeError>| #[trigger] side_effect_done(effect_outcome(se, t, a), a, b, res),
        Err(_) => b == a,
    }
}

/// What a side effect does to a state, with the text its value rendered to.
pub open spec fn effect_outcome(se: SideEffect, t: Seq<char>, a: ServiceState)
    -> Result<(Map<Seq<char>, JsonData>, Map<Seq<char>, JsonData>), (Seq<char>, Seq<char>)> {
    match json_parsed(t) {
        Ok(dd) => side_effect_result(se.action@, se.target@, dd, a.fixtures_view(), a.runtime_view()),
        Err(m) => Err(side_effect_parse_error(m)),
    }
}

/// The side effects applied in turn, each with the rendering of its value.
pub open spec fn effects_applied(es: Seq<SideEffect>, vals: Seq<Result<Seq<char>, Seq<char>>>, s0: ServiceState,
    s1: ServiceState) -> bool {
    exists|trace: Seq<ServiceState>| trace.len() == es.len() + 1 && trace[0] == s0 && trace.last() == s1
        && forall|i: int| 0 <= i < es.len() ==> #[trigger] effect_step(es[i], vals[i], trace[i], trace[i + 1])
}

/// The headers of a response with the values sent (see
/// [`crate::handler::header_value_of`]), from the renderings of their values.
pub open spec fn sent_headers(hs: Seq<(String, String)>, vals: Seq<Result<Seq<char>, Seq<char>>>) -> Seq<(Seq<char>, Seq<char>)> {
    Seq::new(hs.len(), |i: int| (hs[i].0@, header_value_of(hs[i].1@, vals[i])))
}

/// The error of a response body template that could not be processed.
pub open spec fn template_failure(method: Seq<char>, path: Seq<char>, service: Seq<char>, err: (Seq<char>, Seq<char>))
    -> (Seq<char>, Seq<char>) {
    ("Failed to process template for "@ + method + " "@ + path + " in service '"@ + service + "': "@ + err.0,
        "Check template syntax and fixture availability"@)
}

/// What the renderings of a response's templates give: the body processed
/// (see [`processed_body_of`]), failing the request when it cannot be;
/// else the side effects applied in turn, and the reply with the response's
/// status, content type, own headers and CORS headers.
pub open spec fn finish_ok(def: ServiceDefinition, s0: ServiceState, s1: ServiceState, d: RequestData, sel: Selection,
    body: Seq<char>, vals: Seq<Result<Seq<char>, Seq<char>>>, r: (HandlerProgress, HandlerAction)) -> bool {
    let rd = selected_definition(def, sel);
    let es = effects_of(rd);
    let hs = own_headers_of(rd);
    &&& r.0 is Done
    &&& match processed_body_of(body, vals[0]) {
        Err(err) => s1 == s0 && (r.1 matches HandlerAction::Fail(e, l)
            && runtime_error_view(e) == template_failure(d.method@, d.path@, d.service@, err)
            && entries_view(l@) == entries_view(d.notes@)),
        Ok(text) => {
            &&& effects_applied(es, vals.subrange(1, 1 + es.len() as int), s0, s1)
            &&& r.1 matches HandlerAction::Reply(rep) && rep.status == status_or_ok_spec(sel.status)
                && rep.body@ == text
                && header_pairs_view(rep.headers@) == response_headers_of(rd.content_type@,
                    sent_headers(hs, vals.skip(1 + es.len() as int)), def.server.cors, d.origin@)
                && log_ok(rep.log, entries_view(d.notes@), d.service@, Some(sel.endpoint_index), d.method@, d.path@,
                    sel.status)
                && !rep.save_definition
        },
    }
}

/// One step of answering a request (see [`handler_step`]).
pub open spec fn step_ok(p: HandlerProgress, e: HandlerEvent, inst0: ServiceInstance, inst1: ServiceInstance,
    r: (HandlerProgress, HandlerAction)) -> bool {
    let def = inst0.definition_view();
    match e {
        HandlerEvent::Start(req, gql) => start_ok(inst0, inst1, req, gql, r),
        HandlerEvent::Rendered(v) => match p {
            HandlerProgress::GraphQL(d) => inst1 == inst0 && r.0 is Done && match rendered_views(v@)[0] {
                Ok(t) => json_reply_ok(r.1, 200, t, entries_view(d.notes@), d.service@, d.method@, d.path@),
                Err(m) => json_reply_ok(r.1, 500, "{\"error\":\""@ + m + "\"}"@, entries_view(d.notes@), d.service@, d.method@, d.path@),
            },
            HandlerProgress::Conditions(d, k, ps) => inst1 == inst0
                && conditions_ok(def, inst0.state_view(), d, k, ps, rendered_views(v@), r),
            HandlerProgress::Templates(d, sel, body) => inst1.definition_view() == def && same_setup(inst1, inst0)
                && finish_ok(def, inst0.state_view(), inst1.state_view(), d, sel, body@, rendered_views(v@), r),
            _ => false,
        },
        HandlerEvent::ScriptRan(outcome) => match p {
            HandlerProgress::Script(d, sel) => inst1.definition_view() == def && same_setup(inst1, inst0)
                && script_ok(def, inst0.state_view(), inst1.state_view(), d, sel, outcome, r),
            _ => false,
        },
        HandlerEvent::Forwarded(outcome) => match p {
            HandlerProgress::Forwarding(d) => inst1 == inst0 && r.0 is Done && match outcome {
                Ok(status) => r.1 matches HandlerAction::Relay(l)
                    && log_ok(l, entries_view(d.notes@), d.service@, None, d.method@, d.path@, status),
                Err(m) => json_reply_ok(r.1, 502, "{\"error\": \"Proxy request failed\", \"details\": \""@ + m@ + "\"}"@,
                    entries_view(d.notes@), d.service@, d.method@, d.path@),
            },
            _ => false,
        },
        HandlerEvent::LogsListed(text) => match p {
            HandlerProgress::Logs(d) => inst1 == inst0 && r.0 is Done
                && json_reply_ok(r.1, 200, text@, entries_view(d.notes@), d.service@, d.method@, d.path@),
            _ => false,
        },
    }
}

/// The templates to render for a response: its body, its side effects'
/// values, its headers' values.
fn reply_template_list(rd: &ResponseDefinition, body: &String) -> (ts: Vec<String>)
    ensures
        string_views(ts@) == reply_templates(*rd, body@),
{
    let mut ts: Vec<String> = Vec::new();
    ts.push(body.clone());
    let ghost es = effects_of(*rd);
    let ghost hs = own_headers_of(*rd);
    assert(string_views(ts@) =~= seq![body@]);
    if let Some(v) = &rd.side_effects {
        let mut i: usize = 0;
        while i < v.len()
            invariant
                i <= v@.len(),
                es == v@,
                string_views(ts@) == seq![body@] + Seq::new(i as nat, |j: int| es[j].value@),
            decreases v@.len() - i,
        {
            let ghost before = ts@;
            ts.push(v[i].value.clone());
            assert(string_views(ts@) =~= string_views(before).push(v@[i as int].value@));
            assert(seq![body@] + Seq::new((i + 1) as nat, |j: int| es[j].value@) =~= (seq![body@]
                + Seq::new(i as nat, |j: int| es[j].value@)).push(es[i as int].value@));
            i = i + 1;
        }
    }
    let ghost mid = string_views(ts@);
    assert(mid =~= seq![body@] + Seq::new(es.len(), |j: int| es[j].value@));
    if let Some(v) = &rd.headers {
        let mut i: usize = 0;
        while i < v.len()
            invariant
                i <= v@.len(),
                hs == v@,
                string_views(ts@) == mid + Seq::new(i as nat, |j: int| hs[j].1@),
            decreases v@.len() - i,
        {
            let ghost before = ts@;
            ts.push(v[i].1.clone());
            assert(string_views(ts@) =~= string_views(before).push(v@[i as int].1@));
            assert(mid + Seq::new((i + 1) as nat, |j: int| hs[j].1@) =~= (mid + Seq::new(i as nat, |j: int| hs[j].1@))
                .push(hs[i as int].1@));
            i = i + 1;
        }
    }
    assert(string_views(ts@) =~= mid + Seq::new(hs.len(), |j: int| hs[j].1@));
    ts
}

/// The conditions of responses, one template each.
fn condition_list(rs: &Vec<(u16, ResponseDefinition)>) -> (ts: Vec<String>)
    ensures
        string_views(ts@) == condition_templates(rs@),
{
    let mut ts: Vec<String> = Vec::new();
    let mut i: usize = 0;
    while i < rs.len()
        invariant
            i <= rs@.len(),
            string_views(ts@) == condition_templates(rs@).take(i as int),
        decreases rs@.len() - i,
    {
        let t = match &rs[i].1.condition {
            Some(c) => c.clone(),
            None => String::new(),
        };
        let ghost before = ts@;
        assert(t@ == condition_templates(rs@)[i as int]);
        ts.push(t);
        assert(string_views(ts@) =~= string_views(before).push(condition_templates(rs@)[i as int]));
        assert(string_views(ts@) =~= condition_templates(rs@).take(i + 1));
        i = i + 1;
    }
    assert(condition_templates(rs@).take(rs@.len() as int) =~= condition_templates(rs@));
    ts
}

/// The response a selection names.
fn selected<'a>(instance: &'a ServiceInstance, sel: &Selection) -> (rd: &'a ResponseDefinition)
    requires
        selection_ok(instance.definition_view(), *sel),
    ensures
        *rd == selected_definition(instance.definition_view(), *sel),
{
    let ep = &instance.endpoints()[sel.endpoint_index];
    match sel.chosen {
        Chosen::Scenario(k) => match &ep.scenarios {
            Some(v) => &v[k].response.definition,
            None => vstd::pervasive::unreached(),
        },
        Chosen::Response(i) => &ep.responses[i].1,
    }
}

/// Goes on with a chosen response: its script first, else its templates.
fn go_on(instance: &ServiceInstance, d: RequestData, sel: Selection) -> (r: (HandlerProgress, HandlerAction))
    requires
        d.wf(),
        selection_ok(instance.definition_view(), sel),
        instance.state_view().wf(),
    ensures
        after_selection_ok(instance.definition_view(), instance.state_view(), d, sel, r),
        progress_ok(r.0, instance.definition_view()),
{
    let rd = selected(instance, &sel);
    match &rd.script {
        Some(path) => {
            let state = instance.state();
            let pt = sel.params.all();
            let f = state.all_fixtures();
            let rt = state.all_runtime_data();
            let ctx = script_context(d.method.as_str(), d.relative.as_str(), &d.query, &d.headers, &d.body, pt, f, rt);
            proof {
                assert(json_data(ctx) == script_context_of(script_request_of(d.method@, d.relative@, d.query, d.headers,
                    body_data(d.body)), *pt, *f, *rt));
            }
            let sp = path.clone();
            (HandlerProgress::Script(d, sel), HandlerAction::RunScript(sp, ctx))
        },
        None => {
            let body = rd.body.clone();
            let ts = reply_template_list(rd, &body);
            (HandlerProgress::Templates(d, sel, body), HandlerAction::Render(ts))
        },
    }
}

/// Takes a request (see [`start_ok`]).
#[verifier::spinoff_prover]
#[verifier::rlimit(60)]
fn start(instance: &mut ServiceInstance, req: IncomingRequest, gql: Option<GraphQLMocks>) -> (r: (HandlerProgress, HandlerAction))
    requires
        old(instance).state_view().wf(),
        req.headers.wf(),
        answering_rotation_ok(*old(instance), req, gql),
    ensures
        start_ok(*old(instance), *final(instance), req, gql, r),
        rotations_ok(*old(instance)) ==> rotations_ok(*final(instance)),
        final(instance).state_view().wf(),
        progress_ok(r.0, final(instance).definition_view()),
{
    let ghost req0 = req;
    let ghost def = instance.definition_view();
    let ghost hv = headers_view(req.headers);
    if crate::text::str_eq(req.method.as_str(), "OPTIONS") {
        let origin = header_or_empty(&req.headers, "origin");
        let requested = header_value_opt(&req.headers, "access-control-request-headers");
        let headers = match &requested {
            Some(q) => preflight_headers(instance.cors_config(), origin.as_str(), Some(q.as_str())),
            None => preflight_headers(instance.cors_config(), origin.as_str(), None),
        };
        let service = instance.name();
        let mut log: Vec<LogEntry> = Vec::new();
        log.push(origin_entry(&req.headers, &service));
        log.push(LogEntry {
            service: service.clone(),
            endpoint: None,
            method: String::from_str("DEBUG"),
            path: String::from_str("CORS preflight response sent"),
            status: 204,
        });
        log.push(LogEntry { service, endpoint: None, method: req.method, path: req.path, status: 204 });
        assert(entries_view(log@) =~= preflight_notes(def.name@, req0).push((def.name@, None, req0.method@, req0.path@, 204)));
        return (HandlerProgress::Done, HandlerAction::Reply(Reply {
            status: 204,
            headers,
            body: String::new(),
            log,
            save_definition: false,
        }));
    }
    let (d, body_bytes) = read_request(instance, req);
    if let Some(g) = &gql {
        match handle_graphql_body(g, d.method.as_str(), d.relative.as_str(), body_bytes.as_slice()) {
            Some(GraphQLReply::Schema(schema)) => {
                let mut headers: Vec<(String, String)> = Vec::new();
                headers.push((String::from_str("content-type"), String::from_str("text/plain")));
                assert(header_pairs_view(headers@) =~= seq![("content-type"@, "text/plain"@)]);
                let log = log_entry(&d, None, 200);
                return (HandlerProgress::Done, HandlerAction::Reply(Reply {
                    status: 200,
                    headers,
                    body: schema,
                    log,
                    save_definition: false,
                }));
            },
            Some(GraphQLReply::Error(status, text)) => {
                let a = json_reply(&d, status, text);
                return (HandlerProgress::Done, a);
            },
            Some(GraphQLReply::Render(template)) => {
                let mut ts: Vec<String> = Vec::new();
                ts.push(template);
                return (HandlerProgress::GraphQL(d), HandlerAction::Render(ts));
            },
            None => {},
        }
    }
    let cors_reply = cors_headers(instance.cors_config(), d.origin.as_str());
    let proxy = match &instance.definition().server.proxy_base_url {
        Some(b) => Some(b.clone()),
        None => None,
    };
    let record_unknown = instance.definition().server.record_unknown;
    let query_text = match &d.query_text {
        Some(q) => Some(q.as_str()),
        None => None,
    };
    let route = decide_route(d.method.as_str(), d.relative.as_str(), instance.endpoints().as_slice(), &d.headers, &proxy,
        query_text, record_unknown);
    match route {
        RequestRoute::Logs => {
            let q = logs_query(&d.query);
            (HandlerProgress::Logs(d), HandlerAction::ListLogs(q))
        },
        RequestRoute::Proxy(url) => (HandlerProgress::Forwarding(d), HandlerAction::Forward(url)),
        RequestRoute::NotFound => {
            let body = not_found_body(d.method.as_str(), d.relative.as_str(), d.service.as_str());
            let a = json_reply(&d, 404, body);
            (HandlerProgress::Done, a)
        },
        RequestRoute::Record => {
            let (endpoint, recorded_path) = build_recorded_endpoint(d.method.as_str(), d.relative.as_str());
            let ghost ev = endpoint;
            instance.record_endpoint(endpoint);
            proof {
                let news = instance.definition_view().endpoints@;
                assert(news.take(def.endpoints@.len() as int) =~= def.endpoints@);
                assert(news.last() == ev);
            }
            let mut headers: Vec<(String, String)> = Vec::new();
            headers.push((String::from_str("content-type"), String::from_str("application/json")));
            let mut cors_reply = cors_reply;
            headers.append(&mut cors_reply);
            assert(header_pairs_view(headers@) =~= seq![("content-type"@, "application/json"@)]
                + cors_headers_of(def.server.cors, d.origin@));
            let body = recorded_reply_body(d.method.as_str(), d.path.as_str(), recorded_path.as_str());
            let log = log_entry(&d, None, 409);
            (HandlerProgress::Done, HandlerAction::Reply(Reply { status: 409, headers, body, log, save_definition: true }))
        },
        RequestRoute::Endpoint(m) => {
            let k = m.endpoint_index;
            let params = m.path_params;
            proof {
                let eps = def.endpoints@;
                assert(first_answering(eps, k as int, req0.method@, relative_path_of(req0.path@, def.server.base_path@), hv));
                assert(eps[k as int].scenarios matches Some(v) ==> rotation_in_range(v@, instance.state_view().counter_of(k)));
            }
            let choice = instance.choose_scenario(k, &d.query, &d.headers, &d.body);
            match choice {
                Some(c) => {
                    let status = match &instance.endpoints()[k].scenarios {
                        Some(v) => v[c].response.status,
                        None => vstd::pervasive::unreached(),
                    };
                    let sel = Selection { endpoint_index: k, params, status, chosen: Chosen::Scenario(c) };
                    let r = go_on(instance, d, sel);
                    proof {
                        assert(first_answering(def.endpoints@, k as int, req0.method@,
                            relative_path_of(req0.path@, def.server.base_path@), hv));
                    }
                    r
                },
                None => {
                    let ts = condition_list(&instance.endpoints()[k].responses);
                    proof {
                        assert(first_answering(def.endpoints@, k as int, req0.method@,
                            relative_path_of(req0.path@, def.server.base_path@), hv));
                    }
                    (HandlerProgress::Conditions(d, k, params), HandlerAction::Render(ts))
                },
            }
        },
    }
}

/// The rendered conditions of an endpoint's responses taken in (see
/// [`conditions_ok`]).
fn on_conditions(instance: &ServiceInstance, d: RequestData, k: usize, ps: PathParameters,
    rendered: Vec<Result<String, String>>) -> (r: (HandlerProgress, HandlerAction))
    requires
        d.wf(),
        ps.wf(),
        k < instance.definition_view().endpoints@.len(),
        rendered@.len() == instance.definition_view().endpoints@[k as int].responses@.len(),
        instance.state_view().wf(),
    ensures
        conditions_ok(instance.definition_view(), instance.state_view(), d, k, ps, rendered_views(rendered@), r),
        progress_ok(r.0, instance.definition_view()),
{
    let rs = &instance.endpoints()[k].responses;
    let ghost vals = rendered_views(rendered@);
    let mut holds: Vec<bool> = Vec::new();
    let mut i: usize = 0;
    while i < rs.len()
        invariant
            i <= rs@.len(),
            rendered@.len() == rs@.len(),
            vals == rendered_views(rendered@),
            holds@ == condition_holds(rs@, vals).take(i as int),
        decreases rs@.len() - i,
    {
        let h = match &rs[i].1.condition {
            Some(_) => match &rendered[i] {
                Ok(t) => is_truthy(t.as_str()),
                Err(_) => false,
            },
            None => false,
        };
        assert(h == condition_holds(rs@, vals)[i as int]);
        holds.push(h);
        assert(holds@ =~= condition_holds(rs@, vals).take(i + 1));
        i = i + 1;
    }
    assert(condition_holds(rs@, vals).take(rs@.len() as int) =~= condition_holds(rs@, vals));
    match select_response(rs, &holds) {
        None => {
            let mut headers: Vec<(String, String)> = Vec::new();
            headers.push((String::from_str("content-type"), String::from_str("application/json")));
            assert(header_pairs_view(headers@) =~= seq![("content-type"@, "application/json"@)]);
            let log = log_entry(&d, Some(k), 500);
            (HandlerProgress::Done, HandlerAction::Reply(Reply {
                status: 500,
                headers,
                body: String::from_str("{\"error\": \"No response definition found\"}"),
                log,
                save_definition: false,
            }))
        },
        Some(i) => {
            let status = rs[i].0;
            let sel = Selection { endpoint_index: k, params: ps, status, chosen: Chosen::Response(i) };
            go_on(instance, d, sel)
        },
    }
}

/// A script's outcome taken in (see [`script_ok`]).
fn on_script(instance: &mut ServiceInstance, d: RequestData, sel: Selection, outcome: Result<JsonValue, String>)
    -> (r: (HandlerProgress, HandlerAction))
    requires
        d.wf(),
        selection_ok(old(instance).definition_view(), sel),
        old(instance).state_view().wf(),
    ensures
        final(instance).definition_view() == old(instance).definition_view(),
        same_setup(*final(instance), *old(instance)),
        script_ok(old(instance).definition_view(), old(instance).state_view(), final(instance).state_view(), d, sel,
            outcome, r),
        progress_ok(r.0, final(instance).definition_view()),
{
    let given = selected(instance, &sel).body.clone();
    let body = match outcome {
        Ok(v) => {
            let over = apply_script_result(instance.state_mut(), v);
            match over {
                Some(b) => script_body_text(&b),
                None => given,
            }
        },
        Err(_) => given,
    };
    let rd = selected(instance, &sel);
    let ts = reply_template_list(rd, &body);
    (HandlerProgress::Templates(d, sel, body), HandlerAction::Render(ts))
}

/// A copy of a response's side effects.
fn effects_list(rd: &ResponseDefinition) -> (v: Vec<SideEffect>)
    ensures
        v@ == effects_of(*rd),
{
    match &rd.side_effects {
        Some(v) => copy_effects(v),
        None => Vec::new(),
    }
}

/// A copy of a response's headers.
fn headers_list(rd: &ResponseDefinition) -> (v: Vec<(String, String)>)
    ensures
        v@ == own_headers_of(*rd),
{
    match &rd.headers {
        Some(v) => copy_pairs(v),
        None => Vec::new(),
    }
}

/// The renderings of a response's templates taken in (see [`finish_ok`]).
#[verifier::spinoff_prover]
fn finish(instance: &mut ServiceInstance, d: RequestData, sel: Selection, body: String,
    rendered: Vec<Result<String, String>>) -> (r: (HandlerProgress, HandlerAction))
    requires
        d.wf(),
        selection_ok(old(instance).definition_view(), sel),
        old(instance).state_view().wf(),
        rendered@.len() == reply_templates(selected_definition(old(instance).definition_view(), sel), body@).len(),
    ensures
        final(instance).definition_view() == old(instance).definition_view(),
        same_setup(*final(instance), *old(instance)),
        final(instance).state_view().wf(),
        forall|e: usize| #[trigger] final(instance).state_view().counter_of(e) == old(instance).state_view().counter_of(e),
        finish_ok(old(instance).definition_view(), old(instance).state_view(), final(instance).state_view(), d, sel,
            body@, rendered_views(rendered@), r),
{
    let ghost def = instance.definition_view();
    let ghost s0 = instance.state_view();
    let ghost vals = rendered_views(rendered@);
    let rd = selected(instance, &sel);
    let effects = effects_list(rd);
    let own = headers_list(rd);
    let content_type = rd.content_type.clone();
    let ne = effects.len();
    let nh = own.len();
    let mut rendered = rendered;
    let mut rest = rendered.split_off(1);
    let first = rendered.pop().unwrap();
    let first_copy = match &first {
        Ok(t) => Ok(t.clone()),
        Err(e) => Err(e.clone()),
    };
    let processed = process_response_body_template(body.as_str(), first_copy);
    let text = match processed {
        Err(e) => {
            let mut message = concat3("Failed to process template for ", d.method.as_str(), " ");
            message.append(d.path.as_str());
            message.append(" in service '");
            message.append(d.service.as_str());
            message.append("': ");
            message.append(e.message.as_str());
            let log = copy_entries(&d.notes);
            return (HandlerProgress::Done, HandlerAction::Fail(RuntimeError {
                message,
                suggestion: Some(String::from_str("Check template syntax and fixture availability")),
            }, log));
        },
        Ok(t) => t,
    };
    let header_values = rest.split_off(ne);
    let ghost ev = rendered_views(rest@);
    let ghost trace: Seq<ServiceState> = seq![s0];
    let mut i: usize = 0;
    while i < ne
        invariant
            i <= ne,
            ne == effects@.len(),
            rest@.len() == ne,
            ev == rendered_views(rest@),
            instance.state_view().wf(),
            instance.definition_view() == def,
            same_setup(*instance, *old(instance)),
            forall|e: usize| #[trigger] instance.state_view().counter_of(e) == s0.counter_of(e),
            trace.len() == i + 1,
            trace[0] == s0,
            trace.last() == instance.state_view(),
            forall|j: int| 0 <= j < i ==> #[trigger] effect_step(effects@[j], ev[j], trace[j], trace[j + 1]),
        decreases ne - i,
    {
        let ghost before = instance.state_view();
        match &rest[i] {
            Ok(v) => {
                let res = process_side_effect(&effects[i], instance.state_mut(), v.as_str());
                proof {
                    assert(side_effect_done(effect_outcome(effects@[i as int], ev[i as int]->Ok_0, before), before,
                        instance.state_view(), res));
                }
            },
            Err(_) => {},
        }
        proof {
            trace = trace.push(instance.state_view());
        }
        i = i + 1;
    }
    let mut sent: Vec<(String, String)> = Vec::new();
    let ghost hv = rendered_views(header_values@);
    let mut j: usize = 0;
    while j < nh
        invariant
            j <= nh,
            nh == own@.len(),
            header_values@.len() == nh,
            hv == rendered_views(header_values@),
            header_pairs_view(sent@) == sent_headers(own@, hv).take(j as int),
        decreases nh - j,
    {
        let rv = match &header_values[j] {
            Ok(t) => Ok(t.clone()),
            Err(e) => Err(e.clone()),
        };
        assert(match rv {
            Ok(t) => Ok::<Seq<char>, Seq<char>>(t@),
            Err(e) => Err::<Seq<char>, Seq<char>>(e@),
        } == hv[j as int]);
        let value = header_value(own[j].1.as_str(), rv);
        let ghost before = sent@;
        sent.push((own[j].0.clone(), value));
        assert(header_pairs_view(sent@) =~= header_pairs_view(before).push(sent_headers(own@, hv)[j as int]));
        assert(header_pairs_view(sent@) =~= sent_headers(own@, hv).take(j + 1));
        j = j + 1;
    }
    assert(sent_headers(own@, hv).take(nh as int) =~= sent_headers(own@, hv));
    let headers = response_headers(content_type.as_str(), &sent, instance.cors_config(), d.origin.as_str());
    let log = log_entry(&d, Some(sel.endpoint_index), sel.status);
    proof {
        assert(vals.subrange(1, 1 + ne as int) =~= ev);
        assert(vals.skip(1 + ne as int) =~= hv);
    }
    (HandlerProgress::Done, HandlerAction::Reply(Reply {
        status: status_or_ok(sel.status),
        headers,
        body: text,
        log,
        save_definition: false,
    }))
}

/// Whether every sequential scenario rotation of the service points at one
/// of its scenarios (see [`rotations_ok`]).
pub fn rotations_in_range(instance: &ServiceInstance) -> (b: bool)
    ensures
        b == rotations_ok(*instance),
{
    let eps = instance.endpoints();
    let mut i: usize = 0;
    while i < eps.len()
        invariant
            i <= eps@.len(),
            *eps == instance.definition_view().endpoints,
            forall|e: int| 0 <= e < i ==> ((#[trigger] eps@[e]).scenarios matches Some(v)
                ==> rotation_in_range(v@, instance.state_view().counter_of(e as usize))),
        decreases eps@.len() - i,
    {
        if !rotation_ready(&eps[i], instance.state(), i) {
            return false;
        }
        i = i + 1;
    }
    true
}

impl HandlerProgress {
    /// The request being answered, once taken.
    pub fn request(&self) -> (r: Option<&RequestData>)
        ensures
            match *self {
                HandlerProgress::Idle => r is None,
                HandlerProgress::Done => r is None,
                HandlerProgress::GraphQL(d) => r == Some(&d),
                HandlerProgress::Conditions(d, _, _) => r == Some(&d),
                HandlerProgress::Script(d, _) => r == Some(&d),
                HandlerProgress::Templates(d, _, _) => r == Some(&d),
                HandlerProgress::Forwarding(d) => r == Some(&d),
                HandlerProgress::Logs(d) => r == Some(&d),
            },
    {
        match self {
            HandlerProgress::Idle => None,
            HandlerProgress::Done => None,
            HandlerProgress::GraphQL(d) => Some(d),
            HandlerProgress::Conditions(d, _, _) => Some(d),
            HandlerProgress::Script(d, _) => Some(d),
            HandlerProgress::Templates(d, _, _) => Some(d),
            HandlerProgress::Forwarding(d) => Some(d),
            HandlerProgress::Logs(d) => Some(d),
        }
    }

    /// The path parameters templates are rendered with, when an endpoint
    /// answers.
    pub fn path_params(&self) -> (r: Option<&PathParameters>)
        ensures
            match *self {
                HandlerProgress::Conditions(_, _, ps) => r == Some(&ps),
                HandlerProgress::Script(_, sel) => r == Some(&sel.params),
                HandlerProgress::Templates(_, sel, _) => r == Some(&sel.params),
                _ => r is None,
            },
    {
        match self {
            HandlerProgress::Conditions(_, _, ps) => Some(ps),
            HandlerProgress::Script(_, sel) => Some(&sel.params),
            HandlerProgress::Templates(_, sel, _) => Some(&sel.params),
            _ => None,
        }
    }

    /// Whether an event is what this progress waits for (see [`accepts`]).
    pub fn accepts_event(&self, instance: &ServiceInstance, event: &HandlerEvent) -> (b: bool)
        requires
            progress_ok(*self, instance.definition_view()),
        ensures
            b == accepts(*self, *event, instance.definition_view()),
    {
        match event {
            HandlerEvent::Start(..) => matches!(self, HandlerProgress::Idle),
            HandlerEvent::Rendered(v) => match self {
                HandlerProgress::GraphQL(_) => v.len() == 1,
                HandlerProgress::Conditions(_, k, _) => v.len() == instance.endpoints()[*k].responses.len(),
                HandlerProgress::Templates(_, sel, body) => {
                    let rd = selected(instance, sel);
                    let ne = match &rd.side_effects {
                        Some(x) => x.len(),
                        None => 0,
                    };
                    let nh = match &rd.headers {
                        Some(x) => x.len(),
                        None => 0,
                    };
                    proof {
                        assert(reply_templates(*rd, body@).len() == 1 + ne + nh);
                    }
                    v.len() >= 1 && v.len() - 1 >= ne && v.len() - 1 - ne == nh
                },
                _ => false,
            },
            HandlerEvent::ScriptRan(_) => matches!(self, HandlerProgress::Script(..)),
            HandlerEvent::Forwarded(_) => matches!(self, HandlerProgress::Forwarding(_)),
            HandlerEvent::LogsListed(_) => matches!(self, HandlerProgress::Logs(_)),
        }
    }
}

/// Answers a request one step at a time (see [`step_ok`]): from `Idle`, a
/// `Start` event takes the request; each later step takes what the caller
/// did for the last action. Every reply comes with its request log entries:
/// the notes the request made (its origin, its body, that a preflight was
/// answered), then its own entry. A CORS preflight is answered 204 with an
/// empty body; a request no endpoint answers is answered 404, or 409 after
/// being recorded as a new endpoint (the definition then to be saved) when
/// recording is on, or forwarded when a proxy is set (502 when forwarding
/// failed); an endpoint without an answering response gives 500.
///
/// Only the rotation counter of the endpoint that answers must point at
/// one of its scenarios; and the rotation law holds: when every counter
/// does before a step, every counter still does after it (a counter moves
/// on modulo its number of candidates, and an endpoint recorded has no
/// scenarios). With [`ServiceInstance::new`] starting every counter in
/// range, a service that only answers requests through this function never
/// needs them checked.
pub fn handler_step(instance: &mut ServiceInstance, progress: HandlerProgress, event: HandlerEvent)
    -> (r: (HandlerProgress, HandlerAction))
    requires
        old(instance).state_view().wf(),
        progress_ok(progress, old(instance).definition_view()),
        accepts(progress, event, old(instance).definition_view()),
        event matches HandlerEvent::Start(req, gql) ==> req.headers.wf() && answering_rotation_ok(*old(instance), req, gql),
    ensures
        final(instance).state_view().wf(),
        rotations_ok(*old(instance)) ==> rotations_ok(*final(instance)),
        progress_ok(r.0, final(instance).definition_view()),
        step_ok(progress, event, *old(instance), *final(instance), r),
{
    match event {
        HandlerEvent::Start(req, gql) => start(instance, req, gql),
        HandlerEvent::Rendered(rendered) => match progress {
            HandlerProgress::GraphQL(d) => {
                let mut rendered = rendered;
                let first = rendered.pop();
                match first {
                    Some(Ok(text)) => {
                        let a = json_reply(&d, 200, text);
                        (HandlerProgress::Done, a)
                    },
                    Some(Err(e)) => {
                        let a = json_reply(&d, 500, render_error_body(e.as_str()));
                        (HandlerProgress::Done, a)
                    },
                    None => (HandlerProgress::Done, vstd::pervasive::unreached()),
                }
            },
            HandlerProgress::Conditions(d, k, ps) => on_conditions(instance, d, k, ps, rendered),
            HandlerProgress::Templates(d, sel, body) => finish(instance, d, sel, body, rendered),
            _ => (HandlerProgress::Done, vstd::pervasive::unreached()),
        },
        HandlerEvent::ScriptRan(outcome) => match progress {
            HandlerProgress::Script(d, sel) => on_script(instance, d, sel, outcome),
            _ => (HandlerProgress::Done, vstd::pervasive::unreached()),
        },
        HandlerEvent::Forwarded(outcome) => match progress {
            HandlerProgress::Forwarding(d) => match outcome {
                Ok(status) => {
                    let log = log_entry(&d, None, status);
                    (HandlerProgress::Done, HandlerAction::Relay(log))
                },
                Err(details) => {
                    let a = json_reply(&d, 502, proxy_error_body(details.as_str()));
                    (HandlerProgress::Done, a)
                },
            },
            _ => (HandlerProgress::Done, vstd::pervasive::unreached()),
        },
        HandlerEvent::LogsListed(text) => match progress {
            HandlerProgress::Logs(d) => {
                let a = json_reply(&d, 200, text);
                (HandlerProgress::Done, a)
            },
            _ => (HandlerProgress::Done, vstd::pervasive::unreached()),
        },
    }
}

} // verus!
