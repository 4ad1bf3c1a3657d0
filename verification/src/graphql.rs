//! GraphQL mock endpoint: which reply a request to `/graphql` gets.

use vstd::prelude::*;
use crate::postman::opt_str_view;
use crate::text::{concat2, concat3, str_eq};
use crate::validation::ConfigError;

verus! {

/// A loaded GraphQL schema and the mock template of each operation.
#[derive(Debug)]
pub struct GraphQLMocks {
    pub schema: String,
    /// Operation names and their templates.
    pub mocks: Vec<(String, String)>,
}

/// How a request to the GraphQL endpoint is answered.
#[derive(Debug)]
pub enum GraphQLReply {
    /// The schema text, as `text/plain` with status 200.
    Schema(String),
    /// The mock template to render for the operation, as JSON with status 200.
    Render(String),
    /// An error reply with its status and JSON body.
    Error(u16, String),
}

impl GraphQLMocks {
    /// Mocks for a schema, with no operation yet.
    pub fn new(schema: String) -> (g: Self)
        ensures
            g.schema == schema,
            g.mocks@.len() == 0,
    {
        GraphQLMocks { schema, mocks: Vec::new() }
    }

    /// Sets the mock template of an operation: a later template for an
    /// operation replaces the earlier one, else the operation is added last.
    pub fn set_mock(&mut self, operation: String, template: String)
        ensures
            final(self).schema == old(self).schema,
            match mock_index(old(self).mocks@, operation@) {
                Some(i) => final(self).mocks@ == old(self).mocks@.update(i, (old(self).mocks@[i].0, template)),
                None => final(self).mocks@ == old(self).mocks@.push((operation, template)),
            },
    {
        let mut i: usize = 0;
        assert(self.mocks@.take(0) =~= Seq::<(String, String)>::empty());
        while i < self.mocks.len()
            invariant
                i <= self.mocks@.len(),
                self.mocks@ == old(self).mocks@,
                self.schema == old(self).schema,
                mock_index(self.mocks@.take(i as int), operation@) is None,
            decreases self.mocks@.len() - i,
        {
            assert(self.mocks@.take(i + 1).drop_last() =~= self.mocks@.take(i as int));
            if str_eq(self.mocks[i].0.as_str(), operation.as_str()) {
                proof {
                    assert(self.mocks@.take(i + 1).last() == self.mocks@[i as int]);
                    assert(mock_index(self.mocks@.take(i + 1), operation@) == Some(i as int));
                    lemma_mock_index_prefix(self.mocks@, operation@, i + 1);
                }
                let name = self.mocks[i].0.clone();
                self.mocks.set(i, (name, template));
                return;
            }
            i = i + 1;
        }
        assert(self.mocks@.take(self.mocks@.len() as int) =~= self.mocks@);
        self.mocks.push((operation, template));
    }
}

/// The first mock of an operation.
pub open spec fn mock_index(mocks: Seq<(String, String)>, op: Seq<char>) -> Option<int>
    decreases mocks.len(),
{
    if mocks.len() == 0 {
        None
    } else {
        match mock_index(mocks.drop_last(), op) {
            Some(i) => Some(i),
            None => if mocks.last().0@ == op { Some(mocks.len() - 1) } else { None },
        }
    }
}

/// The reply to a GraphQL request: nothing unless the path is `/graphql`
/// and the method GET or POST; GET gets the schema; POST gets the rendering
/// of the operation's mock template, or an error when the body is not a
/// GraphQL request, names no operation or names an operation without mock.
/// `operation` is the body read as a GraphQL request: none when it is not
/// one, else its operation name.
pub open spec fn graphql_reply_ok(gql: GraphQLMocks, method: Seq<char>, relative_path: Seq<char>,
    operation: Option<Option<Seq<char>>>, r: Option<GraphQLReply>) -> bool
{
    if relative_path != "/graphql"@ {
        r is None
    } else if method == "GET"@ {
        r matches Some(GraphQLReply::Schema(s)) && s@ == gql.schema@
    } else if method == "POST"@ {
        match operation {
            None => r matches Some(GraphQLReply::Error(st, b)) && st == 400 && b@ == "{\"error\":\"Invalid GraphQL request\"}"@,
            Some(None) => r matches Some(GraphQLReply::Error(st, b)) && st == 400 && b@ == "{\"error\":\"Missing operationName\"}"@,
            Some(Some(op)) => match mock_index(gql.mocks@, op) {
                Some(i) => r matches Some(GraphQLReply::Render(t)) && t@ == gql.mocks@[i].1@,
                None => r matches Some(GraphQLReply::Error(st, b)) && st == 400
                    && b@ == "{\"error\":\"Unknown operation "@ + op + "\"}"@,
            },
        }
    } else {
        r is None
    }
}

/// The view of an operation read from a request body.
pub open spec fn operation_view(o: Option<Option<String>>) -> Option<Option<Seq<char>>> {
    match o {
        Some(Some(op)) => Some(Some(op@)),
        Some(None) => Some(None),
        None => None,
    }
}

/// The reply to a GraphQL request (see [`graphql_reply_ok`]), given the
/// body already read as a GraphQL request.
#[verifier::loop_isolation(false)]
pub fn handle_graphql_request(gql: &GraphQLMocks, method: &str, relative_path: &str, operation: Option<Option<String>>)
    -> (r: Option<GraphQLReply>)
    ensures
        graphql_reply_ok(*gql, method@, relative_path@, operation_view(operation), r),
{
    if !str_eq(relative_path, "/graphql") {
        return None;
    }
    if str_eq(method, "GET") {
        return Some(GraphQLReply::Schema(gql.schema.clone()));
    }
    if !str_eq(method, "POST") {
        return None;
    }
    match operation {
        None => Some(GraphQLReply::Error(400, String::from_str("{\"error\":\"Invalid GraphQL request\"}"))),
        Some(None) => Some(GraphQLReply::Error(400, String::from_str("{\"error\":\"Missing operationName\"}"))),
        Some(Some(op)) => {
            let mut i: usize = 0;
            assert(gql.mocks@.take(0) =~= Seq::<(String, String)>::empty());
            while i < gql.mocks.len()
                invariant
                    i <= gql.mocks@.len(),
                    mock_index(gql.mocks@.take(i as int), op@) is None,
                decreases gql.mocks@.len() - i,
            {
                assert(gql.mocks@.take(i + 1).drop_last() =~= gql.mocks@.take(i as int));
                if str_eq(gql.mocks[i].0.as_str(), op.as_str()) {
                    proof {
                        assert(gql.mocks@.take(i + 1).last() == gql.mocks@[i as int]);
                        assert(mock_index(gql.mocks@.take(i + 1), op@) == Some(i as int));
                        lemma_mock_index_prefix(gql.mocks@, op@, i + 1);
                    }
                    return Some(GraphQLReply::Render(gql.mocks[i].1.clone()));
                }
                i = i + 1;
            }
            assert(gql.mocks@.take(gql.mocks@.len() as int) =~= gql.mocks@);
            Some(GraphQLReply::Error(400, concat3("{\"error\":\"Unknown operation ", op.as_str(), "\"}")))
        },
    }
}

/// What reading a body as an `async_graphql::Request` gives: its operation
/// name (none when it names none), or nothing when the body is not such a
/// request.
pub uninterp spec fn graphql_request_operation(body: Seq<u8>) -> Option<Option<Seq<char>>>;

/// `serde_json::from_slice::<async_graphql::Request>` on the body, keeping
/// the request's operation name. The outcome depends on the body alone.
#[verifier::external_body]
fn read_graphql_request(body: &[u8]) -> (r: Option<Option<String>>)
    ensures
        operation_view(r) == graphql_request_operation(body@),
{
    serde_json::from_slice::<async_graphql::Request>(body).ok().map(|req| req.operation_name)
}

/// The reply to a GraphQL request with its raw body (see
/// [`graphql_reply_ok`]); the body is read as a GraphQL request only for a
/// POST to `/graphql`.
pub fn handle_graphql_body(gql: &GraphQLMocks, method: &str, relative_path: &str, body: &[u8])
    -> (r: Option<GraphQLReply>)
    ensures
        graphql_reply_ok(*gql, method@, relative_path@, graphql_request_operation(body@), r),
{
    if str_eq(relative_path, "/graphql") && str_eq(method, "POST") {
        let operation = read_graphql_request(body);
        handle_graphql_request(gql, method, relative_path, operation)
    } else {
        handle_graphql_request(gql, method, relative_path, None)
    }
}

/// What `async_graphql_parser::parse_schema` says of a schema text: nothing
/// when it parses, else its error message.
pub uninterp spec fn graphql_schema_error(schema: Seq<char>) -> Option<Seq<char>>;

/// `async_graphql_parser::parse_schema` on the text, keeping the error's
/// message. The outcome depends on the text alone.
#[verifier::external_body]
fn schema_parse_error(schema: &str) -> (r: Option<String>)
    ensures
        opt_str_view(r) == graphql_schema_error(schema@),
{
    async_graphql_parser::parse_schema(schema).err().map(|e| e.to_string())
}

/// Checks a loaded GraphQL schema: an error carrying the parser's message
/// when the text is not valid SDL.
pub fn check_graphql_schema(schema: &str) -> (r: Result<(), ConfigError>)
    ensures
        match graphql_schema_error(schema@) {
            None => r is Ok,
            Some(m) => r matches Err(e) && e.message@ == "Invalid GraphQL schema: "@ + m
                && (e.suggestion matches Some(sg) && sg@ == "Ensure the schema is valid SDL"@),
        },
{
    match schema_parse_error(schema) {
        None => Ok(()),
        Some(m) => Err(ConfigError {
            message: concat2("Invalid GraphQL schema: ", m.as_str()),
            suggestion: Some(String::from_str("Ensure the schema is valid SDL")),
        }),
    }
}

proof fn lemma_mock_index_prefix(mocks: Seq<(String, String)>, op: Seq<char>, n: int)
    requires
        0 <= n <= mocks.len(),
        mock_index(mocks.take(n), op) is Some,
    ensures
        mock_index(mocks, op) == mock_index(mocks.take(n), op),
    decreases mocks.len() - n,
{
    if n < mocks.len() {
        assert(mocks.take(n + 1).drop_last() =~= mocks.take(n));
        lemma_mock_index_prefix(mocks, op, n + 1);
    } else {
        assert(mocks.take(n) =~= mocks);
    }
}

/// The body of the reply when rendering a mock template failed.
pub fn render_error_body(error: &str) -> (r: String)
    ensures
        r@ == "{\"error\":\""@ + error@ + "\"}"@,
{
    concat3("{\"error\":\"", error, "\"}")
}

/// The frame a server-sent event carries a message in.
pub fn sse_frame(message: &str) -> (r: String)
    ensures
        r@ == "data: "@ + message@ + "\n\n"@,
{
    concat3("data: ", message, "\n\n")
}

/// The frames sent first on an event stream: one per initial template that
/// rendered, in order; templates that failed to render are skipped.
pub fn initial_sse_frames(rendered: &Vec<Result<String, String>>) -> (r: Vec<String>)
    ensures
        crate::text::string_views(r@) == sse_frames_of(rendered@),
{
    let mut out: Vec<String> = Vec::new();
    let mut i: usize = 0;
    assert(rendered@.take(0) =~= Seq::<Result<String, String>>::empty());
    assert(crate::text::string_views(out@) =~= Seq::<Seq<char>>::empty());
    while i < rendered.len()
        invariant
            i <= rendered@.len(),
            crate::text::string_views(out@) == sse_frames_of(rendered@.take(i as int)),
        decreases rendered@.len() - i,
    {
        assert(rendered@.take(i + 1).drop_last() =~= rendered@.take(i as int));
        match &rendered[i] {
            Ok(m) => {
                let ghost before = out@;
                out.push(sse_frame(m.as_str()));
                assert(crate::text::string_views(out@) =~= crate::text::string_views(before).push(out@.last()@));
            },
            Err(_) => {},
        }
        i = i + 1;
    }
    assert(rendered@.take(rendered@.len() as int) =~= rendered@);
    out
}

/// The frames of the messages that rendered.
pub open spec fn sse_frames_of(rendered: Seq<Result<String, String>>) -> Seq<Seq<char>>
    decreases rendered.len(),
{
    if rendered.len() == 0 {
        Seq::empty()
    } else {
        sse_frames_of(rendered.drop_last()) + match rendered.last() {
            Ok(m) => seq!["data: "@ + m@ + "\n\n"@],
            Err(_) => Seq::empty(),
        }
    }
}

} // verus!
