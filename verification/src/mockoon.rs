//! Mockoon environments: conversion into a service definition.

use vstd::prelude::*;
use crate::config::{EndpointDefinition, EndpointKind, ResponseDefinition, ServerConfig, ServiceDefinition};
use crate::postman::{
    endpoint_is, endpoints_are, opt_pairs_view, pairs_of, response_is, responses_are, upsert_header, upsert_pair,
    upsert_response, upsert_response_def, EndpointView, ResponseView,
};
use crate::text::{concat2, has_prefix, starts_with, to_uppercase, unicode_upper};

verus! {

/// A header of a Mockoon response.
#[derive(Debug)]
pub struct MockoonHeader {
    pub key: String,
    pub value: String,
}

/// A response of a Mockoon route.
#[derive(Debug)]
pub struct MockoonResponse {
    pub status_code: u16,
    pub body: String,
    pub content_type: Option<String>,
    pub headers: Vec<MockoonHeader>,
}

/// A route of a Mockoon environment.
#[derive(Debug)]
pub struct MockoonRoute {
    pub method: String,
    pub endpoint: String,
    pub responses: Vec<MockoonResponse>,
}

/// A Mockoon environment.
#[derive(Debug)]
pub struct MockoonEnvironment {
    pub name: String,
    pub port: u16,
    pub endpoint_prefix: String,
    pub routes: Vec<MockoonRoute>,
}

/// Which environment a Mockoon export gives: the text read as one
/// environment when it is one; else the first of the list it holds, the
/// list reader's error when it is not a list, or an error when the list is
/// empty. `single` is the text read as one environment (nothing when it is
/// not one), `list` the text read as a list (looked at only when `single`
/// is nothing).
pub fn choose_environment(single: Option<MockoonEnvironment>, list: Result<Vec<MockoonEnvironment>, String>)
    -> (r: Result<MockoonEnvironment, String>)
    ensures
        match single {
            Some(e) => r == Ok::<MockoonEnvironment, String>(e),
            None => match list {
                Err(m) => r == Err::<MockoonEnvironment, String>(m),
                Ok(v) => if v@.len() > 0 {
                    r == Ok::<MockoonEnvironment, String>(v@[0])
                } else {
                    r matches Err(m) && m@ == "No environments found"@
                },
            },
        },
{
    match single {
        Some(e) => Ok(e),
        None => match list {
            Err(m) => Err(m),
            Ok(v) => {
                let mut v = v;
                if v.len() > 0 {
                    Ok(v.remove(0))
                } else {
                    Err(String::from_str("No environments found"))
                }
            },
        },
    }
}

/// A path with a `/` put before it when it lacks one.
pub open spec fn rooted(p: Seq<char>) -> Seq<char> {
    if has_prefix(p, "/"@) { p } else { "/"@ + p }
}

/// The base path of an environment: `/` without a prefix, else the prefix
/// with a leading `/`.
pub open spec fn mockoon_base_path(prefix: Seq<char>) -> Seq<char> {
    if prefix.len() == 0 { "/"@ } else { rooted(prefix) }
}

/// The headers of a Mockoon response, a later one replacing an earlier one
/// with the same key.
pub open spec fn mockoon_header_map(hs: Seq<MockoonHeader>) -> Seq<(Seq<char>, Seq<char>)>
    decreases hs.len(),
{
    if hs.len() == 0 {
        Seq::empty()
    } else {
        upsert_pair(mockoon_header_map(hs.drop_last()), hs.last().key@, hs.last().value@)
    }
}

/// A Mockoon response as a response: its content type (JSON when it has
/// none), body, and headers when it has any.
pub open spec fn mockoon_response(r: MockoonResponse) -> ResponseView {
    let m = mockoon_header_map(r.headers@);
    (r.status_code, match r.content_type {
        Some(c) => c@,
        None => "application/json"@,
    }, r.body@, if m.len() > 0 { Some(m) } else { None })
}

/// The responses of a route, a later one replacing an earlier one with the
/// same status.
pub open spec fn mockoon_responses(rs: Seq<MockoonResponse>) -> Seq<ResponseView>
    decreases rs.len(),
{
    if rs.len() == 0 {
        Seq::empty()
    } else {
        upsert_response(mockoon_responses(rs.drop_last()), mockoon_response(rs.last()))
    }
}

/// A route as an endpoint: its method in upper case, its path with a
/// leading `/`, no description.
pub open spec fn mockoon_endpoint(r: MockoonRoute) -> EndpointView {
    (unicode_upper(r.method@), rooted(r.endpoint@), None, mockoon_responses(r.responses@))
}

/// A service made from an environment: its name, port and base path, one
/// endpoint per route, nothing else set.
pub open spec fn mockoon_service(s: ServiceDefinition, env: MockoonEnvironment) -> bool {
    &&& s.name@ == env.name@
    &&& endpoints_are(s.endpoints@, env.routes@.map_values(|r: MockoonRoute| mockoon_endpoint(r)))
    &&& s.version is None
    &&& s.description is None
    &&& s.server.port == Some(env.port)
    &&& s.server.base_path@ == mockoon_base_path(env.endpoint_prefix@)
    &&& s.server.proxy_base_url is None
    &&& s.server.cors is None
    &&& !s.server.record_unknown
    &&& s.models is None
    &&& s.fixtures is None
    &&& s.bucket is None
    &&& s.graphql is None
    &&& s.behavior is None
}

fn rooted_path(p: &str) -> (r: String)
    ensures
        r@ == rooted(p@),
{
    if starts_with(p, "/") { String::from_str(p) } else { concat2("/", p) }
}

fn mockoon_response_def(resp: &MockoonResponse) -> (r: (u16, ResponseDefinition))
    ensures
        response_is(r, mockoon_response(*resp)),
{
    let mut headers: Vec<(String, String)> = Vec::new();
    let mut i: usize = 0;
    assert(pairs_of(headers@) =~= Seq::<(Seq<char>, Seq<char>)>::empty());
    assert(resp.headers@.take(0) =~= Seq::<MockoonHeader>::empty());
    while i < resp.headers.len()
        invariant
            i <= resp.headers@.len(),
            pairs_of(headers@) == mockoon_header_map(resp.headers@.take(i as int)),
        decreases resp.headers@.len() - i,
    {
        assert(resp.headers@.take(i + 1).drop_last() =~= resp.headers@.take(i as int));
        upsert_header(&mut headers, resp.headers[i].key.clone(), resp.headers[i].value.clone());
        i = i + 1;
    }
    assert(resp.headers@.take(resp.headers@.len() as int) =~= resp.headers@);
    let content_type = match &resp.content_type {
        Some(c) => c.clone(),
        None => String::from_str("application/json"),
    };
    let headers = if headers.len() == 0 { None } else { Some(headers) };
    (resp.status_code, ResponseDefinition {
        condition: None,
        content_type,
        body: resp.body.clone(),
        schema: None,
        script: None,
        headers,
        side_effects: None,
    })
}

fn mockoon_endpoint_def(route: &MockoonRoute) -> (e: EndpointDefinition)
    ensures
        endpoint_is(e, mockoon_endpoint(*route)),
{
    let mut responses: Vec<(u16, ResponseDefinition)> = Vec::new();
    let mut i: usize = 0;
    assert(route.responses@.take(0) =~= Seq::<MockoonResponse>::empty());
    while i < route.responses.len()
        invariant
            i <= route.responses@.len(),
            responses_are(responses@, mockoon_responses(route.responses@.take(i as int))),
        decreases route.responses@.len() - i,
    {
        assert(route.responses@.take(i + 1).drop_last() =~= route.responses@.take(i as int));
        let r = mockoon_response_def(&route.responses[i]);
        upsert_response_def(&mut responses, r, Ghost(mockoon_responses(route.responses@.take(i as int))),
            Ghost(mockoon_response(route.responses@[i as int])));
        i = i + 1;
    }
    assert(route.responses@.take(route.responses@.len() as int) =~= route.responses@);
    EndpointDefinition {
        kind: EndpointKind::Http,
        method: to_uppercase(route.method.as_str()),
        path: rooted_path(route.endpoint.as_str()),
        header_match: None,
        description: None,
        parameters: None,
        request_body: None,
        responses,
        scenarios: None,
        stream: None,
    }
}

/// Converts a Mockoon environment.
pub fn convert(env: &MockoonEnvironment) -> (s: ServiceDefinition)
    ensures
        mockoon_service(s, *env),
{
    let base_path = if env.endpoint_prefix.unicode_len() == 0 {
        String::from_str("/")
    } else {
        rooted_path(env.endpoint_prefix.as_str())
    };
    let ghost views = env.routes@.map_values(|r: MockoonRoute| mockoon_endpoint(r));
    let mut endpoints: Vec<EndpointDefinition> = Vec::new();
    let mut i: usize = 0;
    while i < env.routes.len()
        invariant
            i <= env.routes@.len(),
            views == env.routes@.map_values(|r: MockoonRoute| mockoon_endpoint(r)),
            endpoints@.len() == i,
            forall|j: int| 0 <= j < i ==> #[trigger] endpoint_is(endpoints@[j], views[j]),
        decreases env.routes@.len() - i,
    {
        endpoints.push(mockoon_endpoint_def(&env.routes[i]));
        i = i + 1;
    }
    ServiceDefinition {
        name: env.name.clone(),
        version: None,
        description: None,
        server: ServerConfig {
            port: Some(env.port),
            base_path,
            proxy_base_url: None,
            cors: None,
            record_unknown: false,
        },
        models: None,
        fixtures: None,
        bucket: None,
        endpoints,
        graphql: None,
        behavior: None,
    }
}

} // verus!
