//! The decisions taken while answering an HTTP request: query parsing, the
//! path relative to the service, CORS headers, which response definition
//! answers, and the bodies of the simulator's own replies.

use vstd::prelude::*;
use crate::config::{CorsConfig, EndpointDefinition, ResponseDefinition, SideEffect};
use crate::json::{json_quote, json_string_literal, fields_data, insert_sorted_field, json_data, json_parsed, parse_json, sorted_insert, JsonData, JsonValue};
use crate::endpoints::pairs_view;
use crate::text::{to_lowercase, unicode_lower};
use crate::state::{fixture_not_array, ServiceState};
use crate::endpoints::{endpoint_matches, find_endpoint_with_params_static, path_params_spec};
use crate::routing::RouteMatch;
use crate::endpoints::headers_view;
use crate::strmap::StrMap;
use crate::text::{
    chars_of, concat2, contains_seq, contains_str, eq_ignore_ascii_case,
    eq_ignore_ascii_case_spec, has_prefix, join, joined, split_all, split_on, starts_with,
    str_eq, string_of_range, string_views, trim, trim_chars, trim_spec, trimmed_end,
    trimmed_start, parse_unsigned, parsed_unsigned,
};

verus! {

/// An error raised while answering a request.
#[derive(Clone, Debug)]
pub struct RuntimeError {
    pub message: String,
    pub suggestion: Option<String>,
}

/// A rendered condition counts as true unless it is blank, `null` or `false`
/// once trimmed.
pub open spec fn truthy(rendered: Seq<char>) -> bool {
    let t = trim_spec(rendered);
    t.len() > 0 && t != "null"@ && t != "false"@
}

/// Whether a rendered condition counts as true.
pub fn is_truthy(rendered: &str) -> (b: bool)
    ensures
        b == truthy(rendered@),
{
    let t = trim(rendered);
    t.unicode_len() > 0 && !str_eq(t.as_str(), "null") && !str_eq(t.as_str(), "false")
}

/// The request path relative to the service: the base path removed when the
/// path starts with it, and a leading `/` ensured.
pub open spec fn relative_path_of(path: Seq<char>, base: Seq<char>) -> Seq<char> {
    let rel = if has_prefix(path, base) { path.skip(base.len() as int) } else { path };
    if rel.len() == 0 || rel[0] != '/' {
        "/"@ + trimmed_start(rel, seq!['/'])
    } else {
        rel
    }
}

/// The request path relative to the service's base path.
pub fn relative_request_path(path: &str, base_path: &str) -> (r: String)
    ensures
        r@ == relative_path_of(path@, base_path@),
{
    let v = chars_of(path);
    let b = chars_of(base_path);
    let rel = if starts_with(path, base_path) {
        string_of_range(&v, b.len(), v.len())
    } else {
        String::from_str(path)
    };
    assert(v@.subrange(b@.len() as int, v@.len() as int) =~= path@.skip(base_path@.len() as int));
    let rv = chars_of(rel.as_str());
    if rv.len() == 0 || rv[0] != '/' {
        let slash = ['/'];
        assert(slash@ =~= seq!['/']);
        let t = trim_chars(rel.as_str(), &slash, true, false);
        concat2("/", t.as_str())
    } else {
        rel
    }
}

/// The status sent for a code: the code itself when it is a valid HTTP status
/// (100 to 999), else 200.
pub open spec fn status_or_ok_spec(code: u16) -> u16 {
    if 100 <= code <= 999 { code } else { 200 }
}

/// The status sent for a configured code.
pub fn status_or_ok(code: u16) -> (r: u16)
    ensures
        r == status_or_ok_spec(code),
{
    if 100 <= code && code <= 999 { code } else { 200 }
}

/// The body of the reply when no endpoint answers.
pub open spec fn not_found_body_of(method: Seq<char>, path: Seq<char>, service: Seq<char>) -> Seq<char> {
    "{\"error\": \"Endpoint not found\", \"method\": \""@ + method + "\", \"path\": \""@ + path
        + "\", \"service\": \""@ + service + "\"}"@
}

/// The body of the reply when no endpoint answers.
pub fn not_found_body(method: &str, relative_path: &str, service: &str) -> (r: String)
    ensures
        r@ == not_found_body_of(method@, relative_path@, service@),
{
    let mut r = String::from_str("{\"error\": \"Endpoint not found\", \"method\": \"");
    r.append(method);
    r.append("\", \"path\": \"");
    r.append(relative_path);
    r.append("\", \"service\": \"");
    r.append(service);
    r.append("\"}");
    r
}

/// The URL a request is forwarded to: the proxy base without trailing `/`,
/// the relative path, and `?query` when the request has a query.
pub open spec fn proxy_url_of(base: Seq<char>, relative_path: Seq<char>, query: Option<Seq<char>>) -> Seq<char> {
    trimmed_end(base, seq!['/']) + relative_path + match query {
        Some(q) => "?"@ + q,
        None => Seq::empty(),
    }
}

/// The URL a request is forwarded to.
pub fn proxy_target_url(base_url: &str, relative_path: &str, query: Option<&str>) -> (r: String)
    ensures
        r@ == proxy_url_of(base_url@, relative_path@, match query {
            Some(q) => Some(q@),
            None => None,
        }),
{
    let slash = ['/'];
    assert(slash@ =~= seq!['/']);
    let mut r = trim_chars(base_url, &slash, false, true);
    r.append(relative_path);
    match query {
        Some(q) => {
            r.append("?");
            r.append(q);
        },
        None => {},
    }
    r
}

/// Methods announced when the configuration names none.
pub open spec fn default_methods() -> Seq<char> {
    "GET, POST, PUT, DELETE, PATCH, OPTIONS"@
}

/// Headers announced when neither the request nor the configuration names any.
pub open spec fn default_headers() -> Seq<char> {
    "Content-Type, Authorization"@
}

/// Some configured origin equals `origin` up to ASCII case.
pub open spec fn origin_listed(origins: Seq<Seq<char>>, origin: Seq<char>) -> bool {
    exists|i: int| 0 <= i < origins.len() && eq_ignore_ascii_case_spec(#[trigger] origins[i], origin)
}

/// The allowed origin: `*` without configuration or when `*` is configured,
/// the request's origin when it is configured, else `*`.
pub open spec fn allow_origin_of(cfg: Option<CorsConfig>, origin: Seq<char>) -> Seq<char> {
    match cfg {
        None => "*"@,
        Some(c) => {
            let os = string_views(c.origins@);
            if os.contains("*"@) {
                "*"@
            } else if origin_listed(os, origin) {
                origin
            } else {
                "*"@
            }
        },
    }
}

/// The allowed methods: the configured ones joined with `, `, or the default.
pub open spec fn allow_methods_of(cfg: Option<CorsConfig>) -> Seq<char> {
    match cfg {
        Some(c) => match c.methods {
            Some(m) => joined(string_views(m@), ", "@),
            None => default_methods(),
        },
        None => default_methods(),
    }
}

/// The allowed headers: those the request asks for, else the configured ones
/// joined with `, `, else the default.
pub open spec fn allow_headers_of(requested: Option<Seq<char>>, cfg: Option<CorsConfig>) -> Seq<char> {
    match requested {
        Some(r) => r,
        None => match cfg {
            Some(c) => match c.headers {
                Some(h) => joined(string_views(h@), ", "@),
                None => default_headers(),
            },
            None => default_headers(),
        },
    }
}

/// The allowed origin for a request.
pub fn cors_allow_origin(cfg: &Option<CorsConfig>, origin: &str) -> (r: String)
    ensures
        r@ == allow_origin_of(*cfg, origin@),
{
    match cfg {
        None => String::from_str("*"),
        Some(c) => {
            let ghost os = string_views(c.origins@);
            let mut star = false;
            let mut listed = false;
            let mut i: usize = 0;
            while i < c.origins.len()
                invariant
                    i <= c.origins@.len(),
                    os == string_views(c.origins@),
                    star == exists|j: int| 0 <= j < i && #[trigger] os[j] == "*"@,
                    listed == exists|j: int| 0 <= j < i && eq_ignore_ascii_case_spec(#[trigger] os[j], origin@),
                decreases c.origins@.len() - i,
            {
                assert(os[i as int] == c.origins@[i as int]@);
                if str_eq(c.origins[i].as_str(), "*") {
                    star = true;
                }
                if eq_ignore_ascii_case(c.origins[i].as_str(), origin) {
                    listed = true;
                }
                i = i + 1;
            }
            if star {
                String::from_str("*")
            } else if listed {
                String::from_str(origin)
            } else {
                String::from_str("*")
            }
        },
    }
}

/// The allowed methods.
pub fn cors_allow_methods(cfg: &Option<CorsConfig>) -> (r: String)
    ensures
        r@ == allow_methods_of(*cfg),
{
    match cfg {
        Some(c) => match &c.methods {
            Some(m) => join(m, ", "),
            None => String::from_str("GET, POST, PUT, DELETE, PATCH, OPTIONS"),
        },
        None => String::from_str("GET, POST, PUT, DELETE, PATCH, OPTIONS"),
    }
}

/// The allowed headers.
pub fn cors_allow_headers(requested: Option<&str>, cfg: &Option<CorsConfig>) -> (r: String)
    ensures
        r@ == allow_headers_of(match requested {
            Some(q) => Some(q@),
            None => None,
        }, *cfg),
{
    match requested {
        Some(q) => String::from_str(q),
        None => match cfg {
            Some(c) => match &c.headers {
                Some(h) => join(h, ", "),
                None => String::from_str("Content-Type, Authorization"),
            },
            None => String::from_str("Content-Type, Authorization"),
        },
    }
}

/// The views of header pairs.
pub open spec fn header_pairs_view(v: Seq<(String, String)>) -> Seq<(Seq<char>, Seq<char>)> {
    v.map_values(|p: (String, String)| (p.0@, p.1@))
}

/// The headers of the reply to a CORS preflight request.
pub open spec fn preflight_headers_of(cfg: Option<CorsConfig>, origin: Seq<char>, requested: Option<Seq<char>>) -> Seq<(Seq<char>, Seq<char>)> {
    seq![
        ("access-control-allow-origin"@, allow_origin_of(cfg, origin)),
        ("access-control-allow-methods"@, allow_methods_of(cfg)),
        ("access-control-allow-headers"@, allow_headers_of(requested, cfg)),
        ("access-control-max-age"@, "86400"@),
    ]
}

/// The CORS headers added to an ordinary reply.
pub open spec fn cors_headers_of(cfg: Option<CorsConfig>, origin: Seq<char>) -> Seq<(Seq<char>, Seq<char>)> {
    match cfg {
        Some(c) => seq![
            ("access-control-allow-origin"@, allow_origin_of(cfg, origin)),
            ("access-control-allow-methods"@, allow_methods_of(cfg)),
            ("access-control-allow-headers"@, allow_headers_of(None, cfg)),
        ],
        None => seq![("access-control-allow-origin"@, "*"@)],
    }
}

/// The headers of the reply to a CORS preflight (`OPTIONS`) request.
pub fn preflight_headers(cfg: &Option<CorsConfig>, origin: &str, requested: Option<&str>) -> (r: Vec<(String, String)>)
    ensures
        header_pairs_view(r@) == preflight_headers_of(*cfg, origin@, match requested {
            Some(q) => Some(q@),
            None => None,
        }),
{
    let mut r: Vec<(String, String)> = Vec::new();
    r.push((String::from_str("access-control-allow-origin"), cors_allow_origin(cfg, origin)));
    r.push((String::from_str("access-control-allow-methods"), cors_allow_methods(cfg)));
    r.push((String::from_str("access-control-allow-headers"), cors_allow_headers(requested, cfg)));
    r.push((String::from_str("access-control-max-age"), String::from_str("86400")));
    assert(header_pairs_view(r@) =~= preflight_headers_of(*cfg, origin@, match requested {
        Some(q) => Some(q@),
        None => None,
    }));
    r
}

/// The CORS headers added to an ordinary reply.
pub fn cors_headers(cfg: &Option<CorsConfig>, origin: &str) -> (r: Vec<(String, String)>)
    ensures
        header_pairs_view(r@) == cors_headers_of(*cfg, origin@),
{
    let mut r: Vec<(String, String)> = Vec::new();
    match cfg {
        Some(_) => {
            r.push((String::from_str("access-control-allow-origin"), cors_allow_origin(cfg, origin)));
            r.push((String::from_str("access-control-allow-methods"), cors_allow_methods(cfg)));
            r.push((String::from_str("access-control-allow-headers"), cors_allow_headers(None, cfg)));
        },
        None => {
            r.push((String::from_str("access-control-allow-origin"), String::from_str("*")));
        },
    }
    assert(header_pairs_view(r@) =~= cors_headers_of(*cfg, origin@));
    r
}

/// The key and value of one `key=value` piece of a query string: the text
/// before the first `=` and the text between it and the next `=`; a piece
/// without `=` gives nothing.
pub open spec fn query_pair(piece: Seq<char>) -> Option<(Seq<char>, Seq<char>)> {
    let parts = split_all(piece, '=');
    if parts.len() >= 2 { Some((parts[0], parts[1])) } else { None }
}

/// The parameters of the pieces, a later piece overriding an earlier one.
pub open spec fn query_map_of(pieces: Seq<Seq<char>>) -> Map<Seq<char>, Seq<char>>
    decreases pieces.len(),
{
    if pieces.len() == 0 {
        Map::empty()
    } else {
        match query_pair(pieces.last()) {
            Some(p) => query_map_of(pieces.drop_last()).insert(p.0, p.1),
            None => query_map_of(pieces.drop_last()),
        }
    }
}

/// The parameters of a query string: its `&`-separated pieces, read in order.
pub open spec fn query_params_of(query: Seq<char>) -> Map<Seq<char>, Seq<char>> {
    query_map_of(split_all(query, '&'))
}

/// The parameters of a query string (the text after `?`; empty when the
/// request has none).
pub fn parse_query(query: &str) -> (r: StrMap<String>)
    ensures
        r.wf(),
        headers_view(r) == query_params_of(query@),
{
    let pieces = split_on(query, '&');
    let ghost pv = split_all(query@, '&');
    let mut map: StrMap<String> = StrMap::new();
    assert(headers_view(map) =~= Map::<Seq<char>, Seq<char>>::empty());
    let mut i: usize = 0;
    while i < pieces.len()
        invariant
            i <= pieces@.len(),
            string_views(pieces@) == pv,
            map.wf(),
            headers_view(map) == query_map_of(pv.take(i as int)),
        decreases pieces@.len() - i,
    {
        proof {
            assert(pv.take(i + 1).drop_last() =~= pv.take(i as int));
            assert(pv.take(i + 1).last() == pieces@[i as int]@);
        }
        let parts = split_on(pieces[i].as_str(), '=');
        if parts.len() >= 2 {
            let k = parts[0].clone();
            let v = parts[1].clone();
            assert(k@ == string_views(parts@)[0] && v@ == string_views(parts@)[1]);
            let ghost before = headers_view(map);
            map.insert(k, v);
            assert(headers_view(map) =~= before.insert(k@, v@));
        }
        i = i + 1;
    }
    assert(pv.take(pieces@.len() as int) =~= pv);
    map
}

/// The position of the first response whose condition exists and holds.
pub open spec fn first_holding(conds: Seq<bool>, holds: Seq<bool>) -> Option<int>
    decreases conds.len(),
{
    if conds.len() == 0 {
        None
    } else {
        match first_holding(conds.drop_last(), holds.take(conds.len() - 1)) {
            Some(k) => Some(k),
            None => if conds.last() && holds[conds.len() - 1] { Some(conds.len() - 1) } else { None },
        }
    }
}

/// The position of the first response without a condition.
pub open spec fn first_unconditional(conds: Seq<bool>) -> Option<int>
    decreases conds.len(),
{
    if conds.len() == 0 {
        None
    } else {
        match first_unconditional(conds.drop_last()) {
            Some(k) => Some(k),
            None => if !conds.last() { Some(conds.len() - 1) } else { None },
        }
    }
}

/// The position of the first response with the given status.
pub open spec fn first_status(statuses: Seq<u16>, code: u16) -> Option<int>
    decreases statuses.len(),
{
    if statuses.len() == 0 {
        None
    } else {
        match first_status(statuses.drop_last(), code) {
            Some(k) => Some(k),
            None => if statuses.last() == code { Some(statuses.len() - 1) } else { None },
        }
    }
}

/// Which responses carry a condition.
pub open spec fn conditions_of(rs: Seq<(u16, ResponseDefinition)>) -> Seq<bool> {
    rs.map_values(|r: (u16, ResponseDefinition)| r.1.condition is Some)
}

/// The statuses of the responses.
pub open spec fn statuses_of(rs: Seq<(u16, ResponseDefinition)>) -> Seq<u16> {
    rs.map_values(|r: (u16, ResponseDefinition)| r.0)
}

/// The response that answers: the first whose condition holds; else the
/// first without a condition; else the one for status 200; else the first.
pub open spec fn selected_response(rs: Seq<(u16, ResponseDefinition)>, holds: Seq<bool>) -> Option<int> {
    match first_holding(conditions_of(rs), holds) {
        Some(k) => Some(k),
        None => match first_unconditional(conditions_of(rs)) {
            Some(k) => Some(k),
            None => match first_status(statuses_of(rs), 200) {
                Some(k) => Some(k),
                None => if rs.len() > 0 { Some(0) } else { None },
            },
        },
    }
}

/// The position of the response that answers, given for each response
/// whether its condition rendered to a true value (ignored for responses
/// without a condition).
pub fn select_response(responses: &Vec<(u16, ResponseDefinition)>, condition_holds: &Vec<bool>) -> (r: Option<usize>)
    requires
        condition_holds@.len() == responses@.len(),
    ensures
        match r {
            Some(k) => k < responses@.len() && selected_response(responses@, condition_holds@) == Some(k as int),
            None => selected_response(responses@, condition_holds@) is None,
        },
{
    let ghost conds = conditions_of(responses@);
    let ghost sts = statuses_of(responses@);
    let ghost hs = condition_holds@;
    let mut held: Option<usize> = None;
    let mut fallback: Option<usize> = None;
    let mut ok200: Option<usize> = None;
    let mut i: usize = 0;
    while i < responses.len()
        invariant
            i <= responses@.len(),
            condition_holds@.len() == responses@.len(),
            conds == conditions_of(responses@),
            sts == statuses_of(responses@),
            hs == condition_holds@,
            held is None,
            first_holding(conds.take(i as int), hs.take(i as int)) is None,
            match fallback {
                Some(k) => k < i && first_unconditional(conds.take(i as int)) == Some(k as int),
                None => first_unconditional(conds.take(i as int)) is None,
            },
            match ok200 {
                Some(k) => k < i && first_status(sts.take(i as int), 200) == Some(k as int),
                None => first_status(sts.take(i as int), 200) is None,
            },
        decreases responses@.len() - i,
    {
        proof {
            assert(conds.take(i + 1).drop_last() =~= conds.take(i as int));
            assert(hs.take(i + 1).take(i as int) =~= hs.take(i as int));
            assert(sts.take(i + 1).drop_last() =~= sts.take(i as int));
        }
        let has_condition = responses[i].1.condition.is_some();
        if has_condition && condition_holds[i] {
            proof {
                lemma_first_holding_prefix(conds, hs, i as int);
            }
            return Some(i);
        }
        if !has_condition && fallback.is_none() {
            fallback = Some(i);
        }
        if responses[i].0 == 200 && ok200.is_none() {
            ok200 = Some(i);
        }
        i = i + 1;
    }
    proof {
        assert(conds.take(responses@.len() as int) =~= conds);
        assert(hs.take(responses@.len() as int) =~= hs);
        assert(sts.take(responses@.len() as int) =~= sts);
    }
    match fallback {
        Some(k) => Some(k),
        None => match ok200 {
            Some(k) => Some(k),
            None => if responses.len() > 0 { Some(0) } else { None },
        },
    }
}

/// A holding condition found first in a prefix is the first of the whole.
proof fn lemma_first_holding_prefix(conds: Seq<bool>, hs: Seq<bool>, i: int)
    requires
        0 <= i < conds.len(),
        hs.len() == conds.len(),
        first_holding(conds.take(i), hs.take(i)) is None,
        conds[i] && hs[i],
    ensures
        first_holding(conds, hs) == Some(i),
    decreases conds.len(),
{
    if i < conds.len() - 1 {
        assert(conds.drop_last().take(i) =~= conds.take(i));
        assert(hs.take(conds.len() - 1).take(i) =~= hs.take(i));
        lemma_first_holding_prefix(conds.drop_last(), hs.take(conds.len() - 1), i);
    } else {
        assert(conds.take(i) =~= conds.drop_last());
        assert(hs.take(i) =~= hs.take(conds.len() - 1));
    }
}

/// The error for a template that renders to nothing.
pub open spec fn empty_render_error() -> (Seq<char>, Seq<char>) {
    ("Template rendering produced empty body"@, "Check template logic and ensure fixtures contain required data"@)
}

/// The kind of template error and its advice, told from what the template
/// refers to.
pub open spec fn template_error_hint(body: Seq<char>) -> Seq<char> {
    if contains_seq(body, "{{ fixtures"@) {
        "Fixture reference error: Ensure fixtures contain the referenced data"@
    } else if contains_seq(body, "{{ params"@) {
        "Parameter reference error: Ensure URL path parameters are properly defined"@
    } else if contains_seq(body, "{{ request"@) {
        "Request context error: Check request context availability"@
    } else {
        "Template syntax error: Check Handlebars template syntax"@
    }
}

/// What answering with a body template gives: the body itself when it holds
/// no `{{`; else the rendering, unless it is blank or failed.
pub open spec fn processed_body_of(body: Seq<char>, rendered: Result<Seq<char>, Seq<char>>) -> Result<Seq<char>, (Seq<char>, Seq<char>)> {
    if !contains_seq(body, "{{"@) {
        Ok(body)
    } else {
        match rendered {
            Ok(text) => if trim_spec(text).len() == 0 { Err(empty_render_error()) } else { Ok(text) },
            Err(e) => Err(("Template rendering failed: "@ + e, template_error_hint(body))),
        }
    }
}

/// The view of an error with a suggestion.
pub open spec fn runtime_error_view(e: RuntimeError) -> (Seq<char>, Seq<char>) {
    (e.message@, match e.suggestion {
        Some(s) => s@,
        None => Seq::empty(),
    })
}

/// Processes a response body template, given what rendering it with the
/// request's context gave (consulted only when the body holds `{{`).
pub fn process_response_body_template(response_body: &str, rendered: Result<String, String>) -> (r: Result<String, RuntimeError>)
    ensures
        match processed_body_of(response_body@, match rendered {
            Ok(t) => Ok(t@),
            Err(e) => Err(e@),
        }) {
            Ok(text) => r matches Ok(out) && out@ == text,
            Err(err) => r matches Err(e) && e.suggestion is Some && runtime_error_view(e) == err,
        },
{
    if !contains_str(response_body, "{{") {
        return Ok(String::from_str(response_body));
    }
    match rendered {
        Ok(text) => {
            let t = trim(text.as_str());
            if t.unicode_len() == 0 {
                Err(RuntimeError {
                    message: String::from_str("Template rendering produced empty body"),
                    suggestion: Some(String::from_str("Check template logic and ensure fixtures contain required data")),
                })
            } else {
                Ok(text)
            }
        },
        Err(e) => {
            let hint = if contains_str(response_body, "{{ fixtures") {
                String::from_str("Fixture reference error: Ensure fixtures contain the referenced data")
            } else if contains_str(response_body, "{{ params") {
                String::from_str("Parameter reference error: Ensure URL path parameters are properly defined")
            } else if contains_str(response_body, "{{ request") {
                String::from_str("Request context error: Check request context availability")
            } else {
                String::from_str("Template syntax error: Check Handlebars template syntax")
            };
            Err(RuntimeError {
                message: concat2("Template rendering failed: ", e.as_str()),
                suggestion: Some(hint),
            })
        },
    }
}

/// How a request other than a CORS preflight is answered, once GraphQL had
/// no answer for it.
pub enum RequestRoute {
    /// The simulator's own request log.
    Logs,
    /// An endpoint of the service.
    Endpoint(RouteMatch),
    /// Forwarded to this URL.
    Proxy(String),
    /// Recorded as a new endpoint.
    Record,
    /// No endpoint answers.
    NotFound,
}

/// The path of the simulator's own request log.
pub open spec fn logs_path() -> Seq<char> {
    "/__apicentric/logs"@
}

/// Decides how a request is answered: the log listing for `GET` on its path;
/// else the first endpoint that matches; else forwarding to the proxy when
/// one is configured; else recording the request when that is enabled; else
/// not found.
pub fn decide_route(method: &str, relative_path: &str, endpoints: &[EndpointDefinition], headers: &StrMap<String>,
    proxy_base_url: &Option<String>, query: Option<&str>, record_unknown: bool) -> (r: RequestRoute)
    requires
        headers.wf(),
    ensures
        method@ == "GET"@ && relative_path@ == logs_path() ==> r is Logs,
        !(method@ == "GET"@ && relative_path@ == logs_path()) ==> {
            if exists|j: int| 0 <= j < endpoints@.len() && endpoint_matches(#[trigger] endpoints@[j], method@, relative_path@, headers_view(*headers)) {
                r matches RequestRoute::Endpoint(m) && {
                    &&& m.endpoint_index < endpoints@.len()
                    &&& endpoint_matches(endpoints@[m.endpoint_index as int], method@, relative_path@, headers_view(*headers))
                    &&& forall|j: int| 0 <= j < m.endpoint_index ==> !endpoint_matches(#[trigger] endpoints@[j], method@, relative_path@, headers_view(*headers))
                    &&& m.endpoint.method@ == endpoints@[m.endpoint_index as int].method@
                    &&& m.endpoint.path@ == endpoints@[m.endpoint_index as int].path@
                    &&& m.path_params.wf()
                    &&& path_params_spec(endpoints@[m.endpoint_index as int].path@, relative_path@) == Some(m.path_params@)
                }
            } else {
                match proxy_base_url {
                    Some(b) => r matches RequestRoute::Proxy(u) && u@ == proxy_url_of(b@, relative_path@, match query {
                        Some(q) => Some(q@),
                        None => None,
                    }),
                    None => if record_unknown { r is Record } else { r is NotFound },
                }
            }
        },
{
    if str_eq(method, "GET") && str_eq(relative_path, "/__apicentric/logs") {
        return RequestRoute::Logs;
    }
    match find_endpoint_with_params_static(endpoints, method, relative_path, headers) {
        Some(m) => RequestRoute::Endpoint(m),
        None => match proxy_base_url {
            Some(b) => RequestRoute::Proxy(proxy_target_url(b.as_str(), relative_path, query)),
            None => if record_unknown { RequestRoute::Record } else { RequestRoute::NotFound },
        },
    }
}

/// What the request log listing asks for.
pub struct LogsQuery {
    pub limit: usize,
    pub method: Option<String>,
    pub route: Option<String>,
    pub status: Option<u16>,
}

/// The value of a query parameter, when the request has it.
pub open spec fn param_of(params: Map<Seq<char>, Seq<char>>, key: Seq<char>) -> Option<Seq<char>> {
    if params.contains_key(key) { Some(params[key]) } else { None }
}

/// The request log listing a query asks for (see [`logs_query`]).
pub open spec fn logs_query_ok(r: LogsQuery, params: Map<Seq<char>, Seq<char>>) -> bool {
    &&& r.limit == match param_of(params, "limit"@) {
            Some(v) => match parsed_unsigned(v, usize::MAX as nat) {
                Some(n) => n,
                None => 100,
            },
            None => 100,
        }
    &&& match r.method {
            Some(m) => param_of(params, "method"@) == Some(m@),
            None => param_of(params, "method"@) is None,
        }
    &&& match r.route {
            Some(m) => param_of(params, "route"@) == Some(m@),
            None => param_of(params, "route"@) is None,
        }
    &&& r.status == match param_of(params, "status"@) {
            Some(v) => match parsed_unsigned(v, u16::MAX as nat) {
                Some(n) => Some(n as u16),
                None => None,
            },
            None => None,
        }
}

/// What the request log listing asks for, from the request's query: `limit`
/// (100 when absent or not a number), and the optional `method`, `route` and
/// `status` filters (a status that is not a number filters nothing).
pub fn logs_query(params: &StrMap<String>) -> (r: LogsQuery)
    requires
        params.wf(),
    ensures
        logs_query_ok(r, headers_view(*params)),
{
    let limit: usize = match params.get("limit") {
        Some(v) => match parse_unsigned(v.as_str(), usize::MAX as u64) {
            Some(n) => n as usize,
            None => 100,
        },
        None => 100,
    };
    let method = match params.get("method") {
        Some(v) => Some(v.clone()),
        None => None,
    };
    let route = match params.get("route") {
        Some(v) => Some(v.clone()),
        None => None,
    };
    let status: Option<u16> = match params.get("status") {
        Some(v) => match parse_unsigned(v.as_str(), 65535) {
            Some(n) => Some(n as u16),
            None => None,
        },
        None => None,
    };
    LogsQuery { limit, method, route, status }
}

/// The suggestion given with an unknown side-effect action.
pub open spec fn supported_actions_hint() -> Seq<char> {
    "Use supported actions: add_to_fixture, update_fixture, remove_from_fixture, set_runtime_data, remove_runtime_data"@
}

/// Fixtures and runtime data after a side effect with action `action` on
/// `target` and value `d`, or the error it raises.
pub open spec fn side_effect_result(action: Seq<char>, target: Seq<char>, d: JsonData,
    fixtures: Map<Seq<char>, JsonData>, runtime: Map<Seq<char>, JsonData>)
    -> Result<(Map<Seq<char>, JsonData>, Map<Seq<char>, JsonData>), (Seq<char>, Seq<char>)>
{
    if action == "add_to_fixture"@ {
        if !fixtures.contains_key(target) {
            Ok((fixtures.insert(target, JsonData::Array(seq![d])), runtime))
        } else {
            match fixtures[target] {
                JsonData::Array(items) => Ok((fixtures.insert(target, JsonData::Array(items.push(d))), runtime)),
                _ => Err((fixture_not_array(target), "Use add_to_fixture_array only with array fixtures"@)),
            }
        }
    } else if action == "update_fixture"@ {
        Ok((fixtures.insert(target, d), runtime))
    } else if action == "remove_from_fixture"@ {
        Ok((fixtures.remove(target), runtime))
    } else if action == "set_runtime_data"@ {
        Ok((fixtures, runtime.insert(target, d)))
    } else if action == "remove_runtime_data"@ {
        Ok((fixtures, runtime.remove(target)))
    } else {
        Err(("Unknown side effect action: "@ + action, supported_actions_hint()))
    }
}

/// The error for a side-effect value that is not JSON.
pub open spec fn side_effect_parse_error(message: Seq<char>) -> (Seq<char>, Seq<char>) {
    ("Failed to parse side effect value as JSON: "@ + message, "Ensure side effect value templates produce valid JSON"@)
}

/// A side effect leaves the state as `side_effect_result` says, or raises its
/// error and leaves the fixtures and runtime data as they were; the initial
/// fixtures and the rotation counters never change.
pub open spec fn side_effect_done(outcome: Result<(Map<Seq<char>, JsonData>, Map<Seq<char>, JsonData>), (Seq<char>, Seq<char>)>,
    before: ServiceState, after: ServiceState, r: Result<(), RuntimeError>) -> bool
{
    &&& after.wf()
    &&& after.initial_view() == before.initial_view()
    &&& forall|e: usize| #[trigger] after.counter_of(e) == before.counter_of(e)
    &&& match outcome {
        Ok((f, rt)) => r is Ok && after.fixtures_view() == f && after.runtime_view() == rt,
        Err(err) => r matches Err(e) && runtime_error_view(e) == err
            && after.fixtures_view() == before.fixtures_view() && after.runtime_view() == before.runtime_view(),
    }
}

/// Applies a side effect whose value template rendered to a text that parsed
/// as `parsed` (or failed to parse with that message).
pub fn apply_side_effect(side_effect: &SideEffect, state: &mut ServiceState, parsed: Result<JsonValue, String>)
    -> (r: Result<(), RuntimeError>)
    requires
        old(state).wf(),
    ensures
        side_effect_done(match parsed {
            Ok(v) => side_effect_result(side_effect.action@, side_effect.target@, json_data(v),
                old(state).fixtures_view(), old(state).runtime_view()),
            Err(m) => Err(side_effect_parse_error(m@)),
        }, *old(state), *final(state), r),
{
    let value = match parsed {
        Ok(v) => v,
        Err(m) => {
            return Err(RuntimeError {
                message: concat2("Failed to parse side effect value as JSON: ", m.as_str()),
                suggestion: Some(String::from_str("Ensure side effect value templates produce valid JSON")),
            });
        },
    };
    let action = side_effect.action.as_str();
    if str_eq(action, "add_to_fixture") {
        state.add_to_fixture_array(side_effect.target.as_str(), value)
    } else if str_eq(action, "update_fixture") {
        state.set_fixture(side_effect.target.clone(), value);
        Ok(())
    } else if str_eq(action, "remove_from_fixture") {
        let _ = state.remove_fixture(side_effect.target.as_str());
        Ok(())
    } else if str_eq(action, "set_runtime_data") {
        state.set_runtime_data(side_effect.target.clone(), value);
        Ok(())
    } else if str_eq(action, "remove_runtime_data") {
        let _ = state.remove_runtime_data(side_effect.target.as_str());
        Ok(())
    } else {
        Err(RuntimeError {
            message: concat2("Unknown side effect action: ", action),
            suggestion: Some(String::from_str(
                "Use supported actions: add_to_fixture, update_fixture, remove_from_fixture, set_runtime_data, remove_runtime_data")),
        })
    }
}

/// Processes a side effect of a response, given the text its value template
/// rendered to: the text is parsed as JSON and the action applied.
pub fn process_side_effect(side_effect: &SideEffect, state: &mut ServiceState, rendered_value: &str)
    -> (r: Result<(), RuntimeError>)
    requires
        old(state).wf(),
    ensures
        side_effect_done(match json_parsed(rendered_value@) {
            Ok(d) => side_effect_result(side_effect.action@, side_effect.target@, d,
                old(state).fixtures_view(), old(state).runtime_view()),
            Err(m) => Err(side_effect_parse_error(m)),
        }, *old(state), *final(state), r),
{
    let parsed = parse_json(rendered_value);
    apply_side_effect(side_effect, state, parsed)
}

/// The name/value pairs `url::form_urlencoded::parse` reads from a body, in
/// order, percent-decoded and with `+` read as a space.
pub uninterp spec fn form_pairs_of(body: Seq<char>) -> Seq<(Seq<char>, Seq<char>)>;

/// `url::form_urlencoded::parse` over the body's bytes, each pair collected
/// into owned strings. The pairs depend on the body alone.
#[verifier::external_body]
fn form_pairs(body: &str) -> (r: Vec<(String, String)>)
    ensures
        pairs_view(r@) == form_pairs_of(body@),
{
    url::form_urlencoded::parse(body.as_bytes()).map(|(k, v)| (k.into_owned(), v.into_owned())).collect()
}

/// The object a form body becomes: each pair sets a string member, a later
/// pair replacing an earlier one with the same name, members kept in key
/// order.
pub open spec fn form_fields(pairs: Seq<(Seq<char>, Seq<char>)>) -> Seq<(Seq<char>, JsonData)>
    decreases pairs.len(),
{
    if pairs.len() == 0 {
        Seq::empty()
    } else {
        sorted_insert(form_fields(pairs.drop_last()), pairs.last().0, JsonData::Str(pairs.last().1))
    }
}

/// The JSON object made of a form body's pairs.
pub fn form_object(pairs: &Vec<(String, String)>) -> (r: JsonValue)
    ensures
        json_data(r) == JsonData::Object(form_fields(pairs_view(pairs@))),
{
    let mut fields: Vec<(String, JsonValue)> = Vec::new();
    let mut i: usize = 0;
    assert(fields_data(fields@) =~= Seq::<(Seq<char>, JsonData)>::empty());
    assert(pairs_view(pairs@).take(0) =~= Seq::<(Seq<char>, Seq<char>)>::empty());
    while i < pairs.len()
        invariant
            i <= pairs@.len(),
            fields_data(fields@) == form_fields(pairs_view(pairs@).take(i as int)),
        decreases pairs@.len() - i,
    {
        proof {
            let pv = pairs_view(pairs@);
            assert(pv.take(i + 1).drop_last() =~= pv.take(i as int));
            assert(pv.take(i + 1).last() == (pairs@[i as int].0@, pairs@[i as int].1@));
        }
        let k = pairs[i].0.clone();
        let v = JsonValue::Str(pairs[i].1.clone());
        insert_sorted_field(&mut fields, k, v);
        i = i + 1;
    }
    assert(pairs_view(pairs@).take(pairs@.len() as int) =~= pairs_view(pairs@));
    JsonValue::Object(fields)
}

/// The request body as the handler sees it: none for an empty body; the
/// form's object when the content type (lower-cased) names form encoding;
/// else the body's JSON value, or none when it is not JSON.
pub open spec fn request_body_of(body: Seq<char>, content_type: Seq<char>) -> Option<JsonData> {
    if body.len() == 0 {
        None
    } else if contains_seq(unicode_lower(content_type), "application/x-www-form-urlencoded"@) {
        Some(JsonData::Object(form_fields(form_pairs_of(body))))
    } else {
        match json_parsed(body) {
            Ok(d) => Some(d),
            Err(_) => None,
        }
    }
}

/// Reads a request body (already decoded to text) by its content type.
pub fn parse_request_body(body: &str, content_type: &str) -> (r: Option<JsonValue>)
    ensures
        match r {
            Some(v) => request_body_of(body@, content_type@) == Some(json_data(v)),
            None => request_body_of(body@, content_type@) is None,
        },
{
    if body.unicode_len() == 0 {
        return None;
    }
    let lowered = to_lowercase(content_type);
    if contains_str(lowered.as_str(), "application/x-www-form-urlencoded") {
        let pairs = form_pairs(body);
        Some(form_object(&pairs))
    } else {
        match parse_json(body) {
            Ok(v) => Some(v),
            Err(_) => None,
        }
    }
}

/// The message of the reply to a request recorded as a new endpoint.
pub open spec fn recorded_message(method: Seq<char>, path: Seq<char>, recorded: Seq<char>) -> Seq<char> {
    "Se registró automáticamente "@ + method + " "@ + path + " como "@ + recorded
}

/// The body of the reply to a request recorded as a new endpoint: a JSON
/// object with its members in key order, as serde_json writes it.
pub open spec fn recorded_reply_body_of(method: Seq<char>, path: Seq<char>, recorded: Seq<char>) -> Seq<char> {
    "{\"error\":"@ + json_string_literal("Endpoint registrado"@) + ",\"message\":"@
        + json_string_literal(recorded_message(method, path, recorded)) + ",\"method\":"@
        + json_string_literal(method) + ",\"recorded_path\":"@ + json_string_literal(recorded) + "}"@
}

/// The body of the reply to a request recorded as a new endpoint.
pub fn recorded_reply_body(method: &str, path: &str, recorded_path: &str) -> (r: String)
    ensures
        r@ == recorded_reply_body_of(method@, path@, recorded_path@),
{
    let mut message = String::from_str("Se registró automáticamente ");
    message.append(method);
    message.append(" ");
    message.append(path);
    message.append(" como ");
    message.append(recorded_path);
    let mut body = String::from_str("{\"error\":");
    let e = json_quote("Endpoint registrado");
    body.append(e.as_str());
    body.append(",\"message\":");
    let m = json_quote(message.as_str());
    body.append(m.as_str());
    body.append(",\"method\":");
    let mq = json_quote(method);
    body.append(mq.as_str());
    body.append(",\"recorded_path\":");
    let rq = json_quote(recorded_path);
    body.append(rq.as_str());
    body.append("}");
    body
}

/// The value sent for a response header: its rendering when it holds `{{`
/// and rendering worked, else the value as written.
pub open spec fn header_value_of(value: Seq<char>, rendered: Result<Seq<char>, Seq<char>>) -> Seq<char> {
    if contains_seq(value, "{{"@) {
        match rendered {
            Ok(v) => v,
            Err(_) => value,
        }
    } else {
        value
    }
}

/// The value sent for a response header, given what rendering it gave
/// (consulted only when the value holds `{{`).
pub fn header_value(value: &str, rendered: Result<String, String>) -> (r: String)
    ensures
        r@ == header_value_of(value@, match rendered {
            Ok(v) => Ok(v@),
            Err(e) => Err(e@),
        }),
{
    if contains_str(value, "{{") {
        match rendered {
            Ok(v) => v,
            Err(_) => String::from_str(value),
        }
    } else {
        String::from_str(value)
    }
}

/// The headers of an endpoint's reply: its content type, then the response's
/// own headers (their values as sent), then the CORS headers.
pub open spec fn response_headers_of(content_type: Seq<char>, own: Seq<(Seq<char>, Seq<char>)>,
    cfg: Option<CorsConfig>, origin: Seq<char>) -> Seq<(Seq<char>, Seq<char>)>
{
    seq![("content-type"@, content_type)] + own + cors_headers_of(cfg, origin)
}

/// The headers of an endpoint's reply.
pub fn response_headers(content_type: &str, own: &Vec<(String, String)>, cfg: &Option<CorsConfig>, origin: &str)
    -> (r: Vec<(String, String)>)
    ensures
        header_pairs_view(r@) == response_headers_of(content_type@, header_pairs_view(own@), *cfg, origin@),
{
    let mut r: Vec<(String, String)> = Vec::new();
    r.push((String::from_str("content-type"), String::from_str(content_type)));
    let mut i: usize = 0;
    while i < own.len()
        invariant
            i <= own@.len(),
            header_pairs_view(r@) == seq![("content-type"@, content_type@)] + header_pairs_view(own@).take(i as int),
        decreases own@.len() - i,
    {
        let ghost before = r@;
        let k = own[i].0.clone();
        let v = own[i].1.clone();
        assert(k@ == own@[i as int].0@ && v@ == own@[i as int].1@);
        r.push((k, v));
        assert(header_pairs_view(r@) =~= header_pairs_view(before).push((own@[i as int].0@, own@[i as int].1@)));
        assert(header_pairs_view(own@).take(i + 1) =~= header_pairs_view(own@).take(i as int).push((own@[i as int].0@, own@[i as int].1@)));
        assert(header_pairs_view(r@) =~= seq![("content-type"@, content_type@)] + header_pairs_view(own@).take(i + 1));
        i = i + 1;
    }
    let mut c = cors_headers(cfg, origin);
    let ghost before = r@;
    r.append(&mut c);
    assert(header_pairs_view(own@).take(own@.len() as int) =~= header_pairs_view(own@));
    assert(header_pairs_view(r@) =~= header_pairs_view(before) + cors_headers_of(*cfg, origin@));
    r
}


/// Fields in key order, as a `serde_json::Map` keeps them, after inserting
/// the entries in turn (a later entry replacing an earlier one).
pub open spec fn sorted_fields(entries: Seq<(Seq<char>, JsonData)>) -> Seq<(Seq<char>, JsonData)>
    decreases entries.len(),
{
    if entries.len() == 0 {
        Seq::empty()
    } else {
        sorted_insert(sorted_fields(entries.drop_last()), entries.last().0, entries.last().1)
    }
}

/// The entries of a map of JSON values, in its order.
pub open spec fn json_entries(m: StrMap<JsonValue>) -> Seq<(Seq<char>, JsonData)> {
    Seq::new(m.keys_view().len(), |i: int| (m.keys_view()[i], json_data(m.vals_view()[i])))
}

/// The entries of a map of strings as JSON strings, in its order.
pub open spec fn text_entries(m: StrMap<String>) -> Seq<(Seq<char>, JsonData)> {
    Seq::new(m.keys_view().len(), |i: int| (m.keys_view()[i], JsonData::Str(m.vals_view()[i]@)))
}

/// The request part of a script's context: `body` (`null` when there is
/// none), `headers`, `method`, `path` and `query`, in that key order, each
/// map an object with its keys in order.
pub open spec fn script_request_of(method: Seq<char>, path: Seq<char>, query: StrMap<String>, headers: StrMap<String>,
    body: JsonData) -> JsonData {
    JsonData::Object(seq![
        ("body"@, body),
        ("headers"@, JsonData::Object(sorted_fields(text_entries(headers)))),
        ("method"@, JsonData::Str(method)),
        ("path"@, JsonData::Str(path)),
        ("query"@, JsonData::Object(sorted_fields(text_entries(query)))),
    ])
}

/// The context a response script runs with, laid out as serde_json lays
/// out its `json!` value: `fixtures`, `params`, `request` (see
/// [`script_request_of`]) and `runtime`, each map an object with its keys
/// in order.
pub open spec fn script_context_of(request: JsonData, params: StrMap<String>, fixtures: StrMap<JsonValue>,
    runtime: StrMap<JsonValue>) -> JsonData {
    JsonData::Object(seq![
        ("fixtures"@, JsonData::Object(sorted_fields(json_entries(fixtures)))),
        ("params"@, JsonData::Object(sorted_fields(text_entries(params)))),
        ("request"@, request),
        ("runtime"@, JsonData::Object(sorted_fields(json_entries(runtime)))),
    ])
}

fn json_map_object(m: &StrMap<JsonValue>) -> (r: JsonValue)
    requires
        m.wf(),
    ensures
        json_data(r) == JsonData::Object(sorted_fields(json_entries(*m))),
{
    let ghost es = json_entries(*m);
    let mut fields: Vec<(String, JsonValue)> = Vec::new();
    let mut i: usize = 0;
    let n = m.len();
    assert(es.take(0) =~= Seq::<(Seq<char>, JsonData)>::empty());
    assert(fields_data(fields@) =~= Seq::<(Seq<char>, JsonData)>::empty());
    while i < n
        invariant
            m.wf(),
            n == m.keys_view().len(),
            es == json_entries(*m),
            i <= n,
            fields_data(fields@) == sorted_fields(es.take(i as int)),
        decreases n - i,
    {
        assert(es.take(i + 1).drop_last() =~= es.take(i as int));
        assert(es.take(i + 1).last() == es[i as int]);
        let k = m.key_at(i).clone();
        let v = crate::json::json_clone(m.value_at(i));
        insert_sorted_field(&mut fields, k, v);
        i = i + 1;
    }
    assert(es.take(n as int) =~= es);
    JsonValue::Object(fields)
}

fn text_map_object(m: &StrMap<String>) -> (r: JsonValue)
    requires
        m.wf(),
    ensures
        json_data(r) == JsonData::Object(sorted_fields(text_entries(*m))),
{
    let ghost es = text_entries(*m);
    let mut fields: Vec<(String, JsonValue)> = Vec::new();
    let mut i: usize = 0;
    let n = m.len();
    assert(es.take(0) =~= Seq::<(Seq<char>, JsonData)>::empty());
    assert(fields_data(fields@) =~= Seq::<(Seq<char>, JsonData)>::empty());
    while i < n
        invariant
            m.wf(),
            n == m.keys_view().len(),
            es == text_entries(*m),
            i <= n,
            fields_data(fields@) == sorted_fields(es.take(i as int)),
        decreases n - i,
    {
        assert(es.take(i + 1).drop_last() =~= es.take(i as int));
        assert(es.take(i + 1).last() == es[i as int]);
        let k = m.key_at(i).clone();
        let v = JsonValue::Str(m.value_at(i).clone());
        insert_sorted_field(&mut fields, k, v);
        i = i + 1;
    }
    assert(es.take(n as int) =~= es);
    JsonValue::Object(fields)
}

/// The context a response script runs with (see [`script_context_of`]).
pub fn script_context(method: &str, path: &str, query: &StrMap<String>, headers: &StrMap<String>,
    body: &Option<JsonValue>, params: &StrMap<String>, fixtures: &StrMap<JsonValue>, runtime: &StrMap<JsonValue>)
    -> (r: JsonValue)
    requires
        query.wf(),
        headers.wf(),
        params.wf(),
        fixtures.wf(),
        runtime.wf(),
    ensures
        json_data(r) == script_context_of(script_request_of(method@, path@, *query, *headers, match body {
            Some(b) => json_data(*b),
            None => JsonData::Null,
        }), *params, *fixtures, *runtime),
{
    let body_value = match body {
        Some(b) => crate::json::json_clone(b),
        None => JsonValue::Null,
    };
    let request_fields = vec![
        (String::from_str("body"), body_value),
        (String::from_str("headers"), text_map_object(headers)),
        (String::from_str("method"), JsonValue::Str(String::from_str(method))),
        (String::from_str("path"), JsonValue::Str(String::from_str(path))),
        (String::from_str("query"), text_map_object(query)),
    ];
    let ghost request_data = script_request_of(method@, path@, *query, *headers, match body {
        Some(b) => json_data(*b),
        None => JsonData::Null,
    });
    proof {
        crate::json::lemma_fields_data_ext(request_fields@);
        if let JsonData::Object(rd) = request_data {
            assert(fields_data(request_fields@) =~= rd);
        }
    }
    let fields = vec![
        (String::from_str("fixtures"), json_map_object(fixtures)),
        (String::from_str("params"), text_map_object(params)),
        (String::from_str("request"), JsonValue::Object(request_fields)),
        (String::from_str("runtime"), json_map_object(runtime)),
    ];
    proof {
        crate::json::lemma_fields_data_ext(fields@);
        if let JsonData::Object(wd) = script_context_of(request_data, *params, *fixtures, *runtime) {
            assert(fields_data(fields@) =~= wd);
        }
    }
    JsonValue::Object(fields)
}

/// Runtime data after storing each field of a script's object result in
/// turn.
pub open spec fn store_fields(m: Map<Seq<char>, JsonData>, fs: Seq<(Seq<char>, JsonData)>) -> Map<Seq<char>, JsonData>
    decreases fs.len(),
{
    if fs.len() == 0 {
        m
    } else {
        store_fields(m, fs.drop_last()).insert(fs.last().0, fs.last().1)
    }
}

/// Takes in what a response script returned: each field of an object result
/// is stored as runtime data, in order; the result overrides the response
/// body unless it is `null`.
pub fn apply_script_result(state: &mut ServiceState, result: JsonValue) -> (body: Option<JsonValue>)
    requires
        old(state).wf(),
    ensures
        final(state).wf(),
        final(state).runtime_view() == match json_data(result) {
            JsonData::Object(fs) => store_fields(old(state).runtime_view(), fs),
            _ => old(state).runtime_view(),
        },
        final(state).fixtures_view() == old(state).fixtures_view(),
        final(state).initial_view() == old(state).initial_view(),
        forall|e: usize| #[trigger] final(state).counter_of(e) == old(state).counter_of(e),
        match body {
            Some(b) => json_data(result) != JsonData::Null && json_data(b) == json_data(result),
            None => json_data(result) == JsonData::Null,
        },
{
    if let JsonValue::Object(fields) = &result {
        let ghost fd = fields_data(fields@);
        proof {
            crate::json::lemma_fields_data_ext(fields@);
        }
        let mut i: usize = 0;
        assert(fd.take(0) =~= Seq::<(Seq<char>, JsonData)>::empty());
        while i < fields.len()
            invariant
                i <= fields@.len(),
                fd == fields_data(fields@),
                fd.len() == fields@.len(),
                forall|j: int| 0 <= j < fields@.len() ==> #[trigger] fd[j] == (fields@[j].0@, json_data(fields@[j].1)),
                state.wf(),
                state.runtime_view() == store_fields(old(state).runtime_view(), fd.take(i as int)),
                state.fixtures_view() == old(state).fixtures_view(),
                state.initial_view() == old(state).initial_view(),
                forall|e: usize| #[trigger] state.counter_of(e) == old(state).counter_of(e),
            decreases fields@.len() - i,
        {
            assert(fd.take(i + 1).drop_last() =~= fd.take(i as int));
            assert(fd.take(i + 1).last() == fd[i as int]);
            state.set_runtime_data(fields[i].0.clone(), crate::json::json_clone(&fields[i].1));
            i = i + 1;
        }
        assert(fd.take(fd.len() as int) =~= fd);
    }
    match result {
        JsonValue::Null => None,
        other => Some(other),
    }
}

/// The response body a script's result gives: a string as it is, any other
/// value as compact JSON text.
pub fn script_body_text(result: &JsonValue) -> (r: String)
    ensures
        r@ == match json_data(*result) {
            JsonData::Str(t) => t,
            d => crate::json::compact(d),
        },
{
    match result {
        JsonValue::Str(t) => t.clone(),
        _ => crate::json::to_json_string(result),
    }
}

/// The body of the reply when forwarding a request to the proxy failed.
pub fn proxy_error_body(details: &str) -> (r: String)
    ensures
        r@ == "{\"error\": \"Proxy request failed\", \"details\": \""@ + details@ + "\"}"@,
{
    crate::text::concat3("{\"error\": \"Proxy request failed\", \"details\": \"", details, "\"}")
}

} // verus!
