//! Postman and Insomnia collections: import into a service definition, and
//! export of a service definition as a Postman collection.

use vstd::prelude::*;
use crate::config::{EndpointDefinition, EndpointKind, ResponseDefinition, ServerConfig, ServiceDefinition};
use crate::json::{
    array_member, array_of, data_field, fields_data, get_member, push_field, push_item, str_member, items_data, json_data, lemma_items_data_ext, member, str_of, JsonData,
    JsonValue,
};
use crate::text::{
    concat3, decimal, has_prefix, join, joined, parse_unsigned, parsed_unsigned, starts_with, str_eq,
    string_views, to_uppercase, unicode_upper, usize_to_string,
};
use crate::urls::{parse_url_path, url_path_of};

verus! {

/// A response as plain values: status, content type, body and headers.
pub type ResponseView = (u16, Seq<char>, Seq<char>, Option<Seq<(Seq<char>, Seq<char>)>>);

/// An endpoint as plain values: method, path, description and responses.
pub type EndpointView = (Seq<char>, Seq<char>, Option<Seq<char>>, Seq<ResponseView>);

/// The views of optional header pairs.
pub open spec fn opt_pairs_view(h: Option<Vec<(String, String)>>) -> Option<Seq<(Seq<char>, Seq<char>)>> {
    match h {
        Some(v) => Some(v@.map_values(|p: (String, String)| (p.0@, p.1@))),
        None => None,
    }
}

/// The view of an optional string.
pub open spec fn opt_str_view(o: Option<String>) -> Option<Seq<char>> {
    match o {
        Some(s) => Some(s@),
        None => None,
    }
}

/// A status and response definition are the plain response `v`, with no
/// condition, schema, script or side effect.
pub open spec fn response_is(r: (u16, ResponseDefinition), v: ResponseView) -> bool {
    &&& r.0 == v.0
    &&& r.1.content_type@ == v.1
    &&& r.1.body@ == v.2
    &&& opt_pairs_view(r.1.headers) == v.3
    &&& r.1.condition is None
    &&& r.1.schema is None
    &&& r.1.script is None
    &&& r.1.side_effects is None
}

/// The responses are the plain responses `vs`, in order.
pub open spec fn responses_are(rs: Seq<(u16, ResponseDefinition)>, vs: Seq<ResponseView>) -> bool {
    &&& rs.len() == vs.len()
    &&& forall|i: int| 0 <= i < rs.len() ==> #[trigger] response_is(rs[i], vs[i])
}

/// An endpoint definition is the plain HTTP endpoint `v`, with no header
/// match, parameters, request body, scenarios or stream.
pub open spec fn endpoint_is(e: EndpointDefinition, v: EndpointView) -> bool {
    &&& e.kind == EndpointKind::Http
    &&& e.method@ == v.0
    &&& e.path@ == v.1
    &&& opt_str_view(e.description) == v.2
    &&& responses_are(e.responses@, v.3)
    &&& e.header_match is None
    &&& e.parameters is None
    &&& e.request_body is None
    &&& e.scenarios is None
    &&& e.stream is None
}

/// The endpoints are the plain endpoints `vs`, in order.
pub open spec fn endpoints_are(es: Seq<EndpointDefinition>, vs: Seq<EndpointView>) -> bool {
    &&& es.len() == vs.len()
    &&& forall|i: int| 0 <= i < es.len() ==> #[trigger] endpoint_is(es[i], vs[i])
}

/// A service made from a collection: its name and endpoints as given, served
/// at `/` on no fixed port, with nothing else set.
pub open spec fn imported_service(s: ServiceDefinition, name: Seq<char>, endpoints: Seq<EndpointView>) -> bool {
    &&& s.name@ == name
    &&& endpoints_are(s.endpoints@, endpoints)
    &&& s.version is None
    &&& s.description is None
    &&& s.server.port is None
    &&& s.server.base_path@ == "/"@
    &&& s.server.proxy_base_url is None
    &&& s.server.cors is None
    &&& !s.server.record_unknown
    &&& s.models is None
    &&& s.fixtures is None
    &&& s.bucket is None
    &&& s.graphql is None
    &&& s.behavior is None
}

/// The server of an imported collection.
fn root_server() -> (s: ServerConfig)
    ensures
        s.port is None,
        s.base_path@ == "/"@,
        s.proxy_base_url is None,
        s.cors is None,
        !s.record_unknown,
{
    ServerConfig { port: None, base_path: String::from_str("/"), proxy_base_url: None, cors: None, record_unknown: false }
}

/// The schema URL of a Postman collection.
pub open spec fn postman_schema() -> Seq<char> {
    "https://schema.getpostman.com/json/collection/v2.1.0/collection.json"@
}

/// The Postman form of a request to `method` and `path`, with no headers.
pub open spec fn request_json(method: Seq<char>, path: Seq<char>) -> JsonData {
    JsonData::Object(seq![
        ("header"@, JsonData::Array(Seq::empty())),
        ("method"@, JsonData::Str(method)),
        ("url"@, JsonData::Object(seq![("raw"@, JsonData::Str(path))])),
    ])
}

/// A header as a Postman `key`/`value` object.
pub open spec fn header_json(h: (String, String)) -> JsonData {
    JsonData::Object(seq![("key"@, JsonData::Str(h.0@)), ("value"@, JsonData::Str(h.1@))])
}

/// Headers as Postman `key`/`value` objects.
pub open spec fn headers_json(h: Seq<(String, String)>) -> Seq<JsonData> {
    h.map_values(|p: (String, String)| header_json(p))
}

/// A response of an endpoint as a Postman saved response; members in key
/// order, as serde_json keeps them.
pub open spec fn response_json(e: EndpointDefinition, status: u16, r: ResponseDefinition) -> JsonData {
    JsonData::Object(seq![
        ("body"@, JsonData::Str(r.body@)),
        ("code"@, JsonData::Number(decimal(status as nat))),
        ("header"@, JsonData::Array(response_headers_json(r))),
        ("name"@, JsonData::Str(decimal(status as nat))),
        ("originalRequest"@, request_json(e.method@, e.path@)),
        ("status"@, JsonData::Str(decimal(status as nat))),
    ])
}

/// The headers of a response as Postman objects (none when it has none).
pub open spec fn response_headers_json(r: ResponseDefinition) -> Seq<JsonData> {
    match r.headers {
        Some(h) => headers_json(h@),
        None => Seq::empty(),
    }
}

/// The name of an endpoint in a collection: its description, or its method
/// and path.
pub open spec fn item_name(e: EndpointDefinition) -> Seq<char> {
    match e.description {
        Some(d) => d@,
        None => e.method@ + " "@ + e.path@,
    }
}

/// An endpoint as a Postman item.
pub open spec fn item_json(e: EndpointDefinition) -> JsonData {
    JsonData::Object(seq![
        ("name"@, JsonData::Str(item_name(e))),
        ("request"@, request_json(e.method@, e.path@)),
        ("response"@, JsonData::Array(e.responses@.map_values(|r: (u16, ResponseDefinition)| response_json(e, r.0, r.1)))),
    ])
}

/// A service as a Postman collection.
pub open spec fn postman_json(s: ServiceDefinition) -> JsonData {
    JsonData::Object(seq![
        ("info"@, JsonData::Object(seq![("name"@, JsonData::Str(s.name@)), ("schema"@, JsonData::Str(postman_schema()))])),
        ("item"@, JsonData::Array(s.endpoints@.map_values(|e: EndpointDefinition| item_json(e)))),
    ])
}

fn str_value(s: &str) -> (v: JsonValue)
    ensures
        json_data(v) == JsonData::Str(s@),
{
    JsonValue::Str(String::from_str(s))
}

fn request_value(method: &str, path: &str) -> (v: JsonValue)
    ensures
        json_data(v) == request_json(method@, path@),
{
    let mut url: Vec<(String, JsonValue)> = Vec::new();
    push_field(&mut url, "raw", str_value(path));
    let mut fields: Vec<(String, JsonValue)> = Vec::new();
    let empty: Vec<JsonValue> = Vec::new();
    assert(items_data(empty@) =~= Seq::<JsonData>::empty());
    push_field(&mut fields, "header", JsonValue::Array(empty));
    push_field(&mut fields, "method", str_value(method));
    push_field(&mut fields, "url", JsonValue::Object(url));
    let v = JsonValue::Object(fields);
    assert(fields_data(fields@) =~= seq![
        ("header"@, JsonData::Array(Seq::empty())),
        ("method"@, JsonData::Str(method@)),
        ("url"@, JsonData::Object(seq![("raw"@, JsonData::Str(path@))])),
    ]);
    v
}

fn response_value(e: &EndpointDefinition, status: u16, r: &ResponseDefinition) -> (v: JsonValue)
    ensures
        json_data(v) == response_json(*e, status, *r),
{
    let code = usize_to_string(status as usize);
    let mut headers: Vec<JsonValue> = Vec::new();
    match &r.headers {
        Some(h) => {
            let mut i: usize = 0;
            while i < h.len()
                invariant
                    i <= h@.len(),
                    items_data(headers@) == headers_json(h@.take(i as int)),
                decreases h@.len() - i,
            {
                let mut kv: Vec<(String, JsonValue)> = Vec::new();
                push_field(&mut kv, "key", str_value(h[i].0.as_str()));
                push_field(&mut kv, "value", str_value(h[i].1.as_str()));
                assert(fields_data(kv@) =~= seq![("key"@, JsonData::Str(h@[i as int].0@)), ("value"@, JsonData::Str(h@[i as int].1@))]);
                let item = JsonValue::Object(kv);
                assert(json_data(item) == header_json(h@[i as int]));
                push_item(&mut headers, item);
                proof {
                    assert(headers_json(h@.take(i + 1)) =~= headers_json(h@.take(i as int)).push(header_json(h@[i as int])));
                }
                i = i + 1;
            }
            assert(h@.take(h@.len() as int) =~= h@);
            assert(items_data(headers@) == headers_json(h@));
        },
        None => {
            assert(items_data(headers@) =~= Seq::<JsonData>::empty());
        },
    }
    let mut fields: Vec<(String, JsonValue)> = Vec::new();
    let ghost hd = items_data(headers@);
    assert(hd == response_headers_json(*r));
    push_field(&mut fields, "body", str_value(r.body.as_str()));
    push_field(&mut fields, "code", JsonValue::Number(code.clone()));
    push_field(&mut fields, "header", JsonValue::Array(headers));
    push_field(&mut fields, "name", str_value(code.as_str()));
    push_field(&mut fields, "originalRequest", request_value(e.method.as_str(), e.path.as_str()));
    push_field(&mut fields, "status", str_value(code.as_str()));
    let v = JsonValue::Object(fields);
    assert(fields_data(fields@) =~= seq![
        ("body"@, JsonData::Str(r.body@)),
        ("code"@, JsonData::Number(decimal(status as nat))),
        ("header"@, JsonData::Array(hd)),
        ("name"@, JsonData::Str(decimal(status as nat))),
        ("originalRequest"@, request_json(e.method@, e.path@)),
        ("status"@, JsonData::Str(decimal(status as nat))),
    ]);
    assert(json_data(v) == response_json(*e, status, *r));
    v
}

fn item_value(e: &EndpointDefinition) -> (v: JsonValue)
    ensures
        json_data(v) == item_json(*e),
{
    let name = match &e.description {
        Some(d) => d.clone(),
        None => concat3(e.method.as_str(), " ", e.path.as_str()),
    };
    let mut responses: Vec<JsonValue> = Vec::new();
    let mut i: usize = 0;
    while i < e.responses.len()
        invariant
            i <= e.responses@.len(),
            items_data(responses@) == e.responses@.take(i as int).map_values(|r: (u16, ResponseDefinition)| response_json(*e, r.0, r.1)),
        decreases e.responses@.len() - i,
    {
        let rv = response_value(e, e.responses[i].0, &e.responses[i].1);
        push_item(&mut responses, rv);
        proof {
            assert(e.responses@.take(i + 1).map_values(|r: (u16, ResponseDefinition)| response_json(*e, r.0, r.1))
                =~= e.responses@.take(i as int).map_values(|r: (u16, ResponseDefinition)| response_json(*e, r.0, r.1))
                    .push(response_json(*e, e.responses@[i as int].0, e.responses@[i as int].1)));
        }
        i = i + 1;
    }
    assert(e.responses@.take(e.responses@.len() as int) =~= e.responses@);
    let mut fields: Vec<(String, JsonValue)> = Vec::new();
    let ghost rd = items_data(responses@);
    push_field(&mut fields, "name", JsonValue::Str(name));
    push_field(&mut fields, "request", request_value(e.method.as_str(), e.path.as_str()));
    push_field(&mut fields, "response", JsonValue::Array(responses));
    let v = JsonValue::Object(fields);
    assert(fields_data(fields@) =~= seq![
        ("name"@, JsonData::Str(item_name(*e))),
        ("request"@, request_json(e.method@, e.path@)),
        ("response"@, JsonData::Array(rd)),
    ]);
    assert(json_data(v) == item_json(*e));
    v
}

/// A service definition as a Postman collection: one item per endpoint, one
/// saved response per response definition.
pub fn to_postman(service: &ServiceDefinition) -> (v: JsonValue)
    ensures
        json_data(v) == postman_json(*service),
{
    let mut items: Vec<JsonValue> = Vec::new();
    let mut i: usize = 0;
    while i < service.endpoints.len()
        invariant
            i <= service.endpoints@.len(),
            items_data(items@) == service.endpoints@.take(i as int).map_values(|e: EndpointDefinition| item_json(e)),
        decreases service.endpoints@.len() - i,
    {
        let iv = item_value(&service.endpoints[i]);
        push_item(&mut items, iv);
        proof {
            assert(service.endpoints@.take(i + 1).map_values(|e: EndpointDefinition| item_json(e))
                =~= service.endpoints@.take(i as int).map_values(|e: EndpointDefinition| item_json(e))
                    .push(item_json(service.endpoints@[i as int])));
        }
        i = i + 1;
    }
    assert(service.endpoints@.take(service.endpoints@.len() as int) =~= service.endpoints@);
    let mut info: Vec<(String, JsonValue)> = Vec::new();
    push_field(&mut info, "name", str_value(service.name.as_str()));
    push_field(&mut info, "schema", str_value("https://schema.getpostman.com/json/collection/v2.1.0/collection.json"));
    assert(fields_data(info@) =~= seq![("name"@, JsonData::Str(service.name@)), ("schema"@, JsonData::Str(postman_schema()))]);
    let ghost idd = items_data(items@);
    let mut fields: Vec<(String, JsonValue)> = Vec::new();
    push_field(&mut fields, "info", JsonValue::Object(info));
    push_field(&mut fields, "item", JsonValue::Array(items));
    let v = JsonValue::Object(fields);
    assert(fields_data(fields@) =~= seq![
        ("info"@, JsonData::Object(seq![("name"@, JsonData::Str(service.name@)), ("schema"@, JsonData::Str(postman_schema()))])),
        ("item"@, JsonData::Array(idd)),
    ]);
    assert(json_data(v) == postman_json(*service));
    v
}

/// The number a member holds, as `Value::as_u64` reads it: digits alone,
/// within `u64`.
pub open spec fn number_u64(d: Option<JsonData>) -> Option<nat> {
    match d {
        Some(JsonData::Number(t)) => if t.len() > 0 && t[0] == '+' {
            None
        } else {
            parsed_unsigned(t, u64::MAX as nat)
        },
        _ => None,
    }
}

/// The first pair with key `k`.
pub open spec fn key_index(m: Seq<(Seq<char>, Seq<char>)>, k: Seq<char>) -> Option<int>
    decreases m.len(),
{
    if m.len() == 0 {
        None
    } else {
        match key_index(m.drop_last(), k) {
            Some(i) => Some(i),
            None => if m.last().0 == k { Some(m.len() - 1) } else { None },
        }
    }
}

/// A map kept as pairs in first-insertion order, after setting `k` to `v`.
pub open spec fn upsert_pair(m: Seq<(Seq<char>, Seq<char>)>, k: Seq<char>, v: Seq<char>) -> Seq<(Seq<char>, Seq<char>)> {
    match key_index(m, k) {
        Some(i) => m.update(i, (k, v)),
        None => m.push((k, v)),
    }
}

/// The headers of a Postman saved response: each object with a string `key`
/// sets that header to its string `value` (empty when there is none).
pub open spec fn postman_header_map(hs: Seq<JsonData>) -> Seq<(Seq<char>, Seq<char>)>
    decreases hs.len(),
{
    if hs.len() == 0 {
        Seq::empty()
    } else {
        let m = postman_header_map(hs.drop_last());
        match str_of(member(hs.last(), "key"@)) {
            Some(k) => upsert_pair(m, k, match str_of(member(hs.last(), "value"@)) {
                Some(v) => v,
                None => Seq::empty(),
            }),
            None => m,
        }
    }
}

/// The status of a Postman saved response: its `code`, 200 when it has none,
/// cut to 16 bits.
pub open spec fn postman_status(resp: JsonData) -> u16 {
    let n: nat = match number_u64(member(resp, "code"@)) {
        Some(n) => n,
        None => 200,
    };
    (n % 65536) as u16
}

/// The headers of a Postman saved response, when it lists any.
pub open spec fn postman_headers(resp: JsonData) -> Option<Seq<(Seq<char>, Seq<char>)>> {
    match array_of(member(resp, "header"@)) {
        Some(hs) => {
            let m = postman_header_map(hs);
            if m.len() > 0 { Some(m) } else { None }
        },
        None => None,
    }
}

/// The content type given by a `Content-Type` header, else JSON.
pub open spec fn content_type_in(h: Option<Seq<(Seq<char>, Seq<char>)>>) -> Seq<char> {
    match h {
        Some(m) => match key_index(m, "Content-Type"@) {
            Some(i) => m[i].1,
            None => "application/json"@,
        },
        None => "application/json"@,
    }
}

/// A Postman saved response as a response.
pub open spec fn postman_response(resp: JsonData) -> ResponseView {
    (postman_status(resp), content_type_in(postman_headers(resp)), match str_of(member(resp, "body"@)) {
        Some(b) => b,
        None => Seq::empty(),
    }, postman_headers(resp))
}

/// The first response with status `s`.
pub open spec fn status_index(rs: Seq<ResponseView>, s: u16) -> Option<int>
    decreases rs.len(),
{
    if rs.len() == 0 {
        None
    } else {
        match status_index(rs.drop_last(), s) {
            Some(i) => Some(i),
            None => if rs.last().0 == s { Some(rs.len() - 1) } else { None },
        }
    }
}

/// Responses kept by status in first-insertion order, after setting `r`.
pub open spec fn upsert_response(rs: Seq<ResponseView>, r: ResponseView) -> Seq<ResponseView> {
    match status_index(rs, r.0) {
        Some(i) => rs.update(i, r),
        None => rs.push(r),
    }
}

/// The responses of a Postman item, a later one replacing an earlier one
/// with the same status.
pub open spec fn postman_responses(resps: Seq<JsonData>) -> Seq<ResponseView>
    decreases resps.len(),
{
    if resps.len() == 0 {
        Seq::empty()
    } else {
        upsert_response(postman_responses(resps.drop_last()), postman_response(resps.last()))
    }
}

/// The response of an endpoint that lists none: an empty JSON 200.
pub open spec fn default_response() -> ResponseView {
    (200u16, "application/json"@, Seq::empty(), None)
}

/// The strings among some values, in order.
pub open spec fn string_parts(parts: Seq<JsonData>) -> Seq<Seq<char>>
    decreases parts.len(),
{
    if parts.len() == 0 {
        Seq::empty()
    } else {
        string_parts(parts.drop_last()) + match parts.last() {
            JsonData::Str(p) => seq![p],
            _ => Seq::empty(),
        }
    }
}

/// The path of a raw URL: the path of the URL when it parses, else the text
/// itself, with a `/` put before it when it lacks one.
pub open spec fn raw_url_path(raw: Seq<char>) -> Seq<char> {
    match url_path_of(raw) {
        Some(p) => p,
        None => if has_prefix(raw, "/"@) { raw } else { "/"@ + raw },
    }
}

/// The path of a Postman request URL: from its `raw` text, else from its
/// `path` parts joined with `/`, else `/`.
pub open spec fn postman_path(url: Option<JsonData>) -> Seq<char> {
    match url {
        Some(u) => match str_of(member(u, "raw"@)) {
            Some(raw) => raw_url_path(raw),
            None => match array_of(member(u, "path"@)) {
                Some(parts) => "/"@ + joined(string_parts(parts), "/"@),
                None => "/"@,
            },
        },
        None => "/"@,
    }
}

/// A Postman item with a request, as an endpoint: the request's method in
/// upper case (`GET` when it has none), the path of its URL, the item's name,
/// and its saved responses (an empty JSON 200 when it has none).
pub open spec fn postman_endpoint(item: JsonData, req: JsonData) -> EndpointView {
    let rs = match array_of(member(item, "response"@)) {
        Some(a) => postman_responses(a),
        None => Seq::empty(),
    };
    (unicode_upper(match str_of(member(req, "method"@)) {
        Some(m) => m,
        None => "GET"@,
    }), postman_path(member(req, "url"@)), str_of(member(item, "name"@)), if rs.len() == 0 {
        seq![default_response()]
    } else {
        rs
    })
}

/// The endpoints of Postman items, in order, folders (items with an `item`
/// list and no request) walked in place.
pub open spec fn postman_items(items: Seq<JsonData>) -> Seq<EndpointView>
    decreases items,
{
    if items.len() == 0 {
        Seq::empty()
    } else {
        proof {
            assert(items.drop_last() == items.subrange(0, items.len() - 1));
            assert(decreases_to!(items => items.subrange(0, items.len() - 1)));
            assert(decreases_to!(items => items[items.len() - 1]));
        }
        postman_items(items.drop_last()) + postman_item(items.last())
    }
}

/// The endpoints of one Postman item.
pub open spec fn postman_item(item: JsonData) -> Seq<EndpointView>
    decreases item,
{
    match member(item, "request"@) {
        Some(req) => seq![postman_endpoint(item, req)],
        None => match item {
            JsonData::Object(fs) => folder_items(fs),
            _ => Seq::empty(),
        },
    }
}

/// The endpoints of a folder: those of its first `item` member when it is a
/// list.
pub open spec fn folder_items(fs: Seq<(Seq<char>, JsonData)>) -> Seq<EndpointView>
    decreases fs,
{
    if fs.len() == 0 {
        Seq::empty()
    } else if fs[0].0 == "item"@ {
        match fs[0].1 {
            JsonData::Array(xs) => {
                proof {
                    assert(decreases_to!(fs => fs[0]));
                    assert(decreases_to!(fs[0] => fs[0].1));
                }
                postman_items(xs)
            },
            _ => Seq::empty(),
        }
    } else {
        proof {
            assert(fs.drop_first() == fs.subrange(1, fs.len() as int));
            assert(decreases_to!(fs => fs.subrange(1, fs.len() as int)));
        }
        folder_items(fs.drop_first())
    }
}

/// Folders walk the items of their first `item` member when it is a list.
proof fn lemma_folder_items(fs: Seq<(Seq<char>, JsonData)>)
    ensures
        folder_items(fs) == match data_field(fs, "item"@) {
            Some(JsonData::Array(xs)) => postman_items(xs),
            _ => Seq::empty(),
        },
    decreases fs.len(),
{
    if fs.len() > 0 && fs[0].0 != "item"@ {
        lemma_folder_items(fs.drop_first());
    }
}

/// Lists of endpoints put together are their views put together.
proof fn lemma_endpoints_append(a: Seq<EndpointDefinition>, av: Seq<EndpointView>, b: Seq<EndpointDefinition>, bv: Seq<EndpointView>)
    requires
        endpoints_are(a, av),
        endpoints_are(b, bv),
    ensures
        endpoints_are(a + b, av + bv),
{
    assert forall|i: int| 0 <= i < (a + b).len() implies #[trigger] endpoint_is((a + b)[i], (av + bv)[i]) by {
        if i < a.len() {
            assert(endpoint_is(a[i], av[i]));
        } else {
            assert(endpoint_is(b[i - a.len()], bv[i - a.len()]));
        }
    }
}

fn member_u64(v: &JsonValue, key: &str) -> (r: Option<u64>)
    ensures
        match r {
            Some(n) => number_u64(member(json_data(*v), key@)) == Some(n as nat),
            None => number_u64(member(json_data(*v), key@)) is None,
        },
{
    match get_member(v, key) {
        Some(x) => match x {
            JsonValue::Number(t) => {
                proof {
                    reveal_strlit("+");
                    assert("+"@ =~= seq!['+']);
                    if t@.len() > 0 {
                        assert(t@.subrange(0, 1) =~= seq![t@[0]]);
                    }
                }
                let plus = starts_with(t.as_str(), "+");
                proof {
                    if t@.len() > 0 && t@[0] == '+' {
                        assert(t@.subrange(0, 1) =~= "+"@);
                    }
                    if plus {
                        assert(t@.subrange(0, 1) == "+"@);
                        assert(t@.subrange(0, 1)[0] == t@[0]);
                        assert("+"@[0] == '+');
                    }
                }
                if plus {
                    None
                } else {
                    let r = parse_unsigned(t.as_str(), u64::MAX);
                    assert(member(json_data(*v), key@) == Some(JsonData::Number(t@)));
                    r
                }
            },
            _ => None,
        },
        None => None,
    }
}

/// The views of header pairs.
pub open spec fn pairs_of(m: Seq<(String, String)>) -> Seq<(Seq<char>, Seq<char>)> {
    m.map_values(|p: (String, String)| (p.0@, p.1@))
}

fn find_key(m: &Vec<(String, String)>, k: &str) -> (r: Option<usize>)
    ensures
        match r {
            Some(i) => i < m@.len() && key_index(pairs_of(m@), k@) == Some(i as int),
            None => key_index(pairs_of(m@), k@) is None,
        },
{
    let ghost pv = pairs_of(m@);
    let mut i: usize = 0;
    assert(pv.take(0) =~= Seq::<(Seq<char>, Seq<char>)>::empty());
    while i < m.len()
        invariant
            i <= m@.len(),
            pv == pairs_of(m@),
            key_index(pv.take(i as int), k@) is None,
        decreases m@.len() - i,
    {
        assert(pv.take(i + 1).drop_last() =~= pv.take(i as int));
        if str_eq(m[i].0.as_str(), k) {
            proof {
                lemma_key_index_prefix(pv, k@, i as int + 1);
            }
            return Some(i);
        }
        i = i + 1;
    }
    assert(pv.take(m@.len() as int) =~= pv);
    None
}

/// The first index in a prefix that holds it is the first index overall.
proof fn lemma_key_index_prefix(m: Seq<(Seq<char>, Seq<char>)>, k: Seq<char>, n: int)
    requires
        0 <= n <= m.len(),
        key_index(m.take(n), k) is Some,
    ensures
        key_index(m, k) == key_index(m.take(n), k),
    decreases m.len() - n,
{
    if n < m.len() {
        assert(m.take(n + 1).drop_last() =~= m.take(n));
        lemma_key_index_prefix(m, k, n + 1);
    } else {
        assert(m.take(n) =~= m);
    }
}

pub(crate) fn upsert_header(m: &mut Vec<(String, String)>, k: String, v: String)
    ensures
        pairs_of(final(m)@) == upsert_pair(pairs_of(old(m)@), k@, v@),
{
    let ghost kv = k@;
    let ghost vv = v@;
    match find_key(m, k.as_str()) {
        Some(i) => {
            m.set(i, (k, v));
            assert(pairs_of(m@) =~= pairs_of(old(m)@).update(i as int, (kv, vv)));
        },
        None => {
            m.push((k, v));
            assert(pairs_of(m@) =~= pairs_of(old(m)@).push((kv, vv)));
        },
    }
}

fn postman_header_pairs(hs: &Vec<JsonValue>) -> (m: Vec<(String, String)>)
    ensures
        pairs_of(m@) == postman_header_map(items_data(hs@)),
{
    let ghost hd = items_data(hs@);
    proof {
        lemma_items_data_ext(hs@);
        assert(hd.take(0) =~= Seq::<JsonData>::empty());
    }
    let mut m: Vec<(String, String)> = Vec::new();
    assert(pairs_of(m@) =~= Seq::<(Seq<char>, Seq<char>)>::empty());
    let mut i: usize = 0;
    while i < hs.len()
        invariant
            i <= hs@.len(),
            hd == items_data(hs@),
            hd.len() == hs@.len(),
            forall|j: int| 0 <= j < hs@.len() ==> #[trigger] hd[j] == json_data(hs@[j]),
            pairs_of(m@) == postman_header_map(hd.take(i as int)),
        decreases hs@.len() - i,
    {
        proof {
            assert(hd.take(i + 1).drop_last() =~= hd.take(i as int));
            assert(hd.take(i + 1).last() == json_data(hs@[i as int]));
        }
        match str_member(&hs[i], "key") {
            Some(k) => {
                let v = match str_member(&hs[i], "value") {
                    Some(x) => x.clone(),
                    None => String::new(),
                };
                upsert_header(&mut m, k.clone(), v);
            },
            None => {},
        }
        i = i + 1;
    }
    assert(hd.take(hs@.len() as int) =~= hd);
    m
}

fn postman_response_def(resp: &JsonValue) -> (r: (u16, ResponseDefinition))
    ensures
        response_is(r, postman_response(json_data(*resp))),
{
    let code: u64 = match member_u64(resp, "code") {
        Some(n) => n,
        None => 200,
    };
    let status = (code % 65536) as u16;
    let body = match str_member(resp, "body") {
        Some(b) => b.clone(),
        None => String::new(),
    };
    let headers: Option<Vec<(String, String)>> = match array_member(resp, "header") {
        Some(hs) => {
            let m = postman_header_pairs(hs);
            if m.len() > 0 { Some(m) } else { None }
        },
        None => None,
    };
    assert(opt_pairs_view(headers) == postman_headers(json_data(*resp)));
    let content_type = match &headers {
        Some(m) => match find_key(m, "Content-Type") {
            Some(i) => m[i].1.clone(),
            None => String::from_str("application/json"),
        },
        None => String::from_str("application/json"),
    };
    (status, ResponseDefinition {
        condition: None,
        content_type,
        body,
        schema: None,
        script: None,
        headers,
        side_effects: None,
    })
}

fn default_response_def() -> (r: (u16, ResponseDefinition))
    ensures
        response_is(r, default_response()),
{
    (200, ResponseDefinition {
        condition: None,
        content_type: String::from_str("application/json"),
        body: String::new(),
        schema: None,
        script: None,
        headers: None,
        side_effects: None,
    })
}

pub(crate) fn upsert_response_def(rs: &mut Vec<(u16, ResponseDefinition)>, r: (u16, ResponseDefinition),
    Ghost(vs): Ghost<Seq<ResponseView>>, Ghost(v): Ghost<ResponseView>)
    requires
        responses_are(old(rs)@, vs),
        response_is(r, v),
    ensures
        responses_are(final(rs)@, upsert_response(vs, v)),
{
    let mut i: usize = 0;
    assert(vs.take(0) =~= Seq::<ResponseView>::empty());
    while i < rs.len()
        invariant
            i <= rs@.len(),
            rs@ == old(rs)@,
            responses_are(rs@, vs),
            response_is(r, v),
            status_index(vs.take(i as int), v.0) is None,
        decreases rs@.len() - i,
    {
        assert(vs.take(i + 1).drop_last() =~= vs.take(i as int));
        assert(response_is(rs@[i as int], vs[i as int]));
        if rs[i].0 == r.0 {
            proof {
                lemma_status_index_prefix(vs, v.0, i as int + 1);
            }
            rs.set(i, r);
            assert forall|j: int| 0 <= j < rs@.len() implies #[trigger] response_is(rs@[j], upsert_response(vs, v)[j]) by {
                if j != i { assert(response_is(old(rs)@[j], vs[j])); }
            }
            return;
        }
        i = i + 1;
    }
    assert(vs.take(vs.len() as int) =~= vs);
    rs.push(r);
    assert forall|j: int| 0 <= j < rs@.len() implies #[trigger] response_is(rs@[j], upsert_response(vs, v)[j]) by {
        if j < vs.len() { assert(response_is(old(rs)@[j], vs[j])); }
    }
}

/// The first index in a prefix that holds it is the first index overall.
proof fn lemma_status_index_prefix(rs: Seq<ResponseView>, st: u16, n: int)
    requires
        0 <= n <= rs.len(),
        status_index(rs.take(n), st) is Some,
    ensures
        status_index(rs, st) == status_index(rs.take(n), st),
    decreases rs.len() - n,
{
    if n < rs.len() {
        assert(rs.take(n + 1).drop_last() =~= rs.take(n));
        lemma_status_index_prefix(rs, st, n + 1);
    } else {
        assert(rs.take(n) =~= rs);
    }
}

fn postman_response_defs(resps: &Vec<JsonValue>) -> (rs: Vec<(u16, ResponseDefinition)>)
    ensures
        responses_are(rs@, postman_responses(items_data(resps@))),
{
    let ghost rd = items_data(resps@);
    proof {
        lemma_items_data_ext(resps@);
        assert(rd.take(0) =~= Seq::<JsonData>::empty());
    }
    let mut rs: Vec<(u16, ResponseDefinition)> = Vec::new();
    let mut i: usize = 0;
    while i < resps.len()
        invariant
            i <= resps@.len(),
            rd == items_data(resps@),
            rd.len() == resps@.len(),
            forall|j: int| 0 <= j < resps@.len() ==> #[trigger] rd[j] == json_data(resps@[j]),
            responses_are(rs@, postman_responses(rd.take(i as int))),
        decreases resps@.len() - i,
    {
        proof {
            assert(rd.take(i + 1).drop_last() =~= rd.take(i as int));
            assert(rd.take(i + 1).last() == json_data(resps@[i as int]));
        }
        let r = postman_response_def(&resps[i]);
        upsert_response_def(&mut rs, r, Ghost(postman_responses(rd.take(i as int))), Ghost(postman_response(rd[i as int])));
        i = i + 1;
    }
    assert(rd.take(resps@.len() as int) =~= rd);
    rs
}

/// The path of a raw URL: the path of the URL when it parses, else the text
/// with a leading `/`.
pub fn raw_path(raw: &str) -> (r: String)
    ensures
        r@ == raw_url_path(raw@),
{
    match parse_url_path(raw) {
        Some(p) => p,
        None => if starts_with(raw, "/") {
            String::from_str(raw)
        } else {
            crate::text::concat2("/", raw)
        },
    }
}

/// The path of a Postman request URL.
pub fn extract_postman_path(url_val: Option<&JsonValue>) -> (r: String)
    ensures
        r@ == postman_path(match url_val {
            Some(u) => Some(json_data(*u)),
            None => None,
        }),
{
    match url_val {
        Some(url) => match str_member(url, "raw") {
            Some(raw) => raw_path(raw.as_str()),
            None => match array_member(url, "path") {
                Some(parts) => {
                    let ghost pd = items_data(parts@);
                    proof {
                        lemma_items_data_ext(parts@);
                        assert(pd.take(0) =~= Seq::<JsonData>::empty());
                    }
                    let mut names: Vec<String> = Vec::new();
                    assert(string_views(names@) =~= Seq::<Seq<char>>::empty());
                    let mut i: usize = 0;
                    while i < parts.len()
                        invariant
                            i <= parts@.len(),
                            pd == items_data(parts@),
                            pd.len() == parts@.len(),
                            forall|j: int| 0 <= j < parts@.len() ==> #[trigger] pd[j] == json_data(parts@[j]),
                            string_views(names@) == string_parts(pd.take(i as int)),
                        decreases parts@.len() - i,
                    {
                        proof {
                            assert(pd.take(i + 1).drop_last() =~= pd.take(i as int));
                            assert(pd.take(i + 1).last() == json_data(parts@[i as int]));
                        }
                        match &parts[i] {
                            JsonValue::Str(p) => {
                                let ghost before = names@;
                                names.push(p.clone());
                                assert(string_views(names@) =~= string_views(before).push(p@));
                            },
                            _ => {},
                        }
                        assert(string_views(names@) =~= string_parts(pd.take(i + 1)));
                        i = i + 1;
                    }
                    assert(pd.take(parts@.len() as int) =~= pd);
                    let joined_parts = join(&names, "/");
                    crate::text::concat2("/", joined_parts.as_str())
                },
                None => String::from_str("/"),
            },
        },
        None => String::from_str("/"),
    }
}

fn postman_endpoint_def(item: &JsonValue, req: &JsonValue) -> (e: EndpointDefinition)
    ensures
        endpoint_is(e, postman_endpoint(json_data(*item), json_data(*req))),
{
    let method_raw = match str_member(req, "method") {
        Some(m) => m.clone(),
        None => String::from_str("GET"),
    };
    let method = to_uppercase(method_raw.as_str());
    let path = extract_postman_path(get_member(req, "url"));
    let description = match str_member(item, "name") {
        Some(n) => Some(n.clone()),
        None => None,
    };
    let mut responses = match array_member(item, "response") {
        Some(a) => postman_response_defs(a),
        None => Vec::new(),
    };
    if responses.len() == 0 {
        responses.push(default_response_def());
        assert(responses_are(responses@, seq![default_response()]));
    }
    EndpointDefinition {
        kind: EndpointKind::Http,
        method,
        path,
        header_match: None,
        description,
        parameters: None,
        request_body: None,
        responses,
        scenarios: None,
        stream: None,
    }
}

fn postman_item_defs(items: &Vec<JsonValue>) -> (r: Vec<EndpointDefinition>)
    ensures
        endpoints_are(r@, postman_items(items_data(items@))),
    decreases items,
{
    let ghost idata = items_data(items@);
    proof {
        lemma_items_data_ext(items@);
        assert(idata.take(0) =~= Seq::<JsonData>::empty());
    }
    let mut r: Vec<EndpointDefinition> = Vec::new();
    let mut i: usize = 0;
    while i < items.len()
        invariant
            i <= items@.len(),
            idata == items_data(items@),
            idata.len() == items@.len(),
            forall|j: int| 0 <= j < items@.len() ==> #[trigger] idata[j] == json_data(items@[j]),
            endpoints_are(r@, postman_items(idata.take(i as int))),
        decreases items@.len() - i,
    {
        let item = &items[i];
        let ghost d = json_data(*item);
        proof {
            assert(idata.take(i + 1).drop_last() =~= idata.take(i as int));
            assert(idata.take(i + 1).last() == d);
        }
        let ghost before = r@;
        match get_member(item, "request") {
            Some(req) => {
                let e = postman_endpoint_def(item, req);
                r.push(e);
                proof {
                    lemma_endpoints_append(before, postman_items(idata.take(i as int)), seq![e], seq![postman_endpoint(d, json_data(*req))]);
                    assert(before + seq![e] =~= r@);
                    assert(postman_item(d) == seq![postman_endpoint(d, json_data(*req))]);
                    assert(postman_items(idata.take(i + 1)) == postman_items(idata.take(i as int)) + postman_item(d));
                }
            },
            None => {
                proof {
                    match d {
                        JsonData::Object(fs) => lemma_folder_items(fs),
                        _ => {},
                    }
                }
                match array_member(item, "item") {
                    Some(sub) => {
                        assert(decreases_to!(*items => items@));
                        assert(decreases_to!(items@ => items@[i as int]));
                        let mut more = postman_item_defs(sub);
                        let ghost added = more@;
                        r.append(&mut more);
                        proof {
                            lemma_endpoints_append(before, postman_items(idata.take(i as int)), added, postman_items(items_data(sub@)));
                            assert(postman_item(d) == postman_items(items_data(sub@)));
                            assert(postman_items(idata.take(i + 1)) == postman_items(idata.take(i as int)) + postman_item(d));
                        }
                    },
                    None => {
                        assert(postman_item(d) =~= Seq::<EndpointView>::empty());
                        assert(postman_items(idata.take(i as int)) + postman_item(d) =~= postman_items(idata.take(i as int)));
                    },
                }
            },
        }
        i = i + 1;
    }
    assert(idata.take(items@.len() as int) =~= idata);
    r
}

/// Adds the endpoints of Postman items to `endpoints`.
pub fn collect_postman_items(items: &Vec<JsonValue>, endpoints: &mut Vec<EndpointDefinition>)
    ensures
        final(endpoints)@.len() == old(endpoints)@.len() + postman_items(items_data(items@)).len(),
        final(endpoints)@.take(old(endpoints)@.len() as int) == old(endpoints)@,
        endpoints_are(final(endpoints)@.skip(old(endpoints)@.len() as int), postman_items(items_data(items@))),
{
    let mut found = postman_item_defs(items);
    let ghost added = found@;
    endpoints.append(&mut found);
    assert(endpoints@.take(old(endpoints)@.len() as int) =~= old(endpoints)@);
    assert(endpoints@.skip(old(endpoints)@.len() as int) =~= added);
}

/// The name of a Postman collection: `info.name`, else "Postman Service".
pub open spec fn postman_name(v: JsonData) -> Seq<char> {
    match member(v, "info"@) {
        Some(info) => match str_of(member(info, "name"@)) {
            Some(n) => n,
            None => "Postman Service"@,
        },
        None => "Postman Service"@,
    }
}

/// The endpoints of a Postman collection: those of its `item` list.
pub open spec fn postman_collection_endpoints(v: JsonData) -> Seq<EndpointView> {
    match array_of(member(v, "item"@)) {
        Some(items) => postman_items(items),
        None => Seq::empty(),
    }
}

fn service_of(name: String, endpoints: Vec<EndpointDefinition>) -> (s: ServiceDefinition)
    ensures
        s.name == name,
        s.endpoints == endpoints,
        forall|vs: Seq<EndpointView>| endpoints_are(endpoints@, vs) ==> imported_service(s, name@, vs),
{
    ServiceDefinition {
        name,
        version: None,
        description: None,
        server: root_server(),
        models: None,
        fixtures: None,
        bucket: None,
        endpoints,
        graphql: None,
        behavior: None,
    }
}

/// Converts a Postman collection.
pub fn convert_postman(v: &JsonValue) -> (s: ServiceDefinition)
    ensures
        imported_service(s, postman_name(json_data(*v)), postman_collection_endpoints(json_data(*v))),
{
    let name = match get_member(v, "info") {
        Some(info) => match str_member(info, "name") {
            Some(n) => n.clone(),
            None => String::from_str("Postman Service"),
        },
        None => String::from_str("Postman Service"),
    };
    let mut endpoints: Vec<EndpointDefinition> = Vec::new();
    match array_member(v, "item") {
        Some(items) => {
            collect_postman_items(items, &mut endpoints);
            assert(endpoints@.skip(0) =~= endpoints@);
        },
        None => {
            assert(endpoints_are(endpoints@, Seq::<EndpointView>::empty()));
        },
    }
    service_of(name, endpoints)
}

/// Whether a resource of an Insomnia export has the given `_type`.
pub open spec fn resource_type_is(res: JsonData, t: Seq<char>) -> bool {
    str_of(member(res, "_type"@)) == Some(t)
}

/// The name of the first workspace resource that has one.
pub open spec fn first_workspace_name(rs: Seq<JsonData>) -> Option<Seq<char>>
    decreases rs.len(),
{
    if rs.len() == 0 {
        None
    } else {
        match first_workspace_name(rs.drop_last()) {
            Some(n) => Some(n),
            None => if resource_type_is(rs.last(), "workspace"@) { str_of(member(rs.last(), "name"@)) } else { None },
        }
    }
}

/// An Insomnia request resource as an endpoint: its method in upper case
/// (`GET` when it has none), the path of its URL (`/` when it has none), its
/// name, and an empty JSON 200 response.
pub open spec fn insomnia_endpoint(res: JsonData) -> EndpointView {
    (unicode_upper(match str_of(member(res, "method"@)) {
        Some(m) => m,
        None => "GET"@,
    }), raw_url_path(match str_of(member(res, "url"@)) {
        Some(u) => u,
        None => "/"@,
    }), str_of(member(res, "name"@)), seq![default_response()])
}

/// The endpoints of Insomnia resources: one per request resource, in order.
pub open spec fn insomnia_endpoints(rs: Seq<JsonData>) -> Seq<EndpointView>
    decreases rs.len(),
{
    if rs.len() == 0 {
        Seq::empty()
    } else {
        insomnia_endpoints(rs.drop_last()) + if resource_type_is(rs.last(), "request"@) {
            seq![insomnia_endpoint(rs.last())]
        } else {
            Seq::empty()
        }
    }
}

/// The name of an Insomnia export: that of its first named workspace, else
/// "Insomnia Service".
pub open spec fn insomnia_name(v: JsonData) -> Seq<char> {
    match array_of(member(v, "resources"@)) {
        Some(rs) => match first_workspace_name(rs) {
            Some(n) => n,
            None => "Insomnia Service"@,
        },
        None => "Insomnia Service"@,
    }
}

/// The endpoints of an Insomnia export.
pub open spec fn insomnia_export_endpoints(v: JsonData) -> Seq<EndpointView> {
    match array_of(member(v, "resources"@)) {
        Some(rs) => insomnia_endpoints(rs),
        None => Seq::empty(),
    }
}

fn type_is(res: &JsonValue, t: &str) -> (b: bool)
    ensures
        b == resource_type_is(json_data(*res), t@),
{
    match str_member(res, "_type") {
        Some(x) => str_eq(x.as_str(), t),
        None => false,
    }
}

fn insomnia_endpoint_def(res: &JsonValue) -> (e: EndpointDefinition)
    ensures
        endpoint_is(e, insomnia_endpoint(json_data(*res))),
{
    let method_raw = match str_member(res, "method") {
        Some(m) => m.clone(),
        None => String::from_str("GET"),
    };
    let method = to_uppercase(method_raw.as_str());
    let url_raw = match str_member(res, "url") {
        Some(u) => u.clone(),
        None => String::from_str("/"),
    };
    let path = raw_path(url_raw.as_str());
    let description = match str_member(res, "name") {
        Some(n) => Some(n.clone()),
        None => None,
    };
    let mut responses: Vec<(u16, ResponseDefinition)> = Vec::new();
    responses.push(default_response_def());
    assert(responses_are(responses@, seq![default_response()]));
    EndpointDefinition {
        kind: EndpointKind::Http,
        method,
        path,
        header_match: None,
        description,
        parameters: None,
        request_body: None,
        responses,
        scenarios: None,
        stream: None,
    }
}

/// Converts an Insomnia export.
pub fn convert_insomnia(v: &JsonValue) -> (s: ServiceDefinition)
    ensures
        imported_service(s, insomnia_name(json_data(*v)), insomnia_export_endpoints(json_data(*v))),
{
    let mut name = String::from_str("Insomnia Service");
    let mut endpoints: Vec<EndpointDefinition> = Vec::new();
    match array_member(v, "resources") {
        Some(resources) => {
            let ghost rd = items_data(resources@);
            proof {
                lemma_items_data_ext(resources@);
                assert(rd.take(0) =~= Seq::<JsonData>::empty());
            }
            let mut found: Option<String> = None;
            let mut i: usize = 0;
            while i < resources.len()
                invariant
                    i <= resources@.len(),
                    rd == items_data(resources@),
                    rd.len() == resources@.len(),
                    forall|j: int| 0 <= j < resources@.len() ==> #[trigger] rd[j] == json_data(resources@[j]),
                    opt_str_view(found) == first_workspace_name(rd.take(i as int)),
                    endpoints_are(endpoints@, insomnia_endpoints(rd.take(i as int))),
                decreases resources@.len() - i,
            {
                let res = &resources[i];
                proof {
                    assert(rd.take(i + 1).drop_last() =~= rd.take(i as int));
                    assert(rd.take(i + 1).last() == json_data(*res));
                }
                if found.is_none() && type_is(res, "workspace") {
                    found = match str_member(res, "name") {
                        Some(n) => Some(n.clone()),
                        None => None,
                    };
                }
                let ghost before = endpoints@;
                if type_is(res, "request") {
                    let e = insomnia_endpoint_def(res);
                    endpoints.push(e);
                    proof {
                        lemma_endpoints_append(before, insomnia_endpoints(rd.take(i as int)), seq![e],
                            seq![insomnia_endpoint(json_data(*res))]);
                        assert(before + seq![e] =~= endpoints@);
                    }
                } else {
                    assert(insomnia_endpoints(rd.take(i + 1)) =~= insomnia_endpoints(rd.take(i as int)));
                }
                i = i + 1;
            }
            assert(rd.take(resources@.len() as int) =~= rd);
            match found {
                Some(n) => {
                    name = n;
                },
                None => {},
            }
        },
        None => {},
    }
    service_of(name, endpoints)
}

/// What reading a collection gives: a Postman collection when it has an
/// `item` member, else an Insomnia export when it has a `resources` member,
/// else the error for an unsupported format.
pub open spec fn collection_read(v: JsonData, r: Result<ServiceDefinition, String>) -> bool {
    if member(v, "item"@) is Some {
        r matches Ok(s) && imported_service(s, postman_name(v), postman_collection_endpoints(v))
    } else if member(v, "resources"@) is Some {
        r matches Ok(s) && imported_service(s, insomnia_name(v), insomnia_export_endpoints(v))
    } else {
        r matches Err(e) && e@ == "Unsupported collection format: Not a valid Postman or Insomnia export."@
    }
}

/// Reads a Postman or Insomnia collection.
pub fn from_json(v: &JsonValue) -> (r: Result<ServiceDefinition, String>)
    ensures
        collection_read(json_data(*v), r),
{
    if get_member(v, "item").is_some() {
        Ok(convert_postman(v))
    } else if get_member(v, "resources").is_some() {
        Ok(convert_insomnia(v))
    } else {
        Err(String::from_str("Unsupported collection format: Not a valid Postman or Insomnia export."))
    }
}

/// Reads a Postman or Insomnia collection from its JSON text; text that is
/// not JSON gives the parser's message.
pub fn from_str(json_str: &str) -> (r: Result<ServiceDefinition, String>)
    ensures
        match crate::json::json_parsed(json_str@) {
            Ok(d) => collection_read(d, r),
            Err(m) => r matches Err(e) && e@ == m,
        },
{
    match crate::json::parse_json(json_str) {
        Ok(v) => from_json(&v),
        Err(m) => Err(m),
    }
}

} // verus!
