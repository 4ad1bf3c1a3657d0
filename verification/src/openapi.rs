//! Import of OpenAPI 3 documents into service definitions, with example
//! bodies made from the response schemas.

use vstd::prelude::*;
use crate::config::{
    EndpointDefinition, EndpointKind, ParameterDefinition, ParameterLocation, RequestBodyDefinition,
    ResponseDefinition, ServerConfig, ServiceDefinition,
};
use crate::json::{
    array_member, array_of, data_field, fields_data, get_member, lemma_field_of_data, object_get, str_member, insert_sorted_field, items_data, json_clone, json_data,
    json_quote, json_string_literal, lemma_fields_data_ext, lemma_items_data_ext, member, push_field,
    push_item, sorted_insert, str_of, JsonData, JsonValue,
};
use crate::text::{
    chars_of, concat2, find_first, find_str, has_prefix, split_on, starts_with, str_eq, string_of_range, string_views,
};
use crate::urls::{parse_url_path, url_path_of};
use crate::postman::{opt_str_view, responses_are, upsert_response, upsert_response_def, ResponseView, response_is, status_index};
use crate::json::{pretty, write_pretty};
use crate::text::{parse_unsigned, parsed_unsigned};

verus! {

/// The parts of an OpenAPI 3 document the simulator reads. Maps are kept as
/// lists of entries in key order.
#[derive(Debug)]
pub struct OpenApi3Document {
    pub info: OpenApi3Info,
    pub servers: Vec<OpenApi3Server>,
    pub paths: Vec<(String, OpenApi3PathItem)>,
    pub components: Option<OpenApi3Components>,
}

/// The document's title and version.
#[derive(Debug)]
pub struct OpenApi3Info {
    pub title: String,
    pub version: String,
}

/// A server entry.
#[derive(Debug)]
pub struct OpenApi3Server {
    pub url: String,
}

/// The operations of a path.
#[derive(Debug)]
pub struct OpenApi3PathItem {
    pub get: Option<OpenApi3Operation>,
    pub post: Option<OpenApi3Operation>,
    pub put: Option<OpenApi3Operation>,
    pub patch: Option<OpenApi3Operation>,
    pub delete: Option<OpenApi3Operation>,
}

/// An operation on a path.
#[derive(Debug)]
pub struct OpenApi3Operation {
    pub summary: Option<String>,
    pub description: Option<String>,
    pub parameters: Vec<OpenApi3Parameter>,
    pub request_body: Option<OpenApi3RequestBody>,
    pub responses: Vec<(String, OpenApi3Response)>,
}

/// A parameter of an operation.
#[derive(Debug)]
pub struct OpenApi3Parameter {
    pub name: String,
    /// Where the parameter goes (`in`).
    pub location: String,
    pub required: bool,
    pub description: Option<String>,
    pub schema: Option<JsonValue>,
    pub content: Option<Vec<(String, OpenApi3MediaType)>>,
}

/// The body an operation accepts.
#[derive(Debug)]
pub struct OpenApi3RequestBody {
    pub required: bool,
    pub content: Vec<(String, OpenApi3MediaType)>,
}

/// A response of an operation.
#[derive(Debug)]
pub struct OpenApi3Response {
    pub description: Option<String>,
    pub content: Vec<(String, OpenApi3MediaType)>,
}

/// A media type of a body.
#[derive(Debug)]
pub struct OpenApi3MediaType {
    pub schema: Option<JsonValue>,
    pub example: Option<JsonValue>,
    pub examples: Vec<(String, OpenApi3Example)>,
}

/// A named example.
#[derive(Debug)]
pub struct OpenApi3Example {
    pub value: Option<JsonValue>,
}

/// Reusable components.
#[derive(Debug)]
pub struct OpenApi3Components {
    pub schemas: Vec<(String, JsonValue)>,
}

/// A path, or `/` for an empty one.
pub open spec fn or_root(p: Seq<char>) -> Seq<char> {
    if p.len() == 0 { "/"@ } else { p }
}

/// The base path of a server URL: the path of the URL when it parses; else
/// what follows the host after `//`; else the text itself when it starts
/// with `/`; else what follows its first `/`; `/` when there is nothing.
pub open spec fn base_path_of(url: Seq<char>) -> Seq<char> {
    if url.len() == 0 {
        "/"@
    } else {
        match url_path_of(url) {
            Some(p) => or_root(p),
            None => match find_first(url, "//"@) {
                Some(idx) => {
                    let rest = url.skip(idx + 2);
                    match find_first(rest, "/"@) {
                        Some(pos) => or_root(rest.skip(pos)),
                        None => "/"@,
                    }
                },
                None => if has_prefix(url, "/"@) {
                    url
                } else {
                    match find_first(url, "/"@) {
                        Some(pos) => or_root(url.skip(pos)),
                        None => "/"@,
                    }
                },
            },
        }
    }
}

fn suffix_from(s: &str, i: usize) -> (r: String)
    requires
        i <= s@.len(),
    ensures
        r@ == s@.skip(i as int),
{
    let v = chars_of(s);
    string_of_range(&v, i, v.len())
}

fn root_or(p: String) -> (r: String)
    ensures
        r@ == or_root(p@),
{
    if p.unicode_len() == 0 { String::from_str("/") } else { p }
}

/// The base path of a server URL.
pub fn extract_base_path(url: &str) -> (r: String)
    ensures
        r@ == base_path_of(url@),
{
    if url.unicode_len() == 0 {
        return String::from_str("/");
    }
    match parse_url_path(url) {
        Some(p) => {
            return root_or(p);
        },
        None => {},
    }
    match find_str(url, "//") {
        Some(idx) => {
            proof {
                reveal_strlit("//");
            }
            let rest = suffix_from(url, idx + 2);
            match find_str(rest.as_str(), "/") {
                Some(pos) => root_or(suffix_from(rest.as_str(), pos)),
                None => String::from_str("/"),
            }
        },
        None => {
            if starts_with(url, "/") {
                String::from_str(url)
            } else {
                match find_str(url, "/") {
                    Some(pos) => root_or(suffix_from(url, pos)),
                    None => String::from_str("/"),
                }
            }
        },
    }
}

/// The type a schema gives a parameter: its `type`, `object` for a
/// reference, else `string`.
pub open spec fn schema_type_of(schema: Option<JsonData>) -> Seq<char> {
    match schema {
        Some(d) => match str_of(member(d, "type"@)) {
            Some(t) => t,
            None => if member(d, "$ref"@) is Some { "object"@ } else { "string"@ },
        },
        None => "string"@,
    }
}

/// The view of an optional JSON value.
pub open spec fn opt_data(o: Option<JsonValue>) -> Option<JsonData> {
    match o {
        Some(v) => Some(json_data(v)),
        None => None,
    }
}

/// The type a schema gives a parameter.
pub fn infer_schema_type(schema: Option<&JsonValue>) -> (r: String)
    ensures
        r@ == schema_type_of(match schema {
            Some(v) => Some(json_data(*v)),
            None => None,
        }),
{
    match schema {
        Some(s) => match get_member(s, "type") {
            Some(t) => match t {
                JsonValue::Str(x) => x.clone(),
                _ => if get_member(s, "$ref").is_some() {
                    String::from_str("object")
                } else {
                    String::from_str("string")
                },
            },
            None => if get_member(s, "$ref").is_some() {
                String::from_str("object")
            } else {
                String::from_str("string")
            },
        },
        None => String::from_str("string"),
    }
}

/// The keys of media type entries.
pub open spec fn media_keys(content: Seq<(String, OpenApi3MediaType)>) -> Seq<Seq<char>> {
    content.map_values(|e: (String, OpenApi3MediaType)| e.0@)
}

/// The media type chosen among entries: `application/json` when present,
/// else the first entry.
pub open spec fn media_choice(keys: Seq<Seq<char>>) -> Option<int> {
    if keys.contains("application/json"@) {
        Some(choose|i: int| 0 <= i < keys.len() && keys[i] == "application/json"@
            && forall|j: int| 0 <= j < i ==> keys[j] != "application/json"@)
    } else if keys.len() > 0 {
        Some(0)
    } else {
        None
    }
}

/// Chooses the media type of a body: `application/json` when offered, else
/// the first one.
pub fn pick_media_type<'a>(content: &'a Vec<(String, OpenApi3MediaType)>) -> (r: Option<(&'a str, &'a OpenApi3MediaType)>)
    ensures
        match r {
            Some((k, m)) => media_choice(media_keys(content@)) matches Some(i) && 0 <= i < content@.len()
                && k@ == content@[i].0@ && *m == content@[i].1,
            None => media_choice(media_keys(content@)) is None,
        },
{
    let ghost keys = media_keys(content@);
    let mut i: usize = 0;
    while i < content.len()
        invariant
            i <= content@.len(),
            keys == media_keys(content@),
            forall|j: int| 0 <= j < i ==> keys[j] != "application/json"@,
        decreases content@.len() - i,
    {
        if str_eq(content[i].0.as_str(), "application/json") {
            proof {
                assert(keys[i as int] == "application/json"@);
                let c = choose|c: int| 0 <= c < keys.len() && keys[c] == "application/json"@
                    && forall|j: int| 0 <= j < c ==> keys[j] != "application/json"@;
                assert(0 <= c < keys.len() && keys[c] == "application/json"@);
                if c < i {
                    assert(keys[c] != "application/json"@);
                } else if c > i {
                    assert(keys[i as int] != "application/json"@);
                }
            }
            return Some((content[i].0.as_str(), &content[i].1));
        }
        i = i + 1;
    }
    proof {
        if keys.contains("application/json"@) {
            let j = choose|j: int| 0 <= j < keys.len() && keys[j] == "application/json"@;
            assert(keys[j] != "application/json"@);
        }
    }
    if content.len() > 0 {
        Some((content[0].0.as_str(), &content[0].1))
    } else {
        None
    }
}

/// The names of component schemas.
pub open spec fn component_names(comps: Seq<(Seq<char>, JsonData)>) -> Set<Seq<char>> {
    comps.map_values(|c: (Seq<char>, JsonData)| c.0).to_set()
}

/// How many component schemas are not being expanded already.
pub open spec fn unvisited(comps: Seq<(Seq<char>, JsonData)>, visited: Set<Seq<char>>) -> nat {
    component_names(comps).difference(visited).len()
}

/// The name a reference points to: what follows its last `/`.
pub open spec fn ref_name(r: Seq<char>) -> Seq<char> {
    crate::text::split_scan(r, '/').1
}

/// The first value of an optional list.
pub open spec fn first_of(a: Option<Seq<JsonData>>) -> Option<JsonData> {
    match a {
        Some(xs) => if xs.len() > 0 { Some(xs[0]) } else { None },
        None => None,
    }
}

/// The sample string for a string format.
pub open spec fn string_sample(format: Option<Seq<char>>) -> Seq<char> {
    match format {
        Some(f) => if f == "date-time"@ {
            "1970-01-01T00:00:00Z"@
        } else if f == "date"@ {
            "1970-01-01"@
        } else if f == "uuid"@ {
            "00000000-0000-0000-0000-000000000000"@
        } else if f == "email"@ {
            "user@example.com"@
        } else {
            "string"@
        },
        None => "string"@,
    }
}

/// Expanding a component not yet being expanded leaves fewer to expand.
pub proof fn lemma_unvisited_shrinks(comps: Seq<(Seq<char>, JsonData)>, visited: Set<Seq<char>>, name: Seq<char>)
    requires
        data_field(comps, name) is Some,
        !visited.contains(name),
    ensures
        unvisited(comps, visited.insert(name)) < unvisited(comps, visited),
{
    broadcast use vstd::set::group_set_axioms, vstd::seq_lib::seq_to_set_is_finite;
    let names = component_names(comps);
    lemma_data_field_in_names(comps, name);
    assert(names.difference(visited.insert(name)) =~= names.difference(visited).remove(name));
    assert(names.difference(visited).contains(name));
}

pub proof fn lemma_data_field_in_names(comps: Seq<(Seq<char>, JsonData)>, name: Seq<char>)
    requires
        data_field(comps, name) is Some,
    ensures
        component_names(comps).contains(name),
    decreases comps.len(),
{
    let ks = comps.map_values(|c: (Seq<char>, JsonData)| c.0);
    if comps[0].0 == name {
        assert(ks[0] == name);
    } else {
        lemma_data_field_in_names(comps.drop_first(), name);
        let ks1 = comps.drop_first().map_values(|c: (Seq<char>, JsonData)| c.0);
        let j = choose|j: int| 0 <= j < ks1.len() && ks1[j] == name;
        assert(ks[j + 1] == name);
    }
}

/// The example a schema gives: its `example`, else its `default`, else the
/// example of the component it refers to (an empty object for a component
/// already being expanded or missing), else one made from its shape.
pub open spec fn example_for(schema: JsonData, comps: Seq<(Seq<char>, JsonData)>, visited: Set<Seq<char>>) -> JsonData
    decreases unvisited(comps, visited), schema, 1nat,
{
    match member(schema, "example"@) {
        Some(e) => e,
        None => match member(schema, "default"@) {
            Some(d) => d,
            None => match str_of(member(schema, "$ref"@)) {
                Some(r) => {
                    let name = ref_name(r);
                    if visited.contains(name) {
                        JsonData::Object(Seq::empty())
                    } else {
                        match data_field(comps, name) {
                            Some(target) => {
                                proof {
                                    lemma_unvisited_shrinks(comps, visited, name);
                                }
                                example_for(target, comps, visited.insert(name))
                            },
                            None => JsonData::Object(Seq::empty()),
                        }
                    }
                },
                None => example_by_shape(schema, comps, visited),
            },
        },
    }
}

/// The example made from a schema's shape: the members of its `allOf`
/// examples merged; the example of the first `oneOf`, else `anyOf`, choice;
/// by `type`, an object of its properties' examples, a one-item list, the
/// first `enum` value or `0`, `0.0`, `true`, or a sample string; else an
/// object of its properties' examples; else null.
pub open spec fn example_by_shape(schema: JsonData, comps: Seq<(Seq<char>, JsonData)>, visited: Set<Seq<char>>) -> JsonData
    decreases unvisited(comps, visited), schema, 0nat,
{
    proof {
        crate::json::lemma_member_inside(schema, "allOf"@);
        crate::json::lemma_member_inside(schema, "oneOf"@);
        crate::json::lemma_member_inside(schema, "anyOf"@);
        crate::json::lemma_member_inside(schema, "properties"@);
        crate::json::lemma_member_inside(schema, "items"@);
    }
    match array_of(member(schema, "allOf"@)) {
        Some(subs) => JsonData::Object(all_of_merged(subs, comps, visited)),
        None => match first_of(array_of(member(schema, "oneOf"@))) {
            Some(first) => example_for(first, comps, visited),
            None => match first_of(array_of(member(schema, "anyOf"@))) {
                Some(first) => example_for(first, comps, visited),
                None => match str_of(member(schema, "type"@)) {
                    Some(t) => if t == "object"@ {
                        JsonData::Object(match member(schema, "properties"@) {
                            Some(JsonData::Object(ps)) => properties_example(ps, comps, visited),
                            _ => Seq::empty(),
                        })
                    } else if t == "array"@ {
                        match member(schema, "items"@) {
                            Some(it) => JsonData::Array(seq![example_for(it, comps, visited)]),
                            None => JsonData::Array(Seq::empty()),
                        }
                    } else if t == "integer"@ {
                        match first_of(array_of(member(schema, "enum"@))) {
                            Some(f) => f,
                            None => JsonData::Number("0"@),
                        }
                    } else if t == "number"@ {
                        match first_of(array_of(member(schema, "enum"@))) {
                            Some(f) => f,
                            None => JsonData::Number("0.0"@),
                        }
                    } else if t == "boolean"@ {
                        JsonData::Bool(true)
                    } else if t == "string"@ {
                        match first_of(array_of(member(schema, "enum"@))) {
                            Some(f) => f,
                            None => JsonData::Str(string_sample(str_of(member(schema, "format"@)))),
                        }
                    } else {
                        match member(schema, "properties"@) {
                            Some(JsonData::Object(ps)) => JsonData::Object(properties_example(ps, comps, visited)),
                            _ => JsonData::Null,
                        }
                    },
                    None => match member(schema, "properties"@) {
                        Some(JsonData::Object(ps)) => JsonData::Object(properties_example(ps, comps, visited)),
                        _ => JsonData::Null,
                    },
                },
            },
        },
    }
}

/// Members set one after another into an object kept in key order.
pub open spec fn insert_all(m: Seq<(Seq<char>, JsonData)>, obj: Seq<(Seq<char>, JsonData)>) -> Seq<(Seq<char>, JsonData)>
    decreases obj.len(),
{
    if obj.len() == 0 {
        m
    } else {
        sorted_insert(insert_all(m, obj.drop_last()), obj.last().0, obj.last().1)
    }
}

/// The members of the examples of `allOf` schemas that are objects, merged
/// in order.
pub open spec fn all_of_merged(subs: Seq<JsonData>, comps: Seq<(Seq<char>, JsonData)>, visited: Set<Seq<char>>)
    -> Seq<(Seq<char>, JsonData)>
    decreases unvisited(comps, visited), subs, 0nat,
{
    if subs.len() == 0 {
        Seq::empty()
    } else {
        proof {
            assert(subs.drop_last() == subs.subrange(0, subs.len() - 1));
            assert(decreases_to!(subs => subs.subrange(0, subs.len() - 1)));
            assert(decreases_to!(subs => subs[subs.len() - 1]));
        }
        let m = all_of_merged(subs.drop_last(), comps, visited);
        match example_for(subs.last(), comps, visited) {
            JsonData::Object(obj) => insert_all(m, obj),
            _ => m,
        }
    }
}

/// The examples of properties, by name, in key order.
pub open spec fn properties_example(props: Seq<(Seq<char>, JsonData)>, comps: Seq<(Seq<char>, JsonData)>, visited: Set<Seq<char>>)
    -> Seq<(Seq<char>, JsonData)>
    decreases unvisited(comps, visited), props, 0nat,
{
    if props.len() == 0 {
        Seq::empty()
    } else {
        proof {
            assert(props.drop_last() == props.subrange(0, props.len() - 1));
            assert(decreases_to!(props => props.subrange(0, props.len() - 1)));
            assert(decreases_to!(props => props[props.len() - 1]));
            assert(decreases_to!(props[props.len() - 1] => props[props.len() - 1].1));
        }
        sorted_insert(properties_example(props.drop_last(), comps, visited), props.last().0,
            example_for(props.last().1, comps, visited))
    }
}

/// The names being expanded, as a set.
pub open spec fn visited_set(v: Seq<String>) -> Set<Seq<char>> {
    string_views(v).to_set()
}

proof fn lemma_visited_push(v: Seq<String>, x: String)
    ensures
        visited_set(v.push(x)) == visited_set(v).insert(x@),
{
    let a = string_views(v.push(x));
    let b = string_views(v);
    assert(a =~= b.push(x@));
    assert forall|s: Seq<char>| #[trigger] a.to_set().contains(s) == b.to_set().insert(x@).contains(s) by {
        if a.contains(s) {
            let i = choose|i: int| 0 <= i < a.len() && a[i] == s;
            if i < b.len() {
                assert(b[i] == s);
            }
        }
        if b.contains(s) {
            let i = choose|i: int| 0 <= i < b.len() && b[i] == s;
            assert(a[i] == s);
        }
        if s == x@ {
            assert(a[b.len() as int] == s);
        }
    }
    assert(a.to_set() =~= b.to_set().insert(x@));
}

fn contains_name(visited: &Vec<String>, name: &str) -> (b: bool)
    ensures
        b == visited_set(visited@).contains(name@),
{
    let ghost sv = string_views(visited@);
    let mut i: usize = 0;
    while i < visited.len()
        invariant
            i <= visited@.len(),
            sv == string_views(visited@),
            forall|j: int| 0 <= j < i ==> sv[j] != name@,
        decreases visited@.len() - i,
    {
        if str_eq(visited[i].as_str(), name) {
            assert(sv[i as int] == name@);
            assert(sv.contains(name@));
            return true;
        }
        i = i + 1;
    }
    proof {
        if sv.contains(name@) {
            let j = choose|j: int| 0 <= j < sv.len() && sv[j] == name@;
            assert(sv[j] != name@);
        }
    }
    false
}

fn first_item<'a>(a: Option<&'a Vec<JsonValue>>) -> (r: Option<&'a JsonValue>)
    ensures
        match r {
            Some(x) => a matches Some(xs) && xs@.len() > 0 && *x == xs@[0],
            None => a matches Some(xs) ==> xs@.len() == 0,
        },
{
    match a {
        Some(xs) => if xs.len() > 0 { Some(&xs[0]) } else { None },
        None => None,
    }
}

/// An example value for a schema, expanding references to the component
/// schemas; `visited` holds the components being expanded, and is as it was
/// when the call returns.
pub fn generate_example_from_schema_v3(schema: &JsonValue, component_schemas: &Vec<(String, JsonValue)>,
    visited: &mut Vec<String>) -> (r: JsonValue)
    ensures
        json_data(r) == example_for(json_data(*schema), fields_data(component_schemas@), visited_set(old(visited)@)),
        final(visited)@ == old(visited)@,
    decreases unvisited(fields_data(component_schemas@), visited_set(old(visited)@)), schema, 2nat,
{
    let ghost comps = fields_data(component_schemas@);
    match get_member(schema, "example") {
        Some(e) => {
            return json_clone(e);
        },
        None => {},
    }
    match get_member(schema, "default") {
        Some(d) => {
            return json_clone(d);
        },
        None => {},
    }
    match str_member(schema, "$ref") {
        Some(r) => {
            let parts = split_on(r.as_str(), '/');
            assert(string_views(parts@).len() == parts@.len());
            assert(string_views(parts@).last() == parts@[parts@.len() - 1]@);
            let name = parts[parts.len() - 1].clone();
            assert(name@ == ref_name(r@));
            if contains_name(visited, name.as_str()) {
                let v = JsonValue::Object(Vec::new());
                assert(fields_data(Seq::<(String, JsonValue)>::empty()) =~= Seq::<(Seq<char>, JsonData)>::empty());
                return v;
            }
            proof {
                lemma_field_of_data(component_schemas@, name@);
            }
            match object_get(component_schemas, name.as_str()) {
                Some(target) => {
                    proof {
                        lemma_unvisited_shrinks(comps, visited_set(visited@), name@);
                        lemma_visited_push(visited@, name);
                    }
                    let ghost before = visited@;
                    visited.push(name);
                    let value = generate_example_from_schema_v3(target, component_schemas, visited);
                    visited.pop();
                    assert(visited@ =~= before);
                    return value;
                },
                None => {
                    let v = JsonValue::Object(Vec::new());
                    assert(fields_data(Seq::<(String, JsonValue)>::empty()) =~= Seq::<(Seq<char>, JsonData)>::empty());
                    return v;
                },
            }
        },
        None => {},
    }
    example_by_shape_value(schema, component_schemas, visited)
}

fn empty_object() -> (v: JsonValue)
    ensures
        json_data(v) == JsonData::Object(Seq::empty()),
{
    let v = JsonValue::Object(Vec::new());
    assert(fields_data(Seq::<(String, JsonValue)>::empty()) =~= Seq::<(Seq<char>, JsonData)>::empty());
    v
}

fn first_or(a: Option<&Vec<JsonValue>>, fallback: JsonValue) -> (r: JsonValue)
    ensures
        json_data(r) == match first_of(match a {
            Some(xs) => Some(items_data(xs@)),
            None => None,
        }) {
            Some(f) => f,
            None => json_data(fallback),
        },
{
    match a {
        Some(xs) => {
            proof {
                lemma_items_data_ext(xs@);
            }
            if xs.len() > 0 { json_clone(&xs[0]) } else { fallback }
        },
        None => fallback,
    }
}

fn example_by_shape_value(schema: &JsonValue, component_schemas: &Vec<(String, JsonValue)>,
    visited: &mut Vec<String>) -> (r: JsonValue)
    ensures
        json_data(r) == example_by_shape(json_data(*schema), fields_data(component_schemas@), visited_set(old(visited)@)),
        final(visited)@ == old(visited)@,
    decreases unvisited(fields_data(component_schemas@), visited_set(old(visited)@)), schema, 1nat,
{
    match array_member(schema, "allOf") {
        Some(subs) => {
            let fields = merge_all_of(subs, component_schemas, visited);
            return JsonValue::Object(fields);
        },
        None => {},
    }
    let one_of = array_member(schema, "oneOf");
    match first_item(one_of) {
        Some(first) => {
            proof {
                let xs = one_of->0;
                lemma_items_data_ext(xs@);
                assert(decreases_to!(*xs => xs@));
                assert(decreases_to!(xs@ => xs@[0]));
            }
            return generate_example_from_schema_v3(first, component_schemas, visited);
        },
        None => {
            proof {
                if one_of is Some {
                    lemma_items_data_ext(one_of->0@);
                }
            }
        },
    }
    let any_of = array_member(schema, "anyOf");
    match first_item(any_of) {
        Some(first) => {
            proof {
                let xs = any_of->0;
                lemma_items_data_ext(xs@);
                assert(decreases_to!(*xs => xs@));
                assert(decreases_to!(xs@ => xs@[0]));
            }
            return generate_example_from_schema_v3(first, component_schemas, visited);
        },
        None => {
            proof {
                if any_of is Some {
                    lemma_items_data_ext(any_of->0@);
                }
            }
        },
    }
    match str_member(schema, "type") {
        Some(t) => {
            if str_eq(t.as_str(), "object") {
                match get_member(schema, "properties") {
                    Some(p) => match p {
                        JsonValue::Object(ps) => {
                            assert(decreases_to!(*p => *ps));
                            let fields = properties_value(ps, component_schemas, visited);
                            JsonValue::Object(fields)
                        },
                        _ => empty_object(),
                    },
                    None => empty_object(),
                }
            } else if str_eq(t.as_str(), "array") {
                match get_member(schema, "items") {
                    Some(it) => {
                        let v = generate_example_from_schema_v3(it, component_schemas, visited);
                        let mut items: Vec<JsonValue> = Vec::new();
                        push_item(&mut items, v);
                        assert(items_data(Seq::<JsonValue>::empty()) =~= Seq::<JsonData>::empty());
                        assert(items_data(items@) =~= seq![json_data(v)]);
                        JsonValue::Array(items)
                    },
                    None => {
                        let v = JsonValue::Array(Vec::new());
                        assert(items_data(Seq::<JsonValue>::empty()) =~= Seq::<JsonData>::empty());
                        v
                    },
                }
            } else if str_eq(t.as_str(), "integer") {
                first_or(array_member(schema, "enum"), JsonValue::Number(String::from_str("0")))
            } else if str_eq(t.as_str(), "number") {
                first_or(array_member(schema, "enum"), JsonValue::Number(String::from_str("0.0")))
            } else if str_eq(t.as_str(), "boolean") {
                JsonValue::Bool(true)
            } else if str_eq(t.as_str(), "string") {
                let sample = match str_member(schema, "format") {
                    Some(f) => if str_eq(f.as_str(), "date-time") {
                        "1970-01-01T00:00:00Z"
                    } else if str_eq(f.as_str(), "date") {
                        "1970-01-01"
                    } else if str_eq(f.as_str(), "uuid") {
                        "00000000-0000-0000-0000-000000000000"
                    } else if str_eq(f.as_str(), "email") {
                        "user@example.com"
                    } else {
                        "string"
                    },
                    None => "string",
                };
                first_or(array_member(schema, "enum"), JsonValue::Str(String::from_str(sample)))
            } else {
                properties_or_null(schema, component_schemas, visited)
            }
        },
        None => properties_or_null(schema, component_schemas, visited),
    }
}

fn properties_or_null(schema: &JsonValue, component_schemas: &Vec<(String, JsonValue)>, visited: &mut Vec<String>) -> (r: JsonValue)
    ensures
        json_data(r) == match member(json_data(*schema), "properties"@) {
            Some(JsonData::Object(ps)) => JsonData::Object(properties_example(ps, fields_data(component_schemas@), visited_set(old(visited)@))),
            _ => JsonData::Null,
        },
        final(visited)@ == old(visited)@,
    decreases unvisited(fields_data(component_schemas@), visited_set(old(visited)@)), schema, 0nat,
{
    match get_member(schema, "properties") {
        Some(p) => match p {
            JsonValue::Object(ps) => {
                assert(decreases_to!(*p => *ps));
                let fields = properties_value(ps, component_schemas, visited);
                JsonValue::Object(fields)
            },
            _ => JsonValue::Null,
        },
        None => JsonValue::Null,
    }
}

fn merge_all_of(subs: &Vec<JsonValue>, component_schemas: &Vec<(String, JsonValue)>, visited: &mut Vec<String>)
    -> (r: Vec<(String, JsonValue)>)
    ensures
        fields_data(r@) == all_of_merged(items_data(subs@), fields_data(component_schemas@), visited_set(old(visited)@)),
        final(visited)@ == old(visited)@,
    decreases unvisited(fields_data(component_schemas@), visited_set(old(visited)@)), subs, 0nat,
{
    let ghost sd = items_data(subs@);
    let ghost comps = fields_data(component_schemas@);
    let ghost vs = visited_set(visited@);
    proof {
        lemma_items_data_ext(subs@);
        assert(sd.take(0) =~= Seq::<JsonData>::empty());
    }
    let mut m: Vec<(String, JsonValue)> = Vec::new();
    assert(fields_data(m@) =~= Seq::<(Seq<char>, JsonData)>::empty());
    let mut i: usize = 0;
    while i < subs.len()
        invariant
            i <= subs@.len(),
            sd == items_data(subs@),
            sd.len() == subs@.len(),
            forall|j: int| 0 <= j < subs@.len() ==> #[trigger] sd[j] == json_data(subs@[j]),
            comps == fields_data(component_schemas@),
            visited@ == old(visited)@,
            vs == visited_set(old(visited)@),
            fields_data(m@) == all_of_merged(sd.take(i as int), comps, vs),
        decreases subs@.len() - i,
    {
        proof {
            assert(sd.take(i + 1).drop_last() =~= sd.take(i as int));
            assert(sd.take(i + 1).last() == json_data(subs@[i as int]));
        }
        assert(decreases_to!(*subs => subs@));
        assert(decreases_to!(subs@ => subs@[i as int]));
        let v = generate_example_from_schema_v3(&subs[i], component_schemas, visited);
        match v {
            JsonValue::Object(obj) => {
                let ghost m0 = fields_data(m@);
                let ghost od = fields_data(obj@);
                proof {
                    lemma_fields_data_ext(obj@);
                    assert(od.take(0) =~= Seq::<(Seq<char>, JsonData)>::empty());
                }
                let mut j: usize = 0;
                while j < obj.len()
                    invariant
                        j <= obj@.len(),
                        od == fields_data(obj@),
                        od.len() == obj@.len(),
                        forall|k: int| 0 <= k < obj@.len() ==> #[trigger] od[k] == (obj@[k].0@, json_data(obj@[k].1)),
                        fields_data(m@) == insert_all(m0, od.take(j as int)),
                    decreases obj@.len() - j,
                {
                    proof {
                        assert(od.take(j + 1).drop_last() =~= od.take(j as int));
                        assert(od.take(j + 1).last() == od[j as int]);
                    }
                    insert_sorted_field(&mut m, obj[j].0.clone(), json_clone(&obj[j].1));
                    j = j + 1;
                }
                assert(od.take(obj@.len() as int) =~= od);
            },
            _ => {},
        }
        i = i + 1;
    }
    assert(sd.take(subs@.len() as int) =~= sd);
    m
}

fn properties_value(props: &Vec<(String, JsonValue)>, component_schemas: &Vec<(String, JsonValue)>, visited: &mut Vec<String>)
    -> (r: Vec<(String, JsonValue)>)
    ensures
        fields_data(r@) == properties_example(fields_data(props@), fields_data(component_schemas@), visited_set(old(visited)@)),
        final(visited)@ == old(visited)@,
    decreases unvisited(fields_data(component_schemas@), visited_set(old(visited)@)), props, 0nat,
{
    let ghost pd = fields_data(props@);
    let ghost comps = fields_data(component_schemas@);
    let ghost vs = visited_set(visited@);
    proof {
        lemma_fields_data_ext(props@);
        assert(pd.take(0) =~= Seq::<(Seq<char>, JsonData)>::empty());
    }
    let mut m: Vec<(String, JsonValue)> = Vec::new();
    assert(fields_data(m@) =~= Seq::<(Seq<char>, JsonData)>::empty());
    let mut i: usize = 0;
    while i < props.len()
        invariant
            i <= props@.len(),
            pd == fields_data(props@),
            pd.len() == props@.len(),
            forall|j: int| 0 <= j < props@.len() ==> #[trigger] pd[j] == (props@[j].0@, json_data(props@[j].1)),
            comps == fields_data(component_schemas@),
            visited@ == old(visited)@,
            vs == visited_set(old(visited)@),
            fields_data(m@) == properties_example(pd.take(i as int), comps, vs),
        decreases props@.len() - i,
    {
        proof {
            assert(pd.take(i + 1).drop_last() =~= pd.take(i as int));
            assert(pd.take(i + 1).last() == pd[i as int]);
        }
        assert(decreases_to!(*props => props@));
        assert(decreases_to!(props@ => props@[i as int]));
        assert(decreases_to!(props@[i as int] => props@[i as int].1));
        let v = generate_example_from_schema_v3(&props[i].1, component_schemas, visited);
        insert_sorted_field(&mut m, props[i].0.clone(), v);
        i = i + 1;
    }
    assert(pd.take(props@.len() as int) =~= pd);
    m
}

/// A value as the simulator writes example bodies: serde_json's pretty form
/// for lists and objects, the JSON literal for strings, and the compact form
/// of other values, which the pretty form at the outer level coincides with.
pub fn format_json_value(value: &JsonValue) -> (r: String)
    ensures
        r@ == pretty(json_data(*value), 0),
{
    let mut out = String::new();
    proof {
        reveal_strlit("");
        assert(""@ =~= crate::json::indentation(0));
    }
    write_pretty(&mut out, value, "", Ghost(0));
    out
}

/// The first named example that has a value.
pub open spec fn first_example_value(exs: Seq<(String, OpenApi3Example)>) -> Option<JsonData>
    decreases exs.len(),
{
    if exs.len() == 0 {
        None
    } else {
        match first_example_value(exs.drop_last()) {
            Some(v) => Some(v),
            None => opt_data(exs.last().1.value),
        }
    }
}

/// The example a media type gives: its `example`, else the first named
/// example with a value, else the `example` of its schema.
pub open spec fn media_example(m: OpenApi3MediaType) -> Option<JsonData> {
    match m.example {
        Some(e) => Some(json_data(e)),
        None => match first_example_value(m.examples@) {
            Some(v) => Some(v),
            None => match m.schema {
                Some(s) => member(json_data(s), "example"@),
                None => None,
            },
        },
    }
}

/// The content type and example body of a response: those of its chosen
/// media type, the example made from the schema when none is given; JSON and
/// no example when it has no content.
pub open spec fn response_example(resp: OpenApi3Response, comps: Seq<(Seq<char>, JsonData)>) -> (Seq<char>, Option<JsonData>) {
    match media_choice(media_keys(resp.content@)) {
        Some(i) => {
            let m = resp.content@[i].1;
            let ct = resp.content@[i].0@;
            match media_example(m) {
                Some(e) => (ct, Some(e)),
                None => match m.schema {
                    Some(s) => (ct, Some(example_for(json_data(s), comps, Set::empty()))),
                    None => (ct, None),
                },
            }
        },
        None => ("application/json"@, None),
    }
}

fn clone_opt(o: &Option<JsonValue>) -> (r: Option<JsonValue>)
    ensures
        opt_data(r) == opt_data(*o),
{
    match o {
        Some(v) => Some(json_clone(v)),
        None => None,
    }
}

/// The content type and example of a response.
pub fn extract_example_from_v3(response: &OpenApi3Response, component_schemas: &Vec<(String, JsonValue)>)
    -> (r: (String, Option<JsonValue>))
    ensures
        r.0@ == response_example(*response, fields_data(component_schemas@)).0,
        opt_data(r.1) == response_example(*response, fields_data(component_schemas@)).1,
{
    match pick_media_type(&response.content) {
        Some((content_type, media)) => {
            let mut example = clone_opt(&media.example);
            if example.is_none() {
                let exs = &media.examples;
                let mut i: usize = 0;
                assert(exs@.take(0) =~= Seq::<(String, OpenApi3Example)>::empty());
                while i < exs.len() && example.is_none()
                    invariant
                        i <= exs@.len(),
                        match example {
                            Some(v) => first_example_value(exs@.take(i as int)) == Some(json_data(v)),
                            None => first_example_value(exs@.take(i as int)) is None,
                        },
                    decreases exs@.len() - i,
                {
                    assert(exs@.take(i + 1).drop_last() =~= exs@.take(i as int));
                    example = clone_opt(&exs[i].1.value);
                    i = i + 1;
                }
                proof {
                    if example is Some {
                        lemma_first_example_prefix(exs@, i as int);
                    } else {
                        assert(exs@.take(exs@.len() as int) =~= exs@);
                    }
                }
                if example.is_none() {
                    example = match &media.schema {
                        Some(s) => match get_member(s, "example") {
                            Some(e) => Some(json_clone(e)),
                            None => None,
                        },
                        None => None,
                    };
                }
            }
            match example {
                Some(e) => (String::from_str(content_type), Some(e)),
                None => match &media.schema {
                    Some(schema) => {
                        let mut visited: Vec<String> = Vec::new();
                        proof {
                            assert(visited_set(visited@) =~= Set::<Seq<char>>::empty());
                        }
                        let value = generate_example_from_schema_v3(schema, component_schemas, &mut visited);
                        (String::from_str(content_type), Some(value))
                    },
                    None => (String::from_str(content_type), None),
                },
            }
        },
        None => (String::from_str("application/json"), None),
    }
}

proof fn lemma_first_example_prefix(exs: Seq<(String, OpenApi3Example)>, n: int)
    requires
        0 <= n <= exs.len(),
        first_example_value(exs.take(n)) is Some,
    ensures
        first_example_value(exs) == first_example_value(exs.take(n)),
    decreases exs.len() - n,
{
    if n < exs.len() {
        assert(exs.take(n + 1).drop_last() =~= exs.take(n));
        lemma_first_example_prefix(exs, n + 1);
    } else {
        assert(exs.take(n) =~= exs);
    }
}

/// The schema of a parameter: its own, else that of its chosen media type.
pub open spec fn parameter_schema(p: OpenApi3Parameter) -> Option<JsonData> {
    match p.schema {
        Some(s) => Some(json_data(s)),
        None => match p.content {
            Some(c) => match media_choice(media_keys(c@)) {
                Some(i) => opt_data(c@[i].1.schema),
                None => None,
            },
            None => None,
        },
    }
}

/// Where a parameter goes: path, query, or header for anything else.
pub open spec fn location_of(l: Seq<char>) -> ParameterLocation {
    if l == "path"@ {
        ParameterLocation::Path
    } else if l == "query"@ {
        ParameterLocation::Query
    } else {
        ParameterLocation::Header
    }
}

/// A parameter definition made from an OpenAPI parameter.
pub open spec fn parameter_from(d: ParameterDefinition, p: OpenApi3Parameter) -> bool {
    &&& d.name@ == p.name@
    &&& d.location == location_of(p.location@)
    &&& d.param_type@ == schema_type_of(parameter_schema(p))
    &&& d.required == p.required
    &&& opt_str_view(d.description) == opt_str_view(p.description)
}

/// Converts an OpenAPI parameter.
pub fn convert_openapi3_parameter(param: &OpenApi3Parameter) -> (d: ParameterDefinition)
    ensures
        parameter_from(d, *param),
{
    let schema: Option<&JsonValue> = match &param.schema {
        Some(s) => Some(s),
        None => match &param.content {
            Some(c) => match pick_media_type(c) {
                Some((_, media)) => match &media.schema {
                    Some(s) => Some(s),
                    None => None,
                },
                None => None,
            },
            None => None,
        },
    };
    let location = if str_eq(param.location.as_str(), "path") {
        ParameterLocation::Path
    } else if str_eq(param.location.as_str(), "query") {
        ParameterLocation::Query
    } else {
        ParameterLocation::Header
    };
    ParameterDefinition {
        name: param.name.clone(),
        location,
        param_type: infer_schema_type(schema),
        required: param.required,
        description: match &param.description {
            Some(x) => Some(x.clone()),
            None => None,
        },
    }
}

/// An operation with its path and method, when present.
pub open spec fn op_entry(path: Seq<char>, method: Seq<char>, o: Option<OpenApi3Operation>)
    -> Seq<(Seq<char>, Seq<char>, OpenApi3Operation)>
{
    match o {
        Some(op) => seq![(path, method, op)],
        None => Seq::empty(),
    }
}

/// The operations of a path item, in the order GET, POST, PUT, PATCH, DELETE.
pub open spec fn path_ops(path: Seq<char>, item: OpenApi3PathItem) -> Seq<(Seq<char>, Seq<char>, OpenApi3Operation)> {
    op_entry(path, "GET"@, item.get) + op_entry(path, "POST"@, item.post) + op_entry(path, "PUT"@, item.put)
        + op_entry(path, "PATCH"@, item.patch) + op_entry(path, "DELETE"@, item.delete)
}

/// The operations of all paths, in order.
pub open spec fn document_ops(paths: Seq<(String, OpenApi3PathItem)>) -> Seq<(Seq<char>, Seq<char>, OpenApi3Operation)>
    decreases paths.len(),
{
    if paths.len() == 0 {
        Seq::empty()
    } else {
        document_ops(paths.drop_last()) + path_ops(paths.last().0@, paths.last().1)
    }
}

/// The body of a response: its example written out, else its description,
/// else empty.
pub open spec fn response_body_of(resp: OpenApi3Response, comps: Seq<(Seq<char>, JsonData)>) -> Seq<char> {
    match response_example(resp, comps).1 {
        Some(d) => pretty(d, 0),
        None => match resp.description {
            Some(x) => x@,
            None => Seq::empty(),
        },
    }
}

/// The responses of an operation whose status parses as a number, a later
/// one replacing an earlier one with the same status.
pub open spec fn openapi_responses(rs: Seq<(String, OpenApi3Response)>, comps: Seq<(Seq<char>, JsonData)>) -> Seq<ResponseView>
    decreases rs.len(),
{
    if rs.len() == 0 {
        Seq::empty()
    } else {
        let prev = openapi_responses(rs.drop_last(), comps);
        match parsed_unsigned(rs.last().0@, 65535) {
            Some(code) => upsert_response(prev, (code as u16, response_example(rs.last().1, comps).0,
                response_body_of(rs.last().1, comps), None)),
            None => prev,
        }
    }
}

/// The model a schema refers to: what follows the last `/` of its `$ref`.
pub open spec fn schema_ref_name(s: Option<JsonValue>) -> Option<Seq<char>> {
    match s {
        Some(v) => match str_of(member(json_data(v), "$ref"@)) {
            Some(r) => Some(ref_name(r)),
            None => None,
        },
        None => None,
    }
}

/// A request body definition made from an operation's body: its required
/// flag, the model of its chosen media type and that media type.
pub open spec fn request_body_from(rb: Option<RequestBodyDefinition>, b: Option<OpenApi3RequestBody>) -> bool {
    match b {
        None => rb is None,
        Some(body) => match media_choice(media_keys(body.content@)) {
            None => rb is None,
            Some(i) => rb matches Some(d) && d.required == body.required
                && opt_str_view(d.schema) == schema_ref_name(body.content@[i].1.schema)
                && opt_str_view(d.content_type) == Some(body.content@[i].0@),
        },
    }
}

/// Parameter definitions made from an operation's parameters, none when it
/// has none.
pub open spec fn parameters_from(ps: Option<Vec<ParameterDefinition>>, params: Seq<OpenApi3Parameter>) -> bool {
    if params.len() == 0 {
        ps is None
    } else {
        ps matches Some(v) && v@.len() == params.len()
            && forall|j: int| 0 <= j < params.len() ==> #[trigger] parameter_from(v@[j], params[j])
    }
}

/// An endpoint made from an operation.
pub open spec fn endpoint_from_op(e: EndpointDefinition, path: Seq<char>, method: Seq<char>, op: OpenApi3Operation,
    comps: Seq<(Seq<char>, JsonData)>) -> bool
{
    &&& e.kind == EndpointKind::Http
    &&& e.method@ == method
    &&& e.path@ == path
    &&& opt_str_view(e.description) == match op.summary {
        Some(x) => Some(x@),
        None => opt_str_view(op.description),
    }
    &&& parameters_from(e.parameters, op.parameters@)
    &&& request_body_from(e.request_body, op.request_body)
    &&& responses_are(e.responses@, openapi_responses(op.responses@, comps))
    &&& e.header_match is None
    &&& e.scenarios is None
    &&& e.stream is None
}

/// Endpoints made from operations, in order.
pub open spec fn endpoints_from_ops(es: Seq<EndpointDefinition>, ops: Seq<(Seq<char>, Seq<char>, OpenApi3Operation)>,
    comps: Seq<(Seq<char>, JsonData)>) -> bool
{
    &&& es.len() == ops.len()
    &&& forall|i: int| 0 <= i < es.len() ==> #[trigger] endpoint_from_op(es[i], ops[i].0, ops[i].1, ops[i].2, comps)
}

/// The component schemas of a document.
pub open spec fn doc_components(doc: OpenApi3Document) -> Seq<(String, JsonValue)> {
    match doc.components {
        Some(c) => c.schemas@,
        None => Seq::empty(),
    }
}

/// A service made from an OpenAPI document: named by its title, versioned,
/// served at the base path of its first server (`/` without one), its
/// component schemas as models (none when there are none), one endpoint per
/// operation.
pub open spec fn openapi_service(s: ServiceDefinition, doc: OpenApi3Document) -> bool {
    let comps = doc_components(doc);
    &&& s.name@ == doc.info.title@
    &&& s.version matches Some(v) && v@ == doc.info.version@
    &&& s.description is None
    &&& s.server.port is None
    &&& s.server.base_path@ == if doc.servers@.len() > 0 { base_path_of(doc.servers@[0].url@) } else { "/"@ }
    &&& s.server.proxy_base_url is None
    &&& s.server.cors is None
    &&& !s.server.record_unknown
    &&& if comps.len() == 0 {
        s.models is None
    } else {
        s.models matches Some(ms) && fields_data(ms@) == fields_data(comps)
    }
    &&& s.fixtures is None
    &&& s.bucket is None
    &&& s.graphql is None
    &&& s.behavior is None
    &&& endpoints_from_ops(s.endpoints@, document_ops(doc.paths@), fields_data(comps))
}

fn clone_opt_string(o: &Option<String>) -> (r: Option<String>)
    ensures
        opt_str_view(r) == opt_str_view(*o),
{
    match o {
        Some(x) => Some(x.clone()),
        None => None,
    }
}

fn operation_responses(op: &OpenApi3Operation, component_schemas: &Vec<(String, JsonValue)>)
    -> (rs: Vec<(u16, ResponseDefinition)>)
    ensures
        responses_are(rs@, openapi_responses(op.responses@, fields_data(component_schemas@))),
{
    let ghost comps = fields_data(component_schemas@);
    let mut rs: Vec<(u16, ResponseDefinition)> = Vec::new();
    let mut i: usize = 0;
    assert(op.responses@.take(0) =~= Seq::<(String, OpenApi3Response)>::empty());
    while i < op.responses.len()
        invariant
            i <= op.responses@.len(),
            comps == fields_data(component_schemas@),
            responses_are(rs@, openapi_responses(op.responses@.take(i as int), comps)),
        decreases op.responses@.len() - i,
    {
        proof {
            assert(op.responses@.take(i + 1).drop_last() =~= op.responses@.take(i as int));
        }
        let status = &op.responses[i].0;
        let response = &op.responses[i].1;
        match parse_unsigned(status.as_str(), 65535) {
            Some(code) => {
                let (content_type, example) = extract_example_from_v3(response, component_schemas);
                let body = match &example {
                    Some(v) => format_json_value(v),
                    None => match &response.description {
                        Some(d) => d.clone(),
                        None => String::new(),
                    },
                };
                let rd = ResponseDefinition {
                    condition: None,
                    content_type,
                    body,
                    schema: None,
                    script: None,
                    headers: None,
                    side_effects: None,
                };
                let ghost v: ResponseView = (code as u16, response_example(*response, comps).0,
                    response_body_of(*response, comps), None);
                upsert_response_def(&mut rs, (code as u16, rd), Ghost(openapi_responses(op.responses@.take(i as int), comps)), Ghost(v));
            },
            None => {},
        }
        i = i + 1;
    }
    assert(op.responses@.take(op.responses@.len() as int) =~= op.responses@);
    rs
}

fn operation_endpoint(path: &str, method: &str, op: &OpenApi3Operation, component_schemas: &Vec<(String, JsonValue)>)
    -> (e: EndpointDefinition)
    ensures
        endpoint_from_op(e, path@, method@, *op, fields_data(component_schemas@)),
{
    let parameters = if op.parameters.len() == 0 {
        None
    } else {
        let mut ps: Vec<ParameterDefinition> = Vec::new();
        let mut j: usize = 0;
        while j < op.parameters.len()
            invariant
                j <= op.parameters@.len(),
                ps@.len() == j,
                forall|k: int| 0 <= k < j ==> #[trigger] parameter_from(ps@[k], op.parameters@[k]),
            decreases op.parameters@.len() - j,
        {
            ps.push(convert_openapi3_parameter(&op.parameters[j]));
            j = j + 1;
        }
        Some(ps)
    };
    let request_body = match &op.request_body {
        Some(body) => match pick_media_type(&body.content) {
            Some((content_type, media)) => {
                let schema = match &media.schema {
                    Some(s) => match str_member(s, "$ref") {
                        Some(r) => {
                            let parts = split_on(r.as_str(), '/');
                            assert(string_views(parts@).len() == parts@.len());
                            assert(string_views(parts@).last() == parts@[parts@.len() - 1]@);
                            Some(parts[parts.len() - 1].clone())
                        },
                        None => None,
                    },
                    None => None,
                };
                Some(RequestBodyDefinition {
                    required: body.required,
                    schema,
                    content_type: Some(String::from_str(content_type)),
                })
            },
            None => None,
        },
        None => None,
    };
    let description = match &op.summary {
        Some(x) => Some(x.clone()),
        None => clone_opt_string(&op.description),
    };
    EndpointDefinition {
        kind: EndpointKind::Http,
        method: String::from_str(method),
        path: String::from_str(path),
        header_match: None,
        description,
        parameters,
        request_body,
        responses: operation_responses(op, component_schemas),
        scenarios: None,
        stream: None,
    }
}

fn push_operation(endpoints: &mut Vec<EndpointDefinition>, path: &str, method: &str, op: &Option<OpenApi3Operation>,
    component_schemas: &Vec<(String, JsonValue)>, Ghost(ops): Ghost<Seq<(Seq<char>, Seq<char>, OpenApi3Operation)>>)
    requires
        endpoints_from_ops(old(endpoints)@, ops, fields_data(component_schemas@)),
    ensures
        endpoints_from_ops(final(endpoints)@, ops + op_entry(path@, method@, *op), fields_data(component_schemas@)),
{
    match op {
        Some(o) => {
            let e = operation_endpoint(path, method, o, component_schemas);
            endpoints.push(e);
            let ghost all = ops + op_entry(path@, method@, *op);
            assert forall|i: int| 0 <= i < endpoints@.len() implies
                #[trigger] endpoint_from_op(endpoints@[i], all[i].0, all[i].1, all[i].2, fields_data(component_schemas@)) by {
                if i < ops.len() {
                    assert(endpoint_from_op(old(endpoints)@[i], ops[i].0, ops[i].1, ops[i].2, fields_data(component_schemas@)));
                }
            }
        },
        None => {
            assert(ops + op_entry(path@, method@, *op) =~= ops);
        },
    }
}

/// Converts a parsed OpenAPI 3 document.
pub fn convert_openapi3(doc: &OpenApi3Document) -> (s: ServiceDefinition)
    ensures
        openapi_service(s, *doc),
{
    let empty: Vec<(String, JsonValue)> = Vec::new();
    let component_schemas: &Vec<(String, JsonValue)> = match &doc.components {
        Some(c) => &c.schemas,
        None => &empty,
    };
    let ghost comps = fields_data(component_schemas@);
    assert(component_schemas@ == doc_components(*doc));
    let models = if component_schemas.len() == 0 {
        None
    } else {
        let mut ms: Vec<(String, JsonValue)> = Vec::new();
        let mut i: usize = 0;
        proof {
            lemma_fields_data_ext(component_schemas@);
        }
        while i < component_schemas.len()
            invariant
                i <= component_schemas@.len(),
                comps == fields_data(component_schemas@),
                fields_data(ms@) == comps.take(i as int),
                comps.len() == component_schemas@.len(),
                forall|j: int| 0 <= j < component_schemas@.len() ==> #[trigger] comps[j]
                    == (component_schemas@[j].0@, json_data(component_schemas@[j].1)),
            decreases component_schemas@.len() - i,
        {
            push_field(&mut ms, component_schemas[i].0.as_str(), json_clone(&component_schemas[i].1));
            assert(comps.take(i + 1) =~= comps.take(i as int).push(comps[i as int]));
            i = i + 1;
        }
        assert(comps.take(comps.len() as int) =~= comps);
        Some(ms)
    };
    let base_path = if doc.servers.len() > 0 {
        extract_base_path(doc.servers[0].url.as_str())
    } else {
        String::from_str("/")
    };
    let mut endpoints: Vec<EndpointDefinition> = Vec::new();
    let mut i: usize = 0;
    assert(doc.paths@.take(0) =~= Seq::<(String, OpenApi3PathItem)>::empty());
    while i < doc.paths.len()
        invariant
            i <= doc.paths@.len(),
            comps == fields_data(component_schemas@),
            endpoints_from_ops(endpoints@, document_ops(doc.paths@.take(i as int)), comps),
        decreases doc.paths@.len() - i,
    {
        proof {
            assert(doc.paths@.take(i + 1).drop_last() =~= doc.paths@.take(i as int));
        }
        let path = doc.paths[i].0.as_str();
        let item = &doc.paths[i].1;
        let ghost o0 = document_ops(doc.paths@.take(i as int));
        push_operation(&mut endpoints, path, "GET", &item.get, component_schemas, Ghost(o0));
        let ghost o1 = o0 + op_entry(path@, "GET"@, item.get);
        push_operation(&mut endpoints, path, "POST", &item.post, component_schemas, Ghost(o1));
        let ghost o2 = o1 + op_entry(path@, "POST"@, item.post);
        push_operation(&mut endpoints, path, "PUT", &item.put, component_schemas, Ghost(o2));
        let ghost o3 = o2 + op_entry(path@, "PUT"@, item.put);
        push_operation(&mut endpoints, path, "PATCH", &item.patch, component_schemas, Ghost(o3));
        let ghost o4 = o3 + op_entry(path@, "PATCH"@, item.patch);
        push_operation(&mut endpoints, path, "DELETE", &item.delete, component_schemas, Ghost(o4));
        assert(o4 + op_entry(path@, "DELETE"@, item.delete) =~= document_ops(doc.paths@.take(i + 1)));
        i = i + 1;
    }
    assert(doc.paths@.take(doc.paths@.len() as int) =~= doc.paths@);
    ServiceDefinition {
        name: doc.info.title.clone(),
        version: Some(doc.info.version.clone()),
        description: None,
        server: ServerConfig {
            port: None,
            base_path,
            proxy_base_url: None,
            cors: None,
            record_unknown: false,
        },
        models,
        fixtures: None,
        bucket: None,
        endpoints,
        graphql: None,
        behavior: None,
    }
}

/// A service made from an OpenAPI document that did not parse: named by its
/// `info.title` (empty when missing), versioned by its `info.version` when
/// present, with no endpoints, served at `/`.
pub open spec fn fallback_service(s: ServiceDefinition, raw: JsonData) -> bool {
    let info = member(raw, "info"@);
    &&& s.name@ == match info {
        Some(i) => match str_of(member(i, "title"@)) {
            Some(t) => t,
            None => Seq::empty(),
        },
        None => Seq::empty(),
    }
    &&& opt_str_view(s.version) == match info {
        Some(i) => str_of(member(i, "version"@)),
        None => None,
    }
    &&& s.description is None
    &&& s.server.port is None
    &&& s.server.base_path@ == "/"@
    &&& s.server.proxy_base_url is None
    &&& s.server.cors is None
    &&& !s.server.record_unknown
    &&& s.models is None
    &&& s.fixtures is None
    &&& s.bucket is None
    &&& s.endpoints@.len() == 0
    &&& s.graphql is None
    &&& s.behavior is None
}

/// Converts an OpenAPI 3 document, given the raw document and the document
/// as parsed into its expected shape (none when it does not have it).
pub fn from_openapi_v3(raw: &JsonValue, parsed: Option<OpenApi3Document>) -> (s: ServiceDefinition)
    ensures
        match parsed {
            Some(doc) => openapi_service(s, doc),
            None => fallback_service(s, json_data(*raw)),
        },
{
    match parsed {
        Some(doc) => convert_openapi3(&doc),
        None => {
            let info = get_member(raw, "info");
            let name = match info {
                Some(i) => match str_member(i, "title") {
                    Some(t) => t.clone(),
                    None => String::new(),
                },
                None => String::new(),
            };
            let version = match info {
                Some(i) => match str_member(i, "version") {
                    Some(v) => Some(v.clone()),
                    None => None,
                },
                None => None,
            };
            ServiceDefinition {
                name,
                version,
                description: None,
                server: ServerConfig {
                    port: None,
                    base_path: String::from_str("/"),
                    proxy_base_url: None,
                    cors: None,
                    record_unknown: false,
                },
                models: None,
                fixtures: None,
                bucket: None,
                endpoints: Vec::new(),
                graphql: None,
                behavior: None,
            }
        },
    }
}

/// Converts an OpenAPI document (see [`from_openapi_v3`]).
pub fn from_openapi(raw: &JsonValue, parsed: Option<OpenApi3Document>) -> (s: ServiceDefinition)
    ensures
        match parsed {
            Some(doc) => openapi_service(s, doc),
            None => fallback_service(s, json_data(*raw)),
        },
{
    from_openapi_v3(raw, parsed)
}


/// An operation of an exported OpenAPI document.
#[derive(Debug)]
pub struct OpenApiExportOperation {
    pub summary: Option<String>,
    pub description: Option<String>,
    pub request_body: Option<OpenApiExportBody>,
    /// Responses by status code, each described by the response body.
    pub responses: Vec<(u16, String)>,
}

/// The body an exported operation accepts: one media type, with a reference
/// to a component schema when the endpoint names one.
#[derive(Debug)]
pub struct OpenApiExportBody {
    pub content_type: String,
    pub schema_ref: Option<String>,
    pub required: bool,
}

/// The operations of an exported path.
#[derive(Debug)]
pub struct OpenApiExportPath {
    pub get: Option<OpenApiExportOperation>,
    pub post: Option<OpenApiExportOperation>,
    pub put: Option<OpenApiExportOperation>,
    pub patch: Option<OpenApiExportOperation>,
    pub delete: Option<OpenApiExportOperation>,
}

/// An OpenAPI 3 document made from a service definition. Paths and schemas
/// are kept in insertion order.
#[derive(Debug)]
pub struct OpenApiExport {
    /// The OpenAPI version the document follows.
    pub openapi: String,
    pub title: String,
    pub version: String,
    /// The URL of the one server entry.
    pub server_url: String,
    pub paths: Vec<(String, OpenApiExportPath)>,
    /// The component schemas, when the service has models.
    pub schemas: Option<Vec<(String, JsonValue)>>,
}

/// The first position of a status code.
pub open spec fn code_index(rs: Seq<(u16, Seq<char>)>, code: u16) -> Option<int>
    decreases rs.len(),
{
    if rs.len() == 0 {
        None
    } else {
        match code_index(rs.drop_last(), code) {
            Some(i) => Some(i),
            None => if rs.last().0 == code { Some(rs.len() - 1) } else { None },
        }
    }
}

/// Sets the description of a status code, in place when it is there, else
/// at the end.
pub open spec fn upsert_code(rs: Seq<(u16, Seq<char>)>, code: u16, d: Seq<char>) -> Seq<(u16, Seq<char>)> {
    match code_index(rs, code) {
        Some(i) => rs.update(i, (code, d)),
        None => rs.push((code, d)),
    }
}

/// The responses of an exported operation: each status described by the
/// body of the endpoint's response, a later one replacing an earlier one.
pub open spec fn export_responses(rs: Seq<(u16, ResponseDefinition)>) -> Seq<(u16, Seq<char>)>
    decreases rs.len(),
{
    if rs.len() == 0 {
        Seq::empty()
    } else {
        upsert_code(export_responses(rs.drop_last()), rs.last().0, rs.last().1.body@)
    }
}

/// The views of status descriptions.
pub open spec fn code_descriptions(v: Seq<(u16, String)>) -> Seq<(u16, Seq<char>)> {
    v.map_values(|p: (u16, String)| (p.0, p.1@))
}

/// An exported operation as plain values: summary, description, request
/// body (content type, schema reference, required) and responses.
pub open spec fn export_op_view(op: OpenApiExportOperation) -> (Option<Seq<char>>, Option<Seq<char>>,
    Option<(Seq<char>, Option<Seq<char>>, bool)>, Seq<(u16, Seq<char>)>) {
    (opt_str_view(op.summary), opt_str_view(op.description), match op.request_body {
        Some(b) => Some((b.content_type@, opt_str_view(b.schema_ref), b.required)),
        None => None,
    }, code_descriptions(op.responses@))
}

/// The operation exported for an endpoint: its description as summary and
/// description, its request body under its content type (JSON when it
/// names none) referring to its schema among the components, and its
/// responses.
pub open spec fn export_op_of(ep: EndpointDefinition) -> (Option<Seq<char>>, Option<Seq<char>>,
    Option<(Seq<char>, Option<Seq<char>>, bool)>, Seq<(u16, Seq<char>)>) {
    (opt_str_view(ep.description), opt_str_view(ep.description), match ep.request_body {
        Some(b) => Some((match b.content_type {
            Some(c) => c@,
            None => "application/json"@,
        }, match b.schema {
            Some(sc) => Some("#/components/schemas/"@ + sc@),
            None => None,
        }, b.required)),
        None => None,
    }, export_responses(ep.responses@))
}

/// The slot of a method in a path item (get, post, put, patch, delete),
/// by its lower-case form; other methods have none.
pub open spec fn export_slot(method: Seq<char>) -> Option<int> {
    let m = crate::text::unicode_lower(method);
    if m == "get"@ {
        Some(0)
    } else if m == "post"@ {
        Some(1)
    } else if m == "put"@ {
        Some(2)
    } else if m == "patch"@ {
        Some(3)
    } else if m == "delete"@ {
        Some(4)
    } else {
        None
    }
}

/// The last endpoint with the path whose method takes the slot.
pub open spec fn last_for(eps: Seq<EndpointDefinition>, path: Seq<char>, slot: int) -> Option<int>
    decreases eps.len(),
{
    if eps.len() == 0 {
        None
    } else if eps.last().path@ == path && export_slot(eps.last().method@) == Some(slot) {
        Some(eps.len() - 1)
    } else {
        last_for(eps.drop_last(), path, slot)
    }
}

/// The paths of the endpoints, each once, in order of first appearance.
pub open spec fn export_paths(eps: Seq<EndpointDefinition>) -> Seq<Seq<char>>
    decreases eps.len(),
{
    if eps.len() == 0 {
        Seq::empty()
    } else {
        let prev = export_paths(eps.drop_last());
        if prev.contains(eps.last().path@) { prev } else { prev.push(eps.last().path@) }
    }
}

/// The operation in a slot of a path item.
pub open spec fn slot_op(item: OpenApiExportPath, slot: int) -> Option<OpenApiExportOperation> {
    if slot == 0 {
        item.get
    } else if slot == 1 {
        item.post
    } else if slot == 2 {
        item.put
    } else if slot == 3 {
        item.patch
    } else {
        item.delete
    }
}

/// An operation is there and is the one exported for the endpoint.
pub open spec fn op_exported(o: Option<OpenApiExportOperation>, ep: EndpointDefinition) -> bool {
    match o {
        Some(op) => export_op_view(op) == export_op_of(ep),
        None => false,
    }
}

/// A slot holds the operation of the last endpoint of the path that takes
/// it, and is empty when there is none.
pub open spec fn slot_exported(item: OpenApiExportPath, eps: Seq<EndpointDefinition>, path: Seq<char>, slot: int) -> bool {
    match last_for(eps, path, slot) {
        Some(j) => op_exported(slot_op(item, slot), eps[j]),
        None => slot_op(item, slot) is None,
    }
}

/// Every slot of the path item is exported from the endpoints.
pub open spec fn path_exported(item: OpenApiExportPath, eps: Seq<EndpointDefinition>, path: Seq<char>) -> bool {
    forall|k: int| 0 <= k < 5 ==> #[trigger] slot_exported(item, eps, path, k)
}

/// Whether openapiv3 reads a JSON value as a `Schema`.
pub uninterp spec fn openapi_schema_accepts(v: JsonData) -> bool;

/// `serde_json::from_value::<openapiv3::Schema>` succeeds on the value. The
/// outcome depends on the value alone.
#[verifier::external_body]
fn accepts_as_schema(v: &JsonValue) -> (b: bool)
    ensures
        b == openapi_schema_accepts(json_data(*v)),
{
    serde_json::from_value::<openapiv3::Schema>(crate::json::to_serde_value(v)).is_ok()
}

/// The first position of a key.
pub open spec fn field_index(ms: Seq<(Seq<char>, JsonData)>, k: Seq<char>) -> Option<int>
    decreases ms.len(),
{
    if ms.len() == 0 {
        None
    } else {
        match field_index(ms.drop_last(), k) {
            Some(i) => Some(i),
            None => if ms.last().0 == k { Some(ms.len() - 1) } else { None },
        }
    }
}

/// Sets a key, in place when it is there, else at the end.
pub open spec fn upsert_field(ms: Seq<(Seq<char>, JsonData)>, k: Seq<char>, v: JsonData) -> Seq<(Seq<char>, JsonData)> {
    match field_index(ms, k) {
        Some(i) => ms.update(i, (k, v)),
        None => ms.push((k, v)),
    }
}

/// The component schemas: the models that read as schemas, in order.
pub open spec fn export_schemas(ms: Seq<(Seq<char>, JsonData)>) -> Seq<(Seq<char>, JsonData)>
    decreases ms.len(),
{
    if ms.len() == 0 {
        Seq::empty()
    } else {
        let prev = export_schemas(ms.drop_last());
        if openapi_schema_accepts(ms.last().1) { upsert_field(prev, ms.last().0, ms.last().1) } else { prev }
    }
}

/// The schemas of an export: none without models, else the models that
/// read as schemas.
pub open spec fn schemas_exported(schemas: Option<Vec<(String, JsonValue)>>, models: Option<Vec<(String, JsonValue)>>) -> bool {
    match models {
        Some(ms) => match schemas {
            Some(sc) => fields_data(sc@) == export_schemas(fields_data(ms@)),
            None => false,
        },
        None => schemas is None,
    }
}

proof fn lemma_code_index_prefix(rs: Seq<(u16, Seq<char>)>, code: u16, n: int)
    requires
        0 <= n <= rs.len(),
        code_index(rs.take(n), code) is Some,
    ensures
        code_index(rs, code) == code_index(rs.take(n), code),
    decreases rs.len() - n,
{
    if n < rs.len() {
        assert(rs.take(n + 1).drop_last() =~= rs.take(n));
        lemma_code_index_prefix(rs, code, n + 1);
    } else {
        assert(rs.take(n) =~= rs);
    }
}

proof fn lemma_field_index_prefix(ms: Seq<(Seq<char>, JsonData)>, k: Seq<char>, n: int)
    requires
        0 <= n <= ms.len(),
        field_index(ms.take(n), k) is Some,
    ensures
        field_index(ms, k) == field_index(ms.take(n), k),
    decreases ms.len() - n,
{
    if n < ms.len() {
        assert(ms.take(n + 1).drop_last() =~= ms.take(n));
        lemma_field_index_prefix(ms, k, n + 1);
    } else {
        assert(ms.take(n) =~= ms);
    }
}

fn upsert_code_exec(rs: &mut Vec<(u16, String)>, code: u16, d: String)
    ensures
        code_descriptions(final(rs)@) == upsert_code(code_descriptions(old(rs)@), code, d@),
{
    let ghost vs = code_descriptions(rs@);
    let ghost dv = d@;
    let mut i: usize = 0;
    assert(vs.take(0) =~= Seq::<(u16, Seq<char>)>::empty());
    while i < rs.len()
        invariant
            i <= rs@.len(),
            rs@ == old(rs)@,
            vs == code_descriptions(rs@),
            vs.len() == rs@.len(),
            code_index(vs.take(i as int), code) is None,
            dv == d@,
        decreases rs@.len() - i,
    {
        assert(vs.take(i + 1).drop_last() =~= vs.take(i as int));
        assert(vs[i as int] == (rs@[i as int].0, rs@[i as int].1@));
        if rs[i].0 == code {
            proof {
                lemma_code_index_prefix(vs, code, i + 1);
            }
            rs.set(i, (code, d));
            assert forall|j: int| 0 <= j < rs@.len() implies #[trigger] code_descriptions(rs@)[j] == vs.update(i as int, (code, dv))[j] by {
                assert(code_descriptions(rs@)[j] == (rs@[j].0, rs@[j].1@));
                if j != i as int {
                    assert(rs@[j] == old(rs)@[j]);
                    assert(vs[j] == (old(rs)@[j].0, old(rs)@[j].1@));
                } else {
                    assert(rs@[j].0 == code);
                    assert(rs@[j].1@ == dv);
                }
            }
            assert(code_descriptions(rs@) =~= vs.update(i as int, (code, dv)));
            return;
        }
        i = i + 1;
    }
    assert(vs.take(vs.len() as int) =~= vs);
    rs.push((code, d));
    assert(code_descriptions(rs@) =~= vs.push((code, dv)));
}

fn upsert_field_exec(ms: &mut Vec<(String, JsonValue)>, k: String, v: JsonValue)
    ensures
        fields_data(final(ms)@) == upsert_field(fields_data(old(ms)@), k@, json_data(v)),
{
    let ghost vs = fields_data(ms@);
    let ghost kv = k@;
    let ghost dv = json_data(v);
    proof {
        lemma_fields_data_ext(ms@);
    }
    let mut i: usize = 0;
    assert(vs.take(0) =~= Seq::<(Seq<char>, JsonData)>::empty());
    while i < ms.len()
        invariant
            i <= ms@.len(),
            ms@ == old(ms)@,
            vs == fields_data(ms@),
            vs.len() == ms@.len(),
            forall|j: int| 0 <= j < ms@.len() ==> #[trigger] vs[j] == (ms@[j].0@, json_data(ms@[j].1)),
            field_index(vs.take(i as int), kv) is None,
            kv == k@,
            dv == json_data(v),
        decreases ms@.len() - i,
    {
        assert(vs.take(i + 1).drop_last() =~= vs.take(i as int));
        assert(vs[i as int] == (ms@[i as int].0@, json_data(ms@[i as int].1)));
        if str_eq(ms[i].0.as_str(), k.as_str()) {
            proof {
                lemma_field_index_prefix(vs, kv, i + 1);
            }
            ms.set(i, (k, v));
            proof {
                lemma_fields_data_ext(ms@);
            }
            assert(fields_data(ms@) =~= vs.update(i as int, (kv, dv)));
            return;
        }
        i = i + 1;
    }
    assert(vs.take(vs.len() as int) =~= vs);
    ms.push((k, v));
    proof {
        lemma_fields_data_ext(ms@);
    }
    assert(fields_data(ms@) =~= vs.push((kv, dv)));
}

fn export_operation(ep: &EndpointDefinition) -> (op: OpenApiExportOperation)
    ensures
        export_op_view(op) == export_op_of(*ep),
{
    let mut responses: Vec<(u16, String)> = Vec::new();
    let mut i: usize = 0;
    assert(ep.responses@.take(0) =~= Seq::<(u16, ResponseDefinition)>::empty());
    assert(code_descriptions(responses@) =~= Seq::<(u16, Seq<char>)>::empty());
    while i < ep.responses.len()
        invariant
            i <= ep.responses@.len(),
            code_descriptions(responses@) == export_responses(ep.responses@.take(i as int)),
        decreases ep.responses@.len() - i,
    {
        assert(ep.responses@.take(i + 1).drop_last() =~= ep.responses@.take(i as int));
        upsert_code_exec(&mut responses, ep.responses[i].0, ep.responses[i].1.body.clone());
        i = i + 1;
    }
    assert(ep.responses@.take(ep.responses@.len() as int) =~= ep.responses@);
    let request_body = match &ep.request_body {
        Some(b) => Some(OpenApiExportBody {
            content_type: match &b.content_type {
                Some(c) => c.clone(),
                None => String::from_str("application/json"),
            },
            schema_ref: match &b.schema {
                Some(sc) => Some(concat2("#/components/schemas/", sc.as_str())),
                None => None,
            },
            required: b.required,
        }),
        None => None,
    };
    let summary = match &ep.description {
        Some(d) => Some(d.clone()),
        None => None,
    };
    let description = match &ep.description {
        Some(d) => Some(d.clone()),
        None => None,
    };
    OpenApiExportOperation { summary, description, request_body, responses }
}

fn slot_of(method: &str) -> (r: Option<usize>)
    ensures
        match r {
            Some(k) => k < 5 && export_slot(method@) == Some(k as int),
            None => export_slot(method@) is None,
        },
{
    let m = crate::text::to_lowercase(method);
    let s = m.as_str();
    if str_eq(s, "get") {
        Some(0)
    } else if str_eq(s, "post") {
        Some(1)
    } else if str_eq(s, "put") {
        Some(2)
    } else if str_eq(s, "patch") {
        Some(3)
    } else if str_eq(s, "delete") {
        Some(4)
    } else {
        None
    }
}

fn find_last_for(eps: &Vec<EndpointDefinition>, path: &str, slot: usize) -> (r: Option<usize>)
    ensures
        match r {
            Some(j) => j < eps@.len() && last_for(eps@, path@, slot as int) == Some(j as int),
            None => last_for(eps@, path@, slot as int) is None,
        },
{
    let mut found: Option<usize> = None;
    let mut i: usize = 0;
    assert(eps@.take(0) =~= Seq::<EndpointDefinition>::empty());
    while i < eps.len()
        invariant
            i <= eps@.len(),
            match found {
                Some(j) => j < i && last_for(eps@.take(i as int), path@, slot as int) == Some(j as int),
                None => last_for(eps@.take(i as int), path@, slot as int) is None,
            },
        decreases eps@.len() - i,
    {
        assert(eps@.take(i + 1).drop_last() =~= eps@.take(i as int));
        assert(eps@.take(i + 1).last() == eps@[i as int]);
        let takes = match slot_of(eps[i].method.as_str()) {
            Some(k) => k == slot,
            None => false,
        };
        if takes && str_eq(eps[i].path.as_str(), path) {
            found = Some(i);
        }
        i = i + 1;
    }
    assert(eps@.take(eps@.len() as int) =~= eps@);
    found
}

fn export_slot_op(eps: &Vec<EndpointDefinition>, path: &str, slot: usize) -> (r: Option<OpenApiExportOperation>)
    ensures
        match last_for(eps@, path@, slot as int) {
            Some(j) => op_exported(r, eps@[j]),
            None => r is None,
        },
{
    match find_last_for(eps, path, slot) {
        Some(j) => Some(export_operation(&eps[j])),
        None => None,
    }
}

fn export_path(eps: &Vec<EndpointDefinition>, path: &str) -> (item: OpenApiExportPath)
    ensures
        path_exported(item, eps@, path@),
{
    let get = export_slot_op(eps, path, 0);
    let post = export_slot_op(eps, path, 1);
    let put = export_slot_op(eps, path, 2);
    let patch = export_slot_op(eps, path, 3);
    let delete = export_slot_op(eps, path, 4);
    let item = OpenApiExportPath { get, post, put, patch, delete };
    assert forall|k: int| 0 <= k < 5 implies #[trigger] slot_exported(item, eps@, path@, k) by {
        if k == 0 {
        } else if k == 1 {
        } else if k == 2 {
        } else if k == 3 {
        } else {
        }
    }
    item
}

fn string_listed(v: &Vec<String>, s: &str) -> (b: bool)
    ensures
        b == crate::text::string_views(v@).contains(s@),
{
    let ghost views = crate::text::string_views(v@);
    let mut i: usize = 0;
    while i < v.len()
        invariant
            i <= v@.len(),
            views == crate::text::string_views(v@),
            views.len() == v@.len(),
            forall|j: int| 0 <= j < i ==> views[j] != s@,
        decreases v@.len() - i,
    {
        assert(views[i as int] == v@[i as int]@);
        if str_eq(v[i].as_str(), s) {
            assert(views.contains(s@)) by {
                assert(views[i as int] == s@);
            }
            return true;
        }
        i = i + 1;
    }
    false
}

fn distinct_paths(eps: &Vec<EndpointDefinition>) -> (r: Vec<String>)
    ensures
        crate::text::string_views(r@) == export_paths(eps@),
{
    let mut order: Vec<String> = Vec::new();
    let mut i: usize = 0;
    assert(eps@.take(0) =~= Seq::<EndpointDefinition>::empty());
    assert(crate::text::string_views(order@) =~= Seq::<Seq<char>>::empty());
    while i < eps.len()
        invariant
            i <= eps@.len(),
            crate::text::string_views(order@) == export_paths(eps@.take(i as int)),
        decreases eps@.len() - i,
    {
        assert(eps@.take(i + 1).drop_last() =~= eps@.take(i as int));
        assert(eps@.take(i + 1).last() == eps@[i as int]);
        if !string_listed(&order, eps[i].path.as_str()) {
            let ghost before = order@;
            order.push(eps[i].path.clone());
            assert(crate::text::string_views(order@) =~= crate::text::string_views(before).push(eps@[i as int].path@));
        }
        i = i + 1;
    }
    assert(eps@.take(eps@.len() as int) =~= eps@);
    order
}

fn export_schema_list(models: &Vec<(String, JsonValue)>) -> (r: Vec<(String, JsonValue)>)
    ensures
        fields_data(r@) == export_schemas(fields_data(models@)),
{
    let ghost md = fields_data(models@);
    proof {
        lemma_fields_data_ext(models@);
    }
    let mut out: Vec<(String, JsonValue)> = Vec::new();
    let mut i: usize = 0;
    assert(md.take(0) =~= Seq::<(Seq<char>, JsonData)>::empty());
    assert(fields_data(out@) =~= Seq::<(Seq<char>, JsonData)>::empty());
    while i < models.len()
        invariant
            i <= models@.len(),
            md == fields_data(models@),
            md.len() == models@.len(),
            forall|j: int| 0 <= j < models@.len() ==> #[trigger] md[j] == (models@[j].0@, json_data(models@[j].1)),
            fields_data(out@) == export_schemas(md.take(i as int)),
        decreases models@.len() - i,
    {
        assert(md.take(i + 1).drop_last() =~= md.take(i as int));
        assert(md.take(i + 1).last() == md[i as int]);
        assert(md[i as int] == (models@[i as int].0@, json_data(models@[i as int].1)));
        if accepts_as_schema(&models[i].1) {
            upsert_field_exec(&mut out, models[i].0.clone(), json_clone(&models[i].1));
        }
        i = i + 1;
    }
    assert(md.take(md.len() as int) =~= md);
    out
}

/// Converts a service definition into an OpenAPI 3.0.3 document: the
/// service's name and version (`1.0` when it has none) as title and version,
/// its base path as the one server, a path item for each distinct endpoint
/// path in order of first appearance, whose slots hold the operations of
/// the last endpoint of that path with each of the methods get, post, put,
/// patch and delete (other methods add nothing but the path), and, when the
/// service has models, those that read as schemas as components.
pub fn to_openapi(service: &ServiceDefinition) -> (doc: OpenApiExport)
    ensures
        doc.openapi@ == "3.0.3"@,
        doc.title@ == service.name@,
        doc.version@ == (match service.version {
            Some(v) => v@,
            None => "1.0"@,
        }),
        doc.server_url@ == service.server.base_path@,
        doc.paths@.len() == export_paths(service.endpoints@).len(),
        forall|i: int| 0 <= i < doc.paths@.len() ==> #[trigger] doc.paths@[i].0@ == export_paths(service.endpoints@)[i]
            && path_exported(doc.paths@[i].1, service.endpoints@, export_paths(service.endpoints@)[i]),
        schemas_exported(doc.schemas, service.models),
{
    let order = distinct_paths(&service.endpoints);
    let ghost pv = export_paths(service.endpoints@);
    let mut paths: Vec<(String, OpenApiExportPath)> = Vec::new();
    let mut i: usize = 0;
    while i < order.len()
        invariant
            i <= order@.len(),
            crate::text::string_views(order@) == pv,
            pv == export_paths(service.endpoints@),
            order@.len() == pv.len(),
            paths@.len() == i,
            forall|j: int| 0 <= j < i ==> #[trigger] paths@[j].0@ == pv[j]
                && path_exported(paths@[j].1, service.endpoints@, pv[j]),
        decreases order@.len() - i,
    {
        assert(pv[i as int] == order@[i as int]@);
        let item = export_path(&service.endpoints, order[i].as_str());
        paths.push((order[i].clone(), item));
        i = i + 1;
    }
    let schemas = match &service.models {
        Some(ms) => Some(export_schema_list(ms)),
        None => None,
    };
    let version = match &service.version {
        Some(v) => v.clone(),
        None => String::from_str("1.0"),
    };
    OpenApiExport {
        openapi: String::from_str("3.0.3"),
        title: service.name.clone(),
        version,
        server_url: service.server.base_path.clone(),
        paths,
        schemas,
    }
}


/// The example of a scalar schema with a non-empty `enum` is the enum's
/// first value: for an `integer`, `number` or `string` schema listing its
/// allowed values (and giving no `example`, `default`, `$ref`, `allOf`,
/// `oneOf` or `anyOf`), the example generated is one the schema allows,
/// the first it lists, whatever the components and references expanded.
pub proof fn lemma_enum_gives_first_value(schema: JsonData, comps: Seq<(Seq<char>, JsonData)>,
    visited: Set<Seq<char>>, t: Seq<char>, values: Seq<JsonData>)
    requires
        t == "integer"@ || t == "number"@ || t == "string"@,
        member(schema, "type"@) == Some(JsonData::Str(t)),
        member(schema, "enum"@) == Some(JsonData::Array(values)),
        values.len() > 0,
        member(schema, "example"@) is None,
        member(schema, "default"@) is None,
        member(schema, "$ref"@) is None,
        member(schema, "allOf"@) is None,
        member(schema, "oneOf"@) is None,
        member(schema, "anyOf"@) is None,
    ensures
        example_for(schema, comps, visited) == values[0],
        values.contains(example_for(schema, comps, visited)),
{
    reveal_strlit("object");
    reveal_strlit("array");
    reveal_strlit("integer");
    reveal_strlit("number");
    reveal_strlit("string");
    assert(example_for(schema, comps, visited) == example_by_shape(schema, comps, visited));
    assert(array_of(member(schema, "enum"@)) == Some(values));
    assert(first_of(array_of(member(schema, "enum"@))) == Some(values[0]));
    reveal_strlit("boolean");
    assert("object"@[0] == 'o' && "array"@[0] == 'a' && "integer"@[0] == 'i' && "number"@[0] == 'n'
        && "boolean"@[0] == 'b' && "string"@[0] == 's');
    assert(t != "object"@ && t != "array"@);
    if t == "number"@ {
        assert(t != "integer"@);
    } else if t == "string"@ {
        assert(t != "integer"@ && t != "number"@ && t != "boolean"@);
    }
    assert(values[0] == values[0]);
}

} // verus!
