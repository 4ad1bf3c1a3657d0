//! Turning recorded request paths into endpoint patterns: segments that look
//! like identifiers become `{paramN}` parameters.

use vstd::prelude::*;
use crate::config::{EndpointDefinition, EndpointKind, ParameterDefinition, ParameterLocation, ResponseDefinition};
use crate::json::{json_quote, json_string_literal};
use crate::text::{to_uppercase, unicode_upper, all_digits, digits_value, is_digit, build_path, chars_of, concat3, decimal, path_of_segments, path_segments, split_segments,
    string_views, usize_to_string};

verus! {

pub open spec fn is_alpha(c: char) -> bool {
    ('a' <= c <= 'z') || ('A' <= c <= 'Z')
}

pub open spec fn is_alnum(c: char) -> bool {
    is_digit(c) || is_alpha(c)
}

pub open spec fn is_hex_digit(c: char) -> bool {
    is_digit(c) || ('a' <= c <= 'f') || ('A' <= c <= 'F')
}

/// `s` parses as an `i64` or as a `u64`: an optional sign, digits, and a
/// value in range.
pub open spec fn parses_as_integer(s: Seq<char>) -> bool {
    ||| all_digits(s) && digits_value(s) <= u64::MAX
    ||| s.len() > 0 && s[0] == '+' && all_digits(s.drop_first()) && digits_value(s.drop_first()) <= u64::MAX
    ||| s.len() > 0 && s[0] == '-' && all_digits(s.drop_first()) && digits_value(s.drop_first()) <= 0x8000_0000_0000_0000
}

/// The digits of `s` spell a number no greater than `bound`.
fn digits_within(s: &[char], start: usize, bound: u128) -> (b: bool)
    requires
        start <= s@.len(),
        bound <= 0x1_0000_0000_0000_0000,
    ensures
        b == (all_digits(s@.skip(start as int)) && digits_value(s@.skip(start as int)) <= bound),
{
    let ghost t = s@.skip(start as int);
    if start == s.len() {
        return false;
    }
    let mut v: u128 = 0;
    let mut i: usize = start;
    while i < s.len()
        invariant
            start <= i <= s@.len(),
            t == s@.skip(start as int),
            bound <= 0x1_0000_0000_0000_0000,
            v <= bound,
            v == digits_value(t.take(i - start)),
            forall|j: int| 0 <= j < i - start ==> is_digit(t[j]),
        decreases s@.len() - i,
    {
        let c = s[i];
        assert(t[i - start] == c);
        if !('0' <= c && c <= '9') {
            return false;
        }
        proof {
            assert(t.take(i - start + 1).drop_last() =~= t.take(i - start));
        }
        v = v * 10 + (c as u32 - '0' as u32) as u128;
        if v > bound {
            proof {
                lemma_digits_prefix_bound(t, (i - start + 1) as int);
            }
            return false;
        }
        i = i + 1;
    }
    assert(t.take(t.len() as int) =~= t);
    true
}

proof fn lemma_digits_prefix_bound(t: Seq<char>, k: int)
    requires
        0 <= k <= t.len(),
        forall|j: int| 0 <= j < k ==> is_digit(t[j]),
    ensures
        all_digits(t) ==> digits_value(t.take(k)) <= digits_value(t),
    decreases t.len() - k,
{
    if k < t.len() && all_digits(t) {
        lemma_digits_prefix_bound(t, k + 1);
        assert(t.take(k + 1).drop_last() =~= t.take(k));
    } else if k == t.len() {
        assert(t.take(k) =~= t);
    }
}

/// Whether the segment parses as an `i64` or a `u64`.
pub fn parses_as_integer_str(v: &[char]) -> (b: bool)
    ensures
        b == parses_as_integer(v@),
{
    assert(v@.skip(0) =~= v@);
    if v.len() > 0 && v[0] == '+' {
        assert(v@.skip(1) =~= v@.drop_first());
        return digits_within(v, 1, 0xFFFF_FFFF_FFFF_FFFF) || digits_within(v, 0, 0xFFFF_FFFF_FFFF_FFFF);
    }
    if v.len() > 0 && v[0] == '-' {
        assert(v@.skip(1) =~= v@.drop_first());
        return digits_within(v, 1, 0x8000_0000_0000_0000) || digits_within(v, 0, 0xFFFF_FFFF_FFFF_FFFF);
    }
    digits_within(v, 0, 0xFFFF_FFFF_FFFF_FFFF)
}

/// The characters of `s` other than `-`.
pub open spec fn without_dashes(s: Seq<char>) -> Seq<char> {
    s.filter(|c: char| c != '-')
}

/// A segment looks like a UUID: 32 or 36 characters, and what is not a dash
/// is a non-empty run of hex digits.
pub open spec fn looks_like_uuid_spec(s: Seq<char>) -> bool {
    (s.len() == 36 || s.len() == 32) && exists|i: int| 0 <= i < s.len() && s[i] != '-'
        && forall|i: int| 0 <= i < s.len() && s[i] != '-' ==> is_hex_digit(s[i])
}

/// Whether a path segment looks like a UUID.
pub fn looks_like_uuid(segment: &str) -> (b: bool)
    ensures
        b == looks_like_uuid_spec(segment@),
{
    let v = chars_of(segment);
    if !(v.len() == 36 || v.len() == 32) {
        return false;
    }
    let mut seen = false;
    let mut i: usize = 0;
    while i < v.len()
        invariant
            v@ == segment@,
            i <= v@.len(),
            seen == exists|j: int| 0 <= j < i && v@[j] != '-',
            forall|j: int| 0 <= j < i && v@[j] != '-' ==> is_hex_digit(v@[j]),
        decreases v@.len() - i,
    {
        let c = v[i];
        if c != '-' {
            if !(('0' <= c && c <= '9') || ('a' <= c && c <= 'f') || ('A' <= c && c <= 'F')) {
                return false;
            }
            seen = true;
        }
        i = i + 1;
    }
    seen
}

/// Whether a recorded path segment holds a value rather than a name: a
/// number, a UUID, a mix of letters and digits longer than three characters,
/// or anything with characters other than ASCII letters, digits, `_` and `-`.
pub open spec fn is_dynamic_segment_spec(s: Seq<char>) -> bool {
    &&& s.len() > 0
    &&& {
        ||| parses_as_integer(s)
        ||| looks_like_uuid_spec(s)
        ||| (exists|i: int| 0 <= i < s.len() && is_digit(s[i])) && (exists|i: int| 0 <= i < s.len() && is_alpha(s[i]))
            && s.len() > 3
        ||| exists|i: int| 0 <= i < s.len() && !is_alnum(s[i]) && s[i] != '_' && s[i] != '-'
    }
}

/// Whether a recorded path segment holds a value rather than a name.
pub fn is_dynamic_segment(segment: &str) -> (b: bool)
    ensures
        b == is_dynamic_segment_spec(segment@),
{
    let v = chars_of(segment);
    if v.len() == 0 {
        return false;
    }
    if parses_as_integer_str(&v) || looks_like_uuid(segment) {
        return true;
    }
    let mut has_digit = false;
    let mut has_alpha = false;
    let mut other = false;
    let mut i: usize = 0;
    while i < v.len()
        invariant
            v@ == segment@,
            i <= v@.len(),
            has_digit == exists|j: int| 0 <= j < i && is_digit(v@[j]),
            has_alpha == exists|j: int| 0 <= j < i && is_alpha(v@[j]),
            other == exists|j: int| 0 <= j < i && !is_alnum(v@[j]) && v@[j] != '_' && v@[j] != '-',
        decreases v@.len() - i,
    {
        let c = v[i];
        let d = '0' <= c && c <= '9';
        let a = ('a' <= c && c <= 'z') || ('A' <= c && c <= 'Z');
        if d {
            has_digit = true;
        }
        if a {
            has_alpha = true;
        }
        if !d && !a && c != '_' && c != '-' {
            other = true;
        }
        i = i + 1;
    }
    (has_digit && has_alpha && v.len() > 3) || other
}

/// Segment names of recorded parameters: `param1`, `param2`, ...
pub open spec fn param_name(n: nat) -> Seq<char> {
    "param"@ + decimal(n)
}

/// A recorded path turned into a pattern: each dynamic segment replaced by
/// `{paramN}`, numbered from 1 in order; `dynamic` tells which segments are.
pub open spec fn templated_segments(segs: Seq<Seq<char>>) -> Seq<Seq<char>>
    decreases segs.len(),
{
    if segs.len() == 0 {
        Seq::empty()
    } else {
        let prev = templated_segments(segs.drop_last());
        let last = segs.last();
        if is_dynamic_segment_spec(last) {
            prev.push("{"@ + param_name(dynamic_count(segs.drop_last()) + 1) + "}"@)
        } else {
            prev.push(last)
        }
    }
}

/// How many segments are dynamic.
pub open spec fn dynamic_count(segs: Seq<Seq<char>>) -> nat
    decreases segs.len(),
{
    if segs.len() == 0 {
        0
    } else {
        dynamic_count(segs.drop_last()) + if is_dynamic_segment_spec(segs.last()) { 1nat } else { 0nat }
    }
}

/// The dynamic segments, in order.
pub open spec fn dynamic_values(segs: Seq<Seq<char>>) -> Seq<Seq<char>>
    decreases segs.len(),
{
    if segs.len() == 0 {
        Seq::empty()
    } else if is_dynamic_segment_spec(segs.last()) {
        dynamic_values(segs.drop_last()).push(segs.last())
    } else {
        dynamic_values(segs.drop_last())
    }
}

proof fn lemma_dynamic_values_len(segs: Seq<Seq<char>>)
    ensures
        dynamic_values(segs).len() == dynamic_count(segs),
        dynamic_count(segs) <= segs.len(),
    decreases segs.len(),
{
    if segs.len() > 0 {
        lemma_dynamic_values_len(segs.drop_last());
    }
}

/// The normalized form of a recorded request path.
pub open spec fn normalized_recorded_path(path: Seq<char>) -> Seq<char> {
    path_of_segments(templated_segments(path_segments(path)))
}

/// The views of parameter definitions: name, description.
pub open spec fn param_defs_view(ps: Seq<ParameterDefinition>) -> Seq<(Seq<char>, Option<Seq<char>>)> {
    ps.map_values(|p: ParameterDefinition| (p.name@, match p.description {
        Some(d) => Some(d@),
        None => None,
    }))
}

/// Every definition is a required string path parameter.
pub open spec fn all_required_path_strings(ps: Seq<ParameterDefinition>) -> bool {
    forall|i: int| 0 <= i < ps.len() ==> #[trigger] ps[i].location == ParameterLocation::Path
        && ps[i].param_type@ == "string"@ && ps[i].required
}

/// The description recorded for a captured value.
pub open spec fn captured_description(value: Seq<char>) -> Seq<char> {
    "Valor capturado automáticamente desde '"@ + value + "'."@
}

/// Normalize a recorded path into a pattern with `{paramN}` parameters, and
/// the definitions of those parameters.
pub fn normalize_recorded_path(path: &str) -> (r: (String, Vec<ParameterDefinition>))
    ensures
        r.0@ == normalized_recorded_path(path@),
        r.1@.len() == dynamic_count(path_segments(path@)),
        all_required_path_strings(r.1@),
        forall|i: int| 0 <= i < r.1@.len() ==> (#[trigger] r.1@[i]).name@ == param_name((i + 1) as nat)
            && r.1@[i].description is Some
            && r.1@[i].description.unwrap()@ == captured_description(dynamic_values(path_segments(path@))[i]),
{
    let segments = split_segments(path);
    let ghost segs = path_segments(path@);
    let mut params: Vec<ParameterDefinition> = Vec::new();
    let mut normalized: Vec<String> = Vec::new();
    let mut i: usize = 0;
    while i < segments.len()
        invariant
            string_views(segments@) == segs,
            i <= segments@.len(),
            string_views(normalized@) == templated_segments(segs.take(i as int)),
            params@.len() == dynamic_count(segs.take(i as int)),
            dynamic_values(segs.take(i as int)).len() == params@.len(),
            all_required_path_strings(params@),
            forall|j: int| 0 <= j < params@.len() ==> (#[trigger] params@[j]).name@ == param_name((j + 1) as nat)
                && params@[j].description is Some
                && params@[j].description.unwrap()@ == captured_description(dynamic_values(segs.take(i as int))[j]),
        decreases segments@.len() - i,
    {
        let segment = &segments[i];
        proof {
            assert(segs.take(i + 1).drop_last() =~= segs.take(i as int));
            assert(segs.take(i + 1).last() == segs[i as int]);
            assert(segs[i as int] == segment@);
        }
        let ghost before = normalized@;
        let ghost pbefore = params@;
        proof {
            lemma_dynamic_values_len(segs.take(i as int));
        }
        if is_dynamic_segment(segment.as_str()) {
            let param_index = params.len() + 1;
            let name = concat3("param", usize_to_string(param_index).as_str(), "");
            let seg = concat3("{", name.as_str(), "}");
            normalized.push(seg);
            let description = concat3("Valor capturado automáticamente desde '", segment.as_str(), "'.");
            params.push(ParameterDefinition {
                name,
                location: ParameterLocation::Path,
                param_type: String::from_str("string"),
                required: true,
                description: Some(description),
            });
            proof {
                reveal_strlit("");
                assert(string_views(normalized@) =~= string_views(before).push(seg@));
                assert(name@ =~= param_name(param_index as nat));
                let dv = dynamic_values(segs.take(i + 1));
                assert(dv == dynamic_values(segs.take(i as int)).push(segment@));
                assert forall|j: int| 0 <= j < params@.len() implies (#[trigger] params@[j]).name@ == param_name((j + 1) as nat)
                    && params@[j].description is Some
                    && params@[j].description.unwrap()@ == captured_description(dv[j]) by {
                    if j < pbefore.len() {
                        assert(params@[j] == pbefore[j]);
                    }
                }
            }
        } else {
            normalized.push(segment.clone());
            proof {
                assert(string_views(normalized@) =~= string_views(before).push(segment@));
                assert(dynamic_values(segs.take(i + 1)) == dynamic_values(segs.take(i as int)));
            }
        }
        i = i + 1;
    }
    assert(segs.take(segments@.len() as int) =~= segs);
    (build_path(&normalized), params)
}

/// The body of the placeholder response of a recorded endpoint: a compact
/// JSON object with `message`, `method` and `path`.
pub open spec fn placeholder_body(method: Seq<char>, path: Seq<char>) -> Seq<char> {
    "{\"message\":"@ + json_string_literal("Respuesta placeholder generada automáticamente"@) + ",\"method\":"@
        + json_string_literal(method) + ",\"path\":"@ + json_string_literal(path) + "}"@
}

/// The endpoint recorded for a request nobody answered, and its pattern: the
/// method in upper case, the normalized path with its parameters, and a
/// placeholder 200 response.
pub fn build_recorded_endpoint(method: &str, relative_path: &str) -> (r: (EndpointDefinition, String))
    ensures
        r.1@ == normalized_recorded_path(relative_path@),
        r.0.path@ == r.1@,
        r.0.kind == EndpointKind::Http,
        r.0.method@ == unicode_upper(method@),
        r.0.header_match is None,
        r.0.description matches Some(d) && d@ == "Endpoint generado automáticamente desde tráfico real"@,
        dynamic_count(path_segments(relative_path@)) == 0 ==> r.0.parameters is None,
        dynamic_count(path_segments(relative_path@)) > 0 ==> (r.0.parameters matches Some(ps)
            && ps@.len() == dynamic_count(path_segments(relative_path@)) && all_required_path_strings(ps@)
            && forall|i: int| 0 <= i < ps@.len() ==> (#[trigger] ps@[i]).name@ == param_name((i + 1) as nat)),
        r.0.request_body is None,
        r.0.scenarios is None,
        r.0.stream is None,
        r.0.responses@.len() == 1,
        r.0.responses@[0].0 == 200,
        r.0.responses@[0].1.condition is None,
        r.0.responses@[0].1.content_type@ == "application/json"@,
        r.0.responses@[0].1.body@ == placeholder_body(method@, r.1@),
        r.0.responses@[0].1.schema is None,
        r.0.responses@[0].1.script is None,
        r.0.responses@[0].1.headers is None,
        r.0.responses@[0].1.side_effects is None,
{
    let (normalized_path, parameters) = normalize_recorded_path(relative_path);
    let mut body = String::from_str("{\"message\":");
    let m = json_quote("Respuesta placeholder generada automáticamente");
    body.append(m.as_str());
    body.append(",\"method\":");
    let mq = json_quote(method);
    body.append(mq.as_str());
    body.append(",\"path\":");
    let pq = json_quote(normalized_path.as_str());
    body.append(pq.as_str());
    body.append("}");
    let mut responses: Vec<(u16, ResponseDefinition)> = Vec::new();
    responses.push((200, ResponseDefinition {
        condition: None,
        content_type: String::from_str("application/json"),
        body,
        schema: None,
        script: None,
        headers: None,
        side_effects: None,
    }));
    let params = if parameters.len() == 0 { None } else { Some(parameters) };
    let endpoint = EndpointDefinition {
        kind: EndpointKind::Http,
        method: to_uppercase(method),
        path: normalized_path.clone(),
        header_match: None,
        description: Some(String::from_str("Endpoint generado automáticamente desde tráfico real")),
        parameters: params,
        request_body: None,
        responses,
        scenarios: None,
        stream: None,
    };
    (endpoint, normalized_path)
}

} // verus!
