//! What the recording proxy learns from the traffic it forwards: request paths
//! turned into parameterized endpoint patterns, the values seen for each
//! parameter, and the recorded endpoints themselves.

use vstd::prelude::*;
use crate::config::{EndpointDefinition, EndpointKind, ParameterDefinition, ParameterLocation, ResponseDefinition,
    ServerConfig, ServiceDefinition};
use crate::endpoints::{headers_view, pairs_to_map, pairs_view};
use crate::handler::{first_status, statuses_of};
use crate::json::{json_quote, json_string_literal};
use crate::recording::{is_alnum, is_alpha, is_hex_digit, param_name};
use crate::strmap::StrMap;
use crate::text::{
    all_digits, build_path, chars_of, concat3, eq_ignore_ascii_case_spec, is_digit, path_of_segments,
    path_segments, segments_scan, split_segments, str_eq, string_views, usize_to_string,
};

verus! {

/// A hyphenated UUID: 36 characters, `-` at positions 8, 13, 18 and 23 and
/// hexadecimal digits elsewhere.
pub open spec fn hyphenated_uuid(s: Seq<char>) -> bool {
    s.len() == 36 && forall|i: int| 0 <= i < 36 ==> if i == 8 || i == 13 || i == 18 || i == 23 {
        s[i] == '-'
    } else {
        is_hex_digit(s[i])
    }
}

/// The texts `uuid::Uuid::parse_str` accepts: 32 hexadecimal digits; a
/// hyphenated UUID; one between braces; or one after `urn:uuid:` (in any
/// ASCII case).
pub open spec fn uuid_text(s: Seq<char>) -> bool {
    ||| s.len() == 32 && forall|i: int| 0 <= i < 32 ==> is_hex_digit(s[i])
    ||| hyphenated_uuid(s)
    ||| s.len() == 38 && s[0] == '{' && s[37] == '}' && hyphenated_uuid(s.subrange(1, 37))
    ||| s.len() == 45 && eq_ignore_ascii_case_spec(s.take(9), "urn:uuid:"@) && hyphenated_uuid(s.skip(9))
}

/// `uuid::Uuid::parse_str(s).is_ok()`: the uuid crate's parser (1.x) accepts
/// exactly the four textual forms of `uuid_text`, hexadecimal digits in
/// either case.
#[verifier::external_body]
fn uuid_parses(s: &str) -> (b: bool)
    ensures
        b == uuid_text(s@),
{
    uuid::Uuid::parse_str(s).is_ok()
}

/// A character allowed in a generated identifier.
pub open spec fn is_id_char(c: char) -> bool {
    is_alnum(c) || c == '-' || c == '_' || c == '~'
}

/// A path segment that holds a value rather than a name: digits only; a
/// UUID; 16 or more hexadecimal digits; or at least 4 identifier characters
/// mixing digits and letters.
pub open spec fn variable_segment(s: Seq<char>) -> bool {
    &&& s.len() > 0
    &&& {
        ||| all_digits(s)
        ||| uuid_text(s)
        ||| s.len() >= 16 && forall|i: int| 0 <= i < s.len() ==> is_hex_digit(s[i])
        ||| {
            &&& exists|i: int| 0 <= i < s.len() && is_digit(s[i])
            &&& exists|i: int| 0 <= i < s.len() && is_alpha(s[i])
            &&& forall|i: int| 0 <= i < s.len() ==> is_id_char(s[i])
            &&& s.len() >= 4
        }
    }
}

/// Whether a path segment holds a value rather than a name.
pub fn is_variable_segment(segment: &str) -> (b: bool)
    ensures
        b == variable_segment(segment@),
{
    let v = chars_of(segment);
    if v.len() == 0 {
        return false;
    }
    let mut digits = true;
    let mut hex = true;
    let mut has_digit = false;
    let mut has_alpha = false;
    let mut valid = true;
    let mut i: usize = 0;
    while i < v.len()
        invariant
            v@ == segment@,
            i <= v@.len(),
            digits == forall|j: int| 0 <= j < i ==> is_digit(v@[j]),
            hex == forall|j: int| 0 <= j < i ==> is_hex_digit(v@[j]),
            has_digit == exists|j: int| 0 <= j < i && is_digit(v@[j]),
            has_alpha == exists|j: int| 0 <= j < i && is_alpha(v@[j]),
            valid == forall|j: int| 0 <= j < i ==> is_id_char(v@[j]),
        decreases v@.len() - i,
    {
        let c = v[i];
        let d = '0' <= c && c <= '9';
        let a = ('a' <= c && c <= 'z') || ('A' <= c && c <= 'Z');
        let h = d || ('a' <= c && c <= 'f') || ('A' <= c && c <= 'F');
        if !d {
            digits = false;
        }
        if !h {
            hex = false;
        }
        if d {
            has_digit = true;
        }
        if a {
            has_alpha = true;
        }
        if !(d || a || c == '-' || c == '_' || c == '~') {
            valid = false;
        }
        i = i + 1;
    }
    if digits {
        return true;
    }
    if uuid_parses(segment) {
        return true;
    }
    if v.len() >= 16 && hex {
        return true;
    }
    has_digit && has_alpha && valid && v.len() >= 4
}

/// A path turned into a pattern: each variable segment replaced by
/// `{paramN}`, numbered from 1 in order.
pub open spec fn variable_templated(segs: Seq<Seq<char>>) -> Seq<Seq<char>>
    decreases segs.len(),
{
    if segs.len() == 0 {
        Seq::empty()
    } else {
        let prev = variable_templated(segs.drop_last());
        if variable_segment(segs.last()) {
            prev.push("{"@ + param_name(variable_count(segs.drop_last()) + 1) + "}"@)
        } else {
            prev.push(segs.last())
        }
    }
}

/// How many segments are variable.
pub open spec fn variable_count(segs: Seq<Seq<char>>) -> nat
    decreases segs.len(),
{
    if segs.len() == 0 {
        0
    } else {
        variable_count(segs.drop_last()) + if variable_segment(segs.last()) { 1nat } else { 0nat }
    }
}

/// The variable segments, in order.
pub open spec fn variable_values(segs: Seq<Seq<char>>) -> Seq<Seq<char>>
    decreases segs.len(),
{
    if segs.len() == 0 {
        Seq::empty()
    } else if variable_segment(segs.last()) {
        variable_values(segs.drop_last()).push(segs.last())
    } else {
        variable_values(segs.drop_last())
    }
}

proof fn lemma_variable_values_len(segs: Seq<Seq<char>>)
    ensures
        variable_values(segs).len() == variable_count(segs),
        variable_count(segs) <= segs.len(),
    decreases segs.len(),
{
    if segs.len() > 0 {
        lemma_variable_values_len(segs.drop_last());
    }
}

/// The pattern of a request path.
pub open spec fn parameterized_path(path: Seq<char>) -> Seq<char> {
    path_of_segments(variable_templated(path_segments(path)))
}

/// The recorded parameters are the required string path parameters
/// `param1`, `param2`, ... without description.
pub open spec fn recorded_parameters(ps: Seq<ParameterDefinition>, n: nat) -> bool {
    &&& ps.len() == n
    &&& forall|i: int| 0 <= i < ps.len() ==> {
        &&& (#[trigger] ps[i]).name@ == param_name((i + 1) as nat)
        &&& ps[i].location == ParameterLocation::Path
        &&& ps[i].param_type@ == "string"@
        &&& ps[i].required
        &&& ps[i].description is None
    }
}

/// The views of name and value pairs.
pub open spec fn value_pairs_view(v: Seq<(String, String)>) -> Seq<(Seq<char>, Seq<char>)> {
    v.map_values(|p: (String, String)| (p.0@, p.1@))
}

/// The values seen in a path: each parameter name with its segment.
pub open spec fn recorded_values_of(path: Seq<char>) -> Seq<(Seq<char>, Seq<char>)> {
    let vals = variable_values(path_segments(path));
    Seq::new(vals.len(), |i: int| (param_name((i + 1) as nat), vals[i]))
}

/// A request path turned into a pattern: the pattern, its parameters, and
/// the value each parameter had in this path.
pub fn parameterize_path(path: &str) -> (r: (String, Vec<ParameterDefinition>, Vec<(String, String)>))
    ensures
        r.0@ == parameterized_path(path@),
        recorded_parameters(r.1@, variable_count(path_segments(path@))),
        value_pairs_view(r.2@) == recorded_values_of(path@),
{
    if str_eq(path, "/") {
        proof {
            reveal_strlit("/");
            assert(path@ =~= seq!['/']);
            assert(path@.drop_last() =~= Seq::<char>::empty());
            assert(segments_scan(path@.drop_last()) == (Seq::<Seq<char>>::empty(), Seq::<char>::empty()));
            assert(path_segments(path@) =~= Seq::<Seq<char>>::empty());
            assert(recorded_values_of(path@) =~= Seq::<(Seq<char>, Seq<char>)>::empty());
        }
        let values: Vec<(String, String)> = Vec::new();
        assert(value_pairs_view(values@) =~= Seq::<(Seq<char>, Seq<char>)>::empty());
        return (String::from_str("/"), Vec::new(), values);
    }
    let segments = split_segments(path);
    let ghost segs = path_segments(path@);
    let mut params: Vec<ParameterDefinition> = Vec::new();
    let mut values: Vec<(String, String)> = Vec::new();
    let mut normalized: Vec<String> = Vec::new();
    let mut i: usize = 0;
    while i < segments.len()
        invariant
            string_views(segments@) == segs,
            i <= segments@.len(),
            string_views(normalized@) == variable_templated(segs.take(i as int)),
            recorded_parameters(params@, variable_count(segs.take(i as int))),
            variable_values(segs.take(i as int)).len() == params@.len(),
            values@.len() == params@.len(),
            forall|j: int| 0 <= j < values@.len() ==> (#[trigger] values@[j]).0@ == param_name((j + 1) as nat)
                && values@[j].1@ == variable_values(segs.take(i as int))[j],
        decreases segments@.len() - i,
    {
        let segment = &segments[i];
        proof {
            assert(segs.take(i + 1).drop_last() =~= segs.take(i as int));
            assert(segs.take(i + 1).last() == segs[i as int]);
            assert(segs[i as int] == segment@);
            lemma_variable_values_len(segs.take(i as int));
        }
        let ghost before = normalized@;
        let ghost pbefore = params@;
        let ghost vbefore = values@;
        if is_variable_segment(segment.as_str()) {
            let param_index = params.len() + 1;
            let name = concat3("param", usize_to_string(param_index).as_str(), "");
            let seg = concat3("{", name.as_str(), "}");
            normalized.push(seg);
            params.push(ParameterDefinition {
                name: name.clone(),
                location: ParameterLocation::Path,
                param_type: String::from_str("string"),
                required: true,
                description: None,
            });
            values.push((name, segment.clone()));
            proof {
                reveal_strlit("");
                assert(string_views(normalized@) =~= string_views(before).push(seg@));
                let vv = variable_values(segs.take(i + 1));
                assert(vv == variable_values(segs.take(i as int)).push(segment@));
                assert forall|j: int| 0 <= j < params@.len() implies {
                    &&& (#[trigger] params@[j]).name@ == param_name((j + 1) as nat)
                    &&& params@[j].location == ParameterLocation::Path
                    &&& params@[j].param_type@ == "string"@
                    &&& params@[j].required
                    &&& params@[j].description is None
                } by {
                    if j < pbefore.len() {
                        assert(params@[j] == pbefore[j]);
                    }
                }
                assert forall|j: int| 0 <= j < values@.len() implies (#[trigger] values@[j]).0@ == param_name((j + 1) as nat)
                    && values@[j].1@ == vv[j] by {
                    if j < vbefore.len() {
                        assert(values@[j] == vbefore[j]);
                    }
                }
            }
        } else {
            normalized.push(segment.clone());
            proof {
                assert(string_views(normalized@) =~= string_views(before).push(segment@));
                assert(variable_values(segs.take(i + 1)) == variable_values(segs.take(i as int)));
            }
        }
        i = i + 1;
    }
    assert(segs.take(segments@.len() as int) =~= segs);
    proof {
        lemma_variable_values_len(segs);
        assert(value_pairs_view(values@) =~= recorded_values_of(path@));
    }
    (build_path(&normalized), params, values)
}

/// The header under which a recorded response keeps the path values seen
/// for each parameter, as a JSON object of lists.
pub open spec fn path_params_header() -> Seq<char> {
    "x-apicentric-recorded-path-params"@
}

/// The value lists of a map, as views.
pub open spec fn lists_view(m: StrMap<Vec<String>>) -> Map<Seq<char>, Seq<Seq<char>>> {
    m@.map_values(|v: Vec<String>| string_views(v@))
}

/// Values added to per-name lists: each value joins its name's list unless
/// already there.
pub open spec fn merged_lists(m: Map<Seq<char>, Seq<Seq<char>>>, vals: Seq<(Seq<char>, Seq<char>)>) -> Map<Seq<char>, Seq<Seq<char>>>
    decreases vals.len(),
{
    if vals.len() == 0 {
        m
    } else {
        let prev = merged_lists(m, vals.drop_last());
        let n = vals.last().0;
        let v = vals.last().1;
        let cur = if prev.contains_key(n) { prev[n] } else { Seq::empty() };
        prev.insert(n, if cur.contains(v) { cur } else { cur.push(v) })
    }
}

/// Whether a list holds a string.
fn list_contains(v: &Vec<String>, s: &str) -> (b: bool)
    ensures
        b == string_views(v@).contains(s@),
{
    let mut i: usize = 0;
    while i < v.len()
        invariant
            i <= v@.len(),
            forall|j: int| 0 <= j < i ==> v@[j]@ != s@,
        decreases v@.len() - i,
    {
        if str_eq(v[i].as_str(), s) {
            assert(string_views(v@)[i as int] == s@);
            return true;
        }
        i = i + 1;
    }
    proof {
        if string_views(v@).contains(s@) {
            let j = choose|j: int| 0 <= j < string_views(v@).len() && string_views(v@)[j] == s@;
            assert(v@[j]@ == s@);
        }
    }
    false
}

/// Adds the values seen to the per-name lists, each value once.
pub fn merge_into(aggregated: &mut StrMap<Vec<String>>, new_values: &Vec<(String, String)>)
    requires
        old(aggregated).wf(),
    ensures
        final(aggregated).wf(),
        lists_view(*final(aggregated)) == merged_lists(lists_view(*old(aggregated)), value_pairs_view(new_values@)),
{
    let ghost start = lists_view(*aggregated);
    let ghost vals = value_pairs_view(new_values@);
    let mut i: usize = 0;
    while i < new_values.len()
        invariant
            i <= new_values@.len(),
            vals == value_pairs_view(new_values@),
            aggregated.wf(),
            lists_view(*aggregated) == merged_lists(start, vals.take(i as int)),
        decreases new_values@.len() - i,
    {
        proof {
            assert(vals.take(i + 1).drop_last() =~= vals.take(i as int));
            assert(vals.take(i + 1).last() == (new_values@[i as int].0@, new_values@[i as int].1@));
        }
        let name = &new_values[i].0;
        let value = &new_values[i].1;
        let mut list: Vec<String> = match aggregated.get(name.as_str()) {
            Some(l) => l.clone(),
            None => Vec::new(),
        };
        let ghost cur = string_views(list@);
        assert(cur =~= (if lists_view(*aggregated).contains_key(name@) { lists_view(*aggregated)[name@] } else { Seq::<Seq<char>>::empty() }));
        if !list_contains(&list, value.as_str()) {
            list.push(value.clone());
            assert(string_views(list@) =~= cur.push(value@));
        }
        let ghost newl = string_views(list@);
        let ghost before = lists_view(*aggregated);
        aggregated.insert(name.clone(), list);
        assert(lists_view(*aggregated) =~= before.insert(name@, newl));
        i = i + 1;
    }
    assert(vals.take(new_values@.len() as int) =~= vals);
}

/// A list of strings written as a JSON array of string literals.
pub open spec fn encoded_items(vs: Seq<Seq<char>>) -> Seq<char>
    decreases vs.len(),
{
    if vs.len() == 0 {
        Seq::empty()
    } else if vs.len() == 1 {
        json_string_literal(vs[0])
    } else {
        encoded_items(vs.drop_last()) + ","@ + json_string_literal(vs.last())
    }
}

/// The entries of a map of lists, as JSON object members.
pub open spec fn encoded_entries(ks: Seq<Seq<char>>, vs: Seq<Seq<Seq<char>>>) -> Seq<char>
    decreases ks.len(),
{
    if ks.len() == 0 {
        Seq::empty()
    } else {
        let entry = json_string_literal(ks.last()) + ":["@ + encoded_items(vs[ks.len() - 1]) + "]"@;
        if ks.len() == 1 {
            entry
        } else {
            encoded_entries(ks.drop_last(), vs) + ","@ + entry
        }
    }
}

/// A map of lists written as a compact JSON object, members in key order.
pub open spec fn encoded_object(m: StrMap<Vec<String>>) -> Seq<char> {
    "{"@ + encoded_entries(m.keys_view(), m.vals_view().map_values(|v: Vec<String>| string_views(v@))) + "}"@
}

/// Writes a map of lists as a compact JSON object.
pub fn encode_recorded_values(m: &StrMap<Vec<String>>) -> (r: String)
    requires
        m.wf(),
    ensures
        r@ == encoded_object(*m),
{
    let ghost ks = m.keys_view();
    let ghost vs = m.vals_view().map_values(|v: Vec<String>| string_views(v@));
    proof {
        m.lemma_view();
    }
    let mut out = String::from_str("{");
    let n = m.len();
    let mut i: usize = 0;
    while i < n
        invariant
            m.wf(),
            n == ks.len(),
            ks == m.keys_view(),
            vs == m.vals_view().map_values(|v: Vec<String>| string_views(v@)),
            vs.len() == ks.len(),
            i <= n,
            out@ == "{"@ + encoded_entries(ks.take(i as int), vs),
        decreases n - i,
    {
        proof {
            assert(ks.take(i + 1).drop_last() =~= ks.take(i as int));
            assert(ks.take(i + 1).last() == ks[i as int]);
        }
        if i > 0 {
            out.append(",");
        }
        let k = json_quote(m.key_at(i).as_str());
        out.append(k.as_str());
        out.append(":[");
        let list = m.value_at(i);
        let ghost lv = string_views(list@);
        assert(lv == vs[i as int]);
        let ghost mid = out@;
        let mut j: usize = 0;
        while j < list.len()
            invariant
                j <= list@.len(),
                lv == string_views(list@),
                out@ == mid + encoded_items(lv.take(j as int)),
            decreases list@.len() - j,
        {
            proof {
                assert(lv.take(j + 1).drop_last() =~= lv.take(j as int));
                assert(lv.take(j + 1).last() == list@[j as int]@);
                if j == 0 {
                    assert(lv.take(1)[0] == list@[0]@);
                }
            }
            if j > 0 {
                out.append(",");
            }
            let q = json_quote(list[j].as_str());
            out.append(q.as_str());
            j = j + 1;
        }
        assert(lv.take(list@.len() as int) =~= lv);
        out.append("]");
        proof {
            assert(ks.take(i + 1).len() == i + 1);
            if i == 0 {
                assert(out@ =~= "{"@ + encoded_entries(ks.take(i + 1), vs));
            } else {
                assert(out@ =~= "{"@ + encoded_entries(ks.take(i + 1), vs));
            }
        }
        i = i + 1;
    }
    assert(ks.take(n as int) =~= ks);
    out.append("}");
    out
}

/// The per-name lists a JSON text holds when serde_json reads it as a map
/// from names to lists of strings.
pub uninterp spec fn json_value_lists(raw: Seq<char>) -> Option<Map<Seq<char>, Seq<Seq<char>>>>;

/// The per-name strings a JSON text holds when serde_json reads it as a map
/// from names to strings.
pub uninterp spec fn json_single_values(raw: Seq<char>) -> Option<Map<Seq<char>, Seq<char>>>;

/// The map that entries listed in some order make (an earlier entry wins
/// over a later one with the same name).
pub open spec fn lists_map(v: Seq<(String, Vec<String>)>) -> Map<Seq<char>, Seq<Seq<char>>>
    decreases v.len(),
{
    if v.len() == 0 {
        Map::empty()
    } else {
        lists_map(v.drop_first()).insert(v[0].0@, string_views(v[0].1@))
    }
}

/// The map that name/value entries listed in some order make.
pub open spec fn singles_map(v: Seq<(String, String)>) -> Map<Seq<char>, Seq<char>>
    decreases v.len(),
{
    if v.len() == 0 {
        Map::empty()
    } else {
        singles_map(v.drop_first()).insert(v[0].0@, v[0].1@)
    }
}

/// Single values as one-value lists.
pub open spec fn singles_as_lists(m: Map<Seq<char>, Seq<char>>) -> Map<Seq<char>, Seq<Seq<char>>> {
    m.map_values(|x: Seq<char>| seq![x])
}

/// `serde_json::from_str` into a `HashMap` from names to lists of strings,
/// its entries listed as the map is walked. The walking order varies between
/// processes and is not stated; the entries themselves (distinct names, and
/// the map they make) depend on the text alone.
#[verifier::external_body]
fn parse_value_lists(raw: &str) -> (r: Option<Vec<(String, Vec<String>)>>)
    ensures
        match r {
            Some(v) => json_value_lists(raw@) == Some(lists_map(v@))
                && forall|a: int, b: int| 0 <= a < b < v@.len() ==> v@[a].0@ != v@[b].0@,
            None => json_value_lists(raw@) is None,
        },
{
    serde_json::from_str::<std::collections::HashMap<String, Vec<String>>>(raw).ok().map(|m| m.into_iter().collect())
}

/// `serde_json::from_str` into a `HashMap` from names to strings, its
/// entries listed as the map is walked. The walking order varies between
/// processes and is not stated; the entries themselves (distinct names, and
/// the map they make) depend on the text alone.
#[verifier::external_body]
fn parse_single_values(raw: &str) -> (r: Option<Vec<(String, String)>>)
    ensures
        match r {
            Some(v) => json_single_values(raw@) == Some(singles_map(v@))
                && forall|a: int, b: int| 0 <= a < b < v@.len() ==> v@[a].0@ != v@[b].0@,
            None => json_single_values(raw@) is None,
        },
{
    serde_json::from_str::<std::collections::HashMap<String, String>>(raw).ok().map(|m| m.into_iter().collect())
}

/// The per-name lists a recorded metadata text holds: a JSON object of
/// lists, or of single strings (each a one-value list); none when it is
/// neither.
pub open spec fn recorded_lists_of(raw: Seq<char>) -> Map<Seq<char>, Seq<Seq<char>>> {
    match json_value_lists(raw) {
        Some(m) => m,
        None => match json_single_values(raw) {
            Some(m) => singles_as_lists(m),
            None => Map::<Seq<char>, Seq<Seq<char>>>::empty(),
        },
    }
}

/// The per-name lists recorded before, if a metadata text was.
pub open spec fn recorded_lists_from(existing: Option<Seq<char>>) -> Map<Seq<char>, Seq<Seq<char>>> {
    match existing {
        Some(raw) => recorded_lists_of(raw),
        None => Map::<Seq<char>, Seq<Seq<char>>>::empty(),
    }
}

/// The per-name lists a recorded metadata value holds (see
/// [`recorded_lists_of`]).
fn read_recorded_values(raw: &str) -> (r: StrMap<Vec<String>>)
    ensures
        r.wf(),
        lists_view(r) == recorded_lists_of(raw@),
{
    let mut m: StrMap<Vec<String>> = StrMap::new();
    assert(lists_view(m) =~= Map::<Seq<char>, Seq<Seq<char>>>::empty());
    match parse_value_lists(raw) {
        Some(lists) => {
            let ghost orig = lists@;
            let mut lists = lists;
            assert(orig.skip(orig.len() as int) =~= Seq::<(String, Vec<String>)>::empty());
            while lists.len() > 0
                invariant
                    m.wf(),
                    lists@.len() <= orig.len(),
                    lists@ == orig.take(lists@.len() as int),
                    lists_view(m) == lists_map(orig.skip(lists@.len() as int)),
                decreases lists@.len(),
            {
                let ghost before = lists_view(m);
                let (k, v) = lists.pop().unwrap();
                let ghost j = lists@.len() as int;
                assert(orig[j] == (k, v));
                assert(lists@ =~= orig.take(j));
                assert(orig.skip(j).drop_first() =~= orig.skip(j + 1));
                assert(orig.skip(j)[0] == orig[j]);
                let ghost kv = k@;
                let ghost vv = string_views(v@);
                m.insert(k, v);
                assert(lists_view(m) =~= before.insert(kv, vv));
            }
            assert(orig.skip(0) =~= orig);
        },
        None => match parse_single_values(raw) {
            Some(pairs) => {
                let ghost orig = pairs@;
                let mut pairs = pairs;
                assert(orig.skip(orig.len() as int) =~= Seq::<(String, String)>::empty());
                assert(singles_as_lists(Map::<Seq<char>, Seq<char>>::empty()) =~= Map::<Seq<char>, Seq<Seq<char>>>::empty());
                while pairs.len() > 0
                    invariant
                        m.wf(),
                        pairs@.len() <= orig.len(),
                        pairs@ == orig.take(pairs@.len() as int),
                        lists_view(m) == singles_as_lists(singles_map(orig.skip(pairs@.len() as int))),
                    decreases pairs@.len(),
                {
                    let ghost before = lists_view(m);
                    let ghost prev = singles_map(orig.skip(pairs@.len() as int));
                    let (k, v) = pairs.pop().unwrap();
                    let ghost j = pairs@.len() as int;
                    assert(orig[j] == (k, v));
                    assert(pairs@ =~= orig.take(j));
                    assert(orig.skip(j).drop_first() =~= orig.skip(j + 1));
                    assert(orig.skip(j)[0] == orig[j]);
                    let ghost kv = k@;
                    let ghost x = v@;
                    let mut l: Vec<String> = Vec::new();
                    l.push(v);
                    assert(string_views(l@) =~= seq![x]);
                    m.insert(k, l);
                    assert(lists_view(m) =~= before.insert(kv, seq![x]));
                    assert(singles_as_lists(prev.insert(kv, x)) =~= singles_as_lists(prev).insert(kv, seq![x]));
                }
                assert(orig.skip(0) =~= orig);
            },
            None => {},
        },
    }
    m
}

/// Every value seen lands in its name's list.
proof fn lemma_merged_has_last(m: Map<Seq<char>, Seq<Seq<char>>>, vals: Seq<(Seq<char>, Seq<char>)>)
    requires
        vals.len() > 0,
    ensures
        merged_lists(m, vals).contains_key(vals.last().0),
{
}

/// The values seen for each parameter, merged into those already recorded
/// (read from their JSON text) and written back as JSON. With nothing new,
/// the recorded text is kept as it was.
pub fn merge_recorded_values(existing: Option<&String>, new_values: &Vec<(String, String)>) -> (r: Option<String>)
    ensures
        new_values@.len() == 0 ==> match existing {
            Some(e) => r matches Some(x) && x@ == e@,
            None => r is None,
        },
        new_values@.len() > 0 ==> (r matches Some(text) && exists|m: StrMap<Vec<String>>| m.wf() && text@ == encoded_object(m)
            && lists_view(m) == merged_lists(recorded_lists_from(match existing {
                Some(e) => Some(e@),
                None => None,
            }), value_pairs_view(new_values@))),
{
    if new_values.len() == 0 {
        return match existing {
            Some(e) => Some(e.clone()),
            None => None,
        };
    }
    let mut aggregated = match existing {
        Some(raw) => read_recorded_values(raw.as_str()),
        None => StrMap::new(),
    };
    assert(lists_view(aggregated) =~= recorded_lists_from(match existing {
        Some(e) => Some(e@),
        None => None,
    }));
    let ghost start = lists_view(aggregated);
    merge_into(&mut aggregated, new_values);
    proof {
        let vals = value_pairs_view(new_values@);
        lemma_merged_has_last(start, vals);
        assert(vals.last().0 == new_values@.last().0@);
        assert(lists_view(aggregated).dom() =~= aggregated@.dom());
        aggregated.lemma_view();
    }
    if aggregated.is_empty() {
        proof {
            assert(!aggregated.keys_view().contains(new_values@.last().0@));
        }
        return None;
    }
    let text = encode_recorded_values(&aggregated);
    Some(text)
}

/// The entries of a header table as name/value pairs, in key order.
pub fn pairs_of(m: &StrMap<String>) -> (r: Vec<(String, String)>)
    requires
        m.wf(),
    ensures
        pairs_to_map(pairs_view(r@)) == headers_view(*m),
{
    proof {
        m.lemma_view();
    }
    let ghost ks = m.keys_view();
    let n = m.len();
    let mut out: Vec<(String, String)> = Vec::new();
    let mut i: usize = 0;
    while i < n
        invariant
            m.wf(),
            n == ks.len(),
            ks == m.keys_view(),
            ks.no_duplicates(),
            forall|j: int| 0 <= j < ks.len() ==> #[trigger] m@[ks[j]] == m.vals_view()[j],
            forall|k: Seq<char>| #[trigger] m@.contains_key(k) <==> ks.contains(k),
            i <= n,
            pairs_to_map(pairs_view(out@)) == Map::new(|k: Seq<char>| ks.take(i as int).contains(k), |k: Seq<char>| m@[k]@),
        decreases n - i,
    {
        let k = m.key_at(i).clone();
        let v = m.value_at(i).clone();
        let ghost before = out@;
        out.push((k, v));
        proof {
            assert(m@[ks[i as int]] == m.vals_view()[i as int]);
            assert(pairs_view(out@).drop_last() =~= pairs_view(before));
            assert(pairs_view(out@).last() == (k@, v@));
            assert(pairs_to_map(pairs_view(out@)) == pairs_to_map(pairs_view(before)).insert(k@, v@));
            assert(ks.take(i + 1) =~= ks.take(i as int).push(ks[i as int]));
            assert(k@ == ks[i as int]);
            assert(m@[k@] == v);
            let prevm = Map::new(|k2: Seq<char>| ks.take(i as int).contains(k2), |k2: Seq<char>| m@[k2]@);
            let newm = Map::new(|k2: Seq<char>| ks.take(i + 1).contains(k2), |k2: Seq<char>| m@[k2]@);
            assert forall|k2: Seq<char>| #[trigger] newm.contains_key(k2) <==> prevm.insert(k@, v@).contains_key(k2) by {
                if ks.take(i + 1).contains(k2) && k2 != ks[i as int] {
                    let j = ks.take(i + 1).index_of(k2);
                    assert(ks.take(i as int)[j] == k2);
                }
                if k2 == ks[i as int] {
                    assert(ks.take(i + 1)[i as int] == k2);
                }
                if ks.take(i as int).contains(k2) {
                    let j = ks.take(i as int).index_of(k2);
                    assert(ks.take(i + 1)[j] == k2);
                }
            }
            assert forall|k2: Seq<char>| newm.contains_key(k2) implies #[trigger] newm[k2] == prevm.insert(k@, v@)[k2] by {
            }
            assert(newm =~= prevm.insert(k@, v@));
        }
        i = i + 1;
    }
    proof {
        assert(ks.take(n as int) =~= ks);
        assert(pairs_to_map(pairs_view(out@)) =~= headers_view(*m));
    }
    out
}

/// The position of the first endpoint recorded for a method and pattern.
pub open spec fn first_keyed(eps: Seq<EndpointDefinition>, method: Seq<char>, path: Seq<char>) -> Option<int>
    decreases eps.len(),
{
    if eps.len() == 0 {
        None
    } else {
        match first_keyed(eps.drop_last(), method, path) {
            Some(k) => Some(k),
            None => if eps.last().method@ == method && eps.last().path@ == path { Some(eps.len() - 1) } else { None },
        }
    }
}

/// A response list with the response for `status` replaced, or added last.
pub open spec fn upserted_responses(rs: Seq<(u16, ResponseDefinition)>, status: u16, rd: ResponseDefinition) -> Seq<(u16, ResponseDefinition)> {
    match first_status(statuses_of(rs), status) {
        Some(j) => rs.update(j, (status, rd)),
        None => rs.push((status, rd)),
    }
}

/// The recorded path values a response list kept for a status: the value of
/// the metadata header of the first response with that status, if any.
pub open spec fn previous_recorded(rs: Seq<(u16, ResponseDefinition)>, status: u16) -> Option<Seq<char>> {
    match first_status(statuses_of(rs), status) {
        Some(j) => match rs[j].1.headers {
            Some(v) => match header_index(value_pairs_view(v@), path_params_header()) {
                Some(i) => Some(v@[i].1@),
                None => None,
            },
            None => None,
        },
        None => None,
    }
}

/// The headers of a recorded response: those of the upstream reply, with
/// the metadata header holding the path values recorded so far: those
/// recorded before (`prev`) with the values seen now (`vals`) merged in, as
/// a JSON object of lists; the earlier text as it was when nothing was seen
/// now.
pub open spec fn recorded_headers_ok(h: Option<Vec<(String, String)>>, given: Seq<(Seq<char>, Seq<char>)>,
    prev: Option<Seq<char>>, vals: Seq<(Seq<char>, Seq<char>)>) -> bool {
    let base = pairs_to_map(given);
    match h {
        None => base.dom() == Set::<Seq<char>>::empty() && vals.len() == 0 && prev is None,
        Some(v) => {
            let m = pairs_to_map(pairs_view(v@));
            &&& m.remove(path_params_header()) == base.remove(path_params_header())
            &&& vals.len() == 0 ==> match prev {
                Some(x) => m.contains_key(path_params_header()) && m[path_params_header()] == x,
                None => m == base,
            }
            &&& vals.len() > 0 ==> {
                &&& m.contains_key(path_params_header())
                &&& exists|t: StrMap<Vec<String>>| t.wf() && m[path_params_header()] == encoded_object(t)
                    && lists_view(t) == merged_lists(recorded_lists_from(prev), vals)
            }
        },
    }
}

/// The response recorded for a reply.
pub open spec fn recorded_response_ok(rd: ResponseDefinition, content_type: Seq<char>, body: String,
    given: Seq<(Seq<char>, Seq<char>)>, prev: Option<Seq<char>>, vals: Seq<(Seq<char>, Seq<char>)>) -> bool {
    &&& rd.condition is None
    &&& rd.content_type@ == content_type
    &&& rd.body == body
    &&& rd.schema is None
    &&& rd.script is None
    &&& rd.side_effects is None
    &&& recorded_headers_ok(rd.headers, given, prev, vals)
}

/// The position of the first response with a status.
fn find_status(rs: &Vec<(u16, ResponseDefinition)>, status: u16) -> (r: Option<usize>)
    ensures
        match r {
            Some(j) => j < rs@.len() && first_status(statuses_of(rs@), status) == Some(j as int),
            None => first_status(statuses_of(rs@), status) is None,
        },
{
    let ghost sts = statuses_of(rs@);
    let mut i: usize = 0;
    while i < rs.len()
        invariant
            i <= rs@.len(),
            sts == statuses_of(rs@),
            first_status(sts.take(i as int), status) is None,
        decreases rs@.len() - i,
    {
        proof {
            assert(sts.take(i + 1).drop_last() =~= sts.take(i as int));
        }
        if rs[i].0 == status {
            proof {
                lemma_first_status_prefix(sts, status, i as int);
            }
            return Some(i);
        }
        i = i + 1;
    }
    assert(sts.take(rs@.len() as int) =~= sts);
    None
}

proof fn lemma_first_status_prefix(sts: Seq<u16>, status: u16, i: int)
    requires
        0 <= i < sts.len(),
        first_status(sts.take(i), status) is None,
        sts[i] == status,
    ensures
        first_status(sts, status) == Some(i),
    decreases sts.len(),
{
    if i < sts.len() - 1 {
        assert(sts.drop_last().take(i) =~= sts.take(i));
        lemma_first_status_prefix(sts.drop_last(), status, i);
    } else {
        assert(sts.take(i) =~= sts.drop_last());
    }
}

/// The position of the first endpoint recorded for a method and pattern.
fn find_keyed(eps: &Vec<EndpointDefinition>, method: &str, path: &str) -> (r: Option<usize>)
    ensures
        match r {
            Some(k) => k < eps@.len() && first_keyed(eps@, method@, path@) == Some(k as int),
            None => first_keyed(eps@, method@, path@) is None,
        },
{
    let mut i: usize = 0;
    while i < eps.len()
        invariant
            i <= eps@.len(),
            first_keyed(eps@.take(i as int), method@, path@) is None,
        decreases eps@.len() - i,
    {
        proof {
            assert(eps@.take(i + 1).drop_last() =~= eps@.take(i as int));
        }
        if str_eq(eps[i].method.as_str(), method) && str_eq(eps[i].path.as_str(), path) {
            proof {
                lemma_first_keyed_prefix(eps@, method@, path@, i as int);
            }
            return Some(i);
        }
        i = i + 1;
    }
    assert(eps@.take(eps@.len() as int) =~= eps@);
    None
}

proof fn lemma_first_keyed_bound(eps: Seq<EndpointDefinition>, method: Seq<char>, path: Seq<char>)
    ensures
        first_keyed(eps, method, path) matches Some(k) ==> 0 <= k < eps.len() && eps[k].method@ == method
            && eps[k].path@ == path,
    decreases eps.len(),
{
    if eps.len() > 0 {
        lemma_first_keyed_bound(eps.drop_last(), method, path);
    }
}

proof fn lemma_first_keyed_prefix(eps: Seq<EndpointDefinition>, method: Seq<char>, path: Seq<char>, i: int)
    requires
        0 <= i < eps.len(),
        first_keyed(eps.take(i), method, path) is None,
        eps[i].method@ == method && eps[i].path@ == path,
    ensures
        first_keyed(eps, method, path) == Some(i),
    decreases eps.len(),
{
    if i < eps.len() - 1 {
        assert(eps.drop_last().take(i) =~= eps.take(i));
        lemma_first_keyed_prefix(eps.drop_last(), method, path, i);
    } else {
        assert(eps.take(i) =~= eps.drop_last());
    }
}

/// The first position of a header name among name/value pairs.
pub open spec fn header_index(v: Seq<(Seq<char>, Seq<char>)>, name: Seq<char>) -> Option<int>
    decreases v.len(),
{
    if v.len() == 0 {
        None
    } else {
        match header_index(v.drop_last(), name) {
            Some(i) => Some(i),
            None => if v.last().0 == name { Some(v.len() - 1) } else { None },
        }
    }
}

proof fn lemma_header_index_prefix(v: Seq<(Seq<char>, Seq<char>)>, name: Seq<char>, n: int)
    requires
        0 <= n <= v.len(),
        header_index(v.take(n), name) is Some,
    ensures
        header_index(v, name) == header_index(v.take(n), name),
    decreases v.len() - n,
{
    if n < v.len() {
        assert(v.take(n + 1).drop_last() =~= v.take(n));
        lemma_header_index_prefix(v, name, n + 1);
    } else {
        assert(v.take(n) =~= v);
    }
}

/// The recorded path values kept in a response's headers, if any: the
/// value of the first header named as the metadata header.
#[verifier::loop_isolation(false)]
fn recorded_metadata(headers: &Option<Vec<(String, String)>>) -> (r: Option<&String>)
    ensures
        match headers {
            Some(v) => match header_index(value_pairs_view(v@), path_params_header()) {
                Some(i) => r matches Some(x) && x@ == v@[i].1@,
                None => r is None,
            },
            None => r is None,
        },
{
    match headers {
        Some(v) => {
            let ghost pv = value_pairs_view(v@);
            let mut i: usize = 0;
            assert(pv.take(0) =~= Seq::<(Seq<char>, Seq<char>)>::empty());
            while i < v.len()
                invariant
                    i <= v@.len(),
                    pv == value_pairs_view(v@),
                    header_index(pv.take(i as int), path_params_header()) is None,
                decreases v@.len() - i,
            {
                assert(pv.take(i + 1).drop_last() =~= pv.take(i as int));
                assert(pv.take(i + 1).last() == (v@[i as int].0@, v@[i as int].1@));
                if str_eq(v[i].0.as_str(), "x-apicentric-recorded-path-params") {
                    proof {
                        assert(v@[i as int].0@ == path_params_header());
                        assert(header_index(pv.take(i + 1), path_params_header()) == Some(i as int));
                        lemma_header_index_prefix(pv, path_params_header(), i + 1);
                    }
                    return Some(&v[i].1);
                }
                i = i + 1;
            }
            assert(pv.take(v@.len() as int) =~= pv);
            None
        },
        None => None,
    }
}

/// Where the endpoint for a method and request path is after recording: at
/// its place when it was recorded before, else last.
pub open spec fn upsert_index(olds: Seq<EndpointDefinition>, method: Seq<char>, path: Seq<char>) -> int {
    match first_keyed(olds, method, parameterized_path(path)) {
        Some(k0) => k0,
        None => olds.len() as int,
    }
}

/// The responses recorded before for a method and request path.
pub open spec fn upsert_old_responses(olds: Seq<EndpointDefinition>, method: Seq<char>, path: Seq<char>) -> Seq<(u16, ResponseDefinition)> {
    match first_keyed(olds, method, parameterized_path(path)) {
        Some(k0) => olds[k0].responses@,
        None => Seq::empty(),
    }
}

/// A new endpoint was added last: an HTTP endpoint with nothing but its
/// method, pattern, parameters and responses.
pub open spec fn new_endpoint_ok(news: Seq<EndpointDefinition>, k: int, n: nat) -> bool {
    &&& news.len() == k + 1
    &&& news[k].kind == EndpointKind::Http
    &&& news[k].header_match is None
    &&& news[k].description is None
    &&& news[k].request_body is None
    &&& news[k].scenarios is None
    &&& news[k].stream is None
    &&& n == 0 ==> news[k].parameters is None
}

/// An endpoint recorded before keeps everything but its pattern, its
/// parameters (when the path has some) and its responses.
pub open spec fn kept_endpoint_ok(news: Seq<EndpointDefinition>, olds: Seq<EndpointDefinition>, k: int, n: nat) -> bool {
    &&& news.len() == olds.len()
    &&& news[k].kind == olds[k].kind
    &&& news[k].header_match == olds[k].header_match
    &&& news[k].description == olds[k].description
    &&& news[k].request_body == olds[k].request_body
    &&& news[k].scenarios == olds[k].scenarios
    &&& news[k].stream == olds[k].stream
    &&& n == 0 ==> news[k].parameters == olds[k].parameters
}

/// Records a reply seen by the proxy: the request path becomes a pattern;
/// the endpoint for that method and pattern is found or added; its
/// parameters and the response for the reply's status are set, the response
/// keeping the path values seen so far in a metadata header.
pub fn upsert_recorded_endpoint(endpoints: &mut Vec<EndpointDefinition>, method: &str, path: &str, status: u16,
    content_type: &str, body: String, headers: &Vec<(String, String)>)
    ensures
        0 <= upsert_index(old(endpoints)@, method@, path@) < final(endpoints)@.len(),
        final(endpoints)@[upsert_index(old(endpoints)@, method@, path@)].method@ == method@,
        final(endpoints)@[upsert_index(old(endpoints)@, method@, path@)].path@ == parameterized_path(path@),
        first_keyed(old(endpoints)@, method@, parameterized_path(path@)) is None ==> new_endpoint_ok(
            final(endpoints)@, old(endpoints)@.len() as int, variable_count(path_segments(path@))),
        first_keyed(old(endpoints)@, method@, parameterized_path(path@)) matches Some(k0) ==> kept_endpoint_ok(
            final(endpoints)@, old(endpoints)@, k0, variable_count(path_segments(path@))),
        forall|j: int| 0 <= j < old(endpoints)@.len() && j != upsert_index(old(endpoints)@, method@, path@)
            ==> #[trigger] final(endpoints)@[j] == old(endpoints)@[j],
        variable_count(path_segments(path@)) > 0 ==> (final(endpoints)@[upsert_index(old(endpoints)@, method@, path@)].parameters
            matches Some(ps) && recorded_parameters(ps@, variable_count(path_segments(path@)))),
        exists|rd: ResponseDefinition| final(endpoints)@[upsert_index(old(endpoints)@, method@, path@)].responses@
            == upserted_responses(upsert_old_responses(old(endpoints)@, method@, path@), status, rd)
            && recorded_response_ok(rd, content_type@, body, pairs_view(headers@),
                previous_recorded(upsert_old_responses(old(endpoints)@, method@, path@), status), recorded_values_of(path@)),
{
    let (normalized, defs, values) = parameterize_path(path);
    let ghost olds = endpoints@;
    let ghost np = parameterized_path(path@);
    let ghost n = variable_count(path_segments(path@));
    proof {
        lemma_variable_values_len(path_segments(path@));
        lemma_first_keyed_bound(olds, method@, np);
        assert(values@.len() == n) by {
            assert(value_pairs_view(values@).len() == values@.len());
        }
    }
    let k = match find_keyed(endpoints, method, normalized.as_str()) {
        Some(k0) => k0,
        None => {
            endpoints.push(EndpointDefinition {
                kind: EndpointKind::Http,
                method: String::from_str(method),
                path: normalized.clone(),
                header_match: None,
                description: None,
                parameters: None,
                request_body: None,
                responses: Vec::new(),
                scenarios: None,
                stream: None,
            });
            endpoints.len() - 1
        },
    };
    let ghost mid = endpoints@;
    let mut ep = endpoints.remove(k);
    let ghost removed = endpoints@;
    ep.path = normalized;
    if defs.len() > 0 {
        ep.parameters = Some(defs);
    }
    let j = find_status(&ep.responses, status);
    let existing = match j {
        Some(jj) => recorded_metadata(&ep.responses[jj].1.headers),
        None => None,
    };
    let ghost prevv = match existing {
        Some(e) => Some(e@),
        None => None,
    };
    assert(prevv == previous_recorded(ep.responses@, status));
    let meta = merge_recorded_values(existing, &values);
    let mut table: StrMap<String> = StrMap::new();
    let mut i: usize = 0;
    while i < headers.len()
        invariant
            i <= headers@.len(),
            table.wf(),
            headers_view(table) == pairs_to_map(pairs_view(headers@).take(i as int)),
        decreases headers@.len() - i,
    {
        proof {
            assert(pairs_view(headers@).take(i + 1).drop_last() =~= pairs_view(headers@).take(i as int));
        }
        let ghost before = headers_view(table);
        table.insert(headers[i].0.clone(), headers[i].1.clone());
        assert(headers_view(table) =~= before.insert(headers@[i as int].0@, headers@[i as int].1@));
        i = i + 1;
    }
    assert(pairs_view(headers@).take(headers@.len() as int) =~= pairs_view(headers@));
    let ghost base = headers_view(table);
    match meta {
        Some(m) => {
            let ghost before = headers_view(table);
            let ghost mv = m@;
            table.insert(String::from_str("x-apicentric-recorded-path-params"), m);
            assert(headers_view(table) =~= before.insert(path_params_header(), mv));
        },
        None => {},
    }
    proof {
        table.lemma_view();
    }
    let headers_option = if table.is_empty() {
        proof {
            assert(headers_view(table).dom() =~= Set::<Seq<char>>::empty());
        }
        None
    } else {
        Some(pairs_of(&table))
    };
    proof {
        if headers_option is Some {
            let v = headers_option->0;
            assert(pairs_to_map(pairs_view(v@)).remove(path_params_header()) =~= base.remove(path_params_header()));
        }
    }
    let rd = ResponseDefinition {
        condition: None,
        content_type: String::from_str(content_type),
        body,
        schema: None,
        script: None,
        headers: headers_option,
        side_effects: None,
    };
    let ghost rdv = rd;
    let ghost old_rs = ep.responses@;
    match j {
        Some(jj) => {
            ep.responses.set(jj, (status, rd));
        },
        None => {
            ep.responses.push((status, rd));
        },
    }
    assert(ep.responses@ == upserted_responses(old_rs, status, rdv));
    proof {
        assert(recorded_response_ok(rdv, content_type@, body, pairs_view(headers@), prevv, value_pairs_view(values@)));
        if first_keyed(olds, method@, np) is Some {
            assert(mid == olds);
        }
    }
    let ghost epv = ep;
    endpoints.insert(k, ep);
    proof {
        assert(endpoints@[k as int] == epv);
        let news = endpoints@;
        let kk = match first_keyed(olds, method@, np) { Some(k0) => k0, None => olds.len() as int };
        assert(kk == k);
        assert(0 <= kk < news.len());
        assert(news[kk].method@ == method@);
        assert(news[kk].path@ == np);
        assert(n > 0 ==> (news[kk].parameters matches Some(ps) && recorded_parameters(ps@, n)));
        let old_rs2 = match first_keyed(olds, method@, np) { Some(k0) => olds[k0].responses@, None => Seq::empty() };
        assert(old_rs2 == old_rs);
        assert(news[kk].responses@ == upserted_responses(old_rs2, status, rdv));
        assert(recorded_response_ok(rdv, content_type@, body, pairs_view(headers@), prevv, value_pairs_view(values@)));
        assert(upsert_old_responses(olds, method@, path@) == old_rs2);
        assert(upsert_index(olds, method@, path@) == kk);
        assert(news[upsert_index(olds, method@, path@)].responses@
            == upserted_responses(upsert_old_responses(olds, method@, path@), status, rdv));
        if first_keyed(olds, method@, np) is None {
            assert(news.len() == olds.len() + 1);
            assert(news[kk].kind == EndpointKind::Http);
            assert(news[kk].header_match is None);
            assert(n == 0 ==> news[kk].parameters is None);
        } else {
            assert(news.len() == olds.len());
            assert(news[kk].kind == olds[kk].kind);
            assert(news[kk].header_match == olds[kk].header_match);
            assert(news[kk].stream == olds[kk].stream);
            assert(n == 0 ==> news[kk].parameters == olds[kk].parameters);
        }
        assert forall|jx: int| 0 <= jx < olds.len() && jx != k implies #[trigger] endpoints@[jx] == olds[jx] by {
            if jx < k {
                assert(endpoints@[jx] == removed[jx]);
                assert(removed[jx] == mid[jx]);
            } else {
                assert(endpoints@[jx] == removed[jx - 1]);
                assert(removed[jx - 1] == mid[jx]);
            }
        }
    }
}

/// The service written out at the end of a recording session.
pub fn recorded_service(endpoints: Vec<EndpointDefinition>) -> (s: ServiceDefinition)
    ensures
        s.name@ == "recorded_service"@,
        s.version is None,
        s.description matches Some(d) && d@ == "Recorded service"@,
        s.server.port is None,
        s.server.base_path@ == "/"@,
        s.server.proxy_base_url is None,
        s.server.cors is None,
        !s.server.record_unknown,
        s.models is None,
        s.fixtures is None,
        s.bucket is None,
        s.endpoints == endpoints,
        s.graphql is None,
        s.behavior is None,
{
    ServiceDefinition {
        name: String::from_str("recorded_service"),
        version: None,
        description: Some(String::from_str("Recorded service")),
        server: ServerConfig {
            port: None,
            base_path: String::from_str("/"),
            proxy_base_url: None,
            cors: None,
            record_unknown: false,
        },
        models: None,
        fixtures: None,
        bucket: None,
        endpoints,
        graphql: None,
        behavior: None,
    }
}

/// The URL a recorded request is forwarded to: the target without its
/// trailing slashes, then the request's path and query.
pub fn forward_url(target: &str, path_and_query: &str) -> (r: String)
    ensures
        r@ == crate::text::trimmed_end(target@, seq!['/']) + path_and_query@,
{
    let slash = ['/'];
    assert(slash@ =~= seq!['/']);
    let mut r = crate::text::trim_chars(target, &slash, false, true);
    r.append(path_and_query);
    r
}

/// The content type recorded for a reply: its `Content-Type` header, JSON
/// when it has none readable.
pub fn recorded_content_type(header: Option<&str>) -> (r: String)
    ensures
        r@ == match header {
            Some(h) => h@,
            None => "application/json"@,
        },
{
    match header {
        Some(h) => String::from_str(h),
        None => String::from_str("application/json"),
    }
}

} // verus!
