//! Matching requests against a service's endpoints: path patterns with
//! `{name}` parameters, header conditions, and definition consistency.

use vstd::prelude::*;
use crate::config::{EndpointDefinition, ServiceDefinition};
use crate::routing::{PathParameters, RouteMatch};
use crate::strmap::StrMap;
use crate::text::{chars_of, push_char, string_views};

verus! {

/// Position of the first `}` in `s`, or its length when there is none.
pub open spec fn first_close(s: Seq<char>) -> nat
    decreases s.len(),
{
    if s.len() == 0 {
        0
    } else if s[0] == '}' {
        0
    } else {
        1 + first_close(s.drop_first())
    }
}

/// Where the first closing brace lies.
pub proof fn lemma_first_close_bound(s: Seq<char>)
    ensures
        first_close(s) <= s.len(),
        first_close(s) < s.len() ==> s[first_close(s) as int] == '}',
        forall|t: int| 0 <= t < first_close(s) ==> s[t] != '}',
    decreases s.len(),
{
    if s.len() > 0 && s[0] != '}' {
        lemma_first_close_bound(s.drop_first());
        assert forall|t: int| 0 <= t < first_close(s) implies s[t] != '}' by {
            if t > 0 {
                assert(s[t] == s.drop_first()[t - 1]);
            }
        }
        if first_close(s) < s.len() {
            assert(s[first_close(s) as int] == s.drop_first()[first_close(s.drop_first()) as int]);
        }
    }
}

/// Characters with a meaning in regular expressions, escaped in patterns.
pub open spec fn is_regex_special(c: char) -> bool {
    c == '.' || c == '^' || c == '$' || c == '*' || c == '+' || c == '?' || c == '(' || c == ')' || c == '['
        || c == ']' || c == '|' || c == '\\'
}

/// The named group that captures one path segment as parameter `name`.
pub open spec fn group_for(name: Seq<char>) -> Seq<char> {
    if name.len() == 0 {
        Seq::empty()
    } else {
        "(?P<"@ + name + ">[^/]+)"@
    }
}

/// The body of the regular expression of an endpoint path: `{name}` becomes
/// a named group matching one segment (an unclosed brace runs to the end),
/// special characters are escaped, other characters stay.
pub open spec fn regex_body(p: Seq<char>) -> Seq<char>
    decreases p.len(),
{
    if p.len() == 0 {
        Seq::empty()
    } else if p[0] == '{' {
        let rest = p.drop_first();
        let k = first_close(rest);
        proof {
            lemma_first_close_bound(rest);
        }
        let after = if k < rest.len() { rest.skip(k + 1int) } else { Seq::empty() };
        group_for(rest.take(k as int)) + regex_body(after)
    } else if is_regex_special(p[0]) {
        seq!['\\', p[0]] + regex_body(p.drop_first())
    } else {
        seq![p[0]] + regex_body(p.drop_first())
    }
}

/// The regular expression matching exactly the paths of an endpoint pattern.
pub open spec fn endpoint_regex(p: Seq<char>) -> Seq<char> {
    "^"@ + regex_body(p) + "$"@
}

proof fn lemma_first_close_at(v: Seq<char>, a: int, j: int)
    requires
        0 <= a <= j <= v.len(),
        forall|t: int| a <= t < j ==> v[t] != '}',
        j == v.len() || v[j] == '}',
    ensures
        first_close(v.skip(a)) == j - a,
    decreases j - a,
{
    let s = v.skip(a);
    if a < j {
        assert(s[0] == v[a]);
        assert(s.drop_first() =~= v.skip(a + 1));
        lemma_first_close_at(v, a + 1, j);
    } else if j < v.len() {
        assert(s[0] == v[j]);
    }
}

/// Convert an endpoint path pattern to a regex pattern anchored at both ends.
pub fn endpoint_path_to_regex_static(endpoint_path: &str) -> (r: String)
    ensures
        r@ == endpoint_regex(endpoint_path@),
{
    let v = chars_of(endpoint_path);
    let n = v.len();
    let mut out = String::new();
    let mut i: usize = 0;
    assert(v@.skip(0) =~= v@);
    while i < n
        invariant
            n == v@.len(),
            i <= n,
            out@ + regex_body(v@.skip(i as int)) == regex_body(v@),
        decreases n - i,
    {
        let ch = v[i];
        let ghost before = out@;
        let ghost s = v@.skip(i as int);
        assert(s[0] == ch);
        if ch == '{' {
            let mut name = String::new();
            let mut j: usize = i + 1;
            while j < n && v[j] != '}'
                invariant
                    n == v@.len(),
                    i < j <= n,
                    name@ == v@.subrange(i + 1, j as int),
                    forall|t: int| i + 1 <= t < j ==> v@[t] != '}',
                decreases n - j,
            {
                push_char(&mut name, v[j]);
                j = j + 1;
                assert(name@ =~= v@.subrange(i + 1, j as int));
            }
            proof {
                lemma_first_close_at(v@, i + 1, j as int);
                let rest = s.drop_first();
                assert(rest =~= v@.skip(i + 1));
                assert(rest.take((j - i - 1) as int) =~= name@);
                if j < n {
                    assert(rest.skip((j - i - 1) + 1) =~= v@.skip(j + 1));
                } else {
                    assert(v@.skip(n as int) =~= Seq::<char>::empty());
                }
            }
            if name.as_str().unicode_len() > 0 {
                out.append("(?P<");
                out.append(name.as_str());
                out.append(">[^/]+)");
            }
            let next = if j < n { j + 1 } else { n };
            proof {
                assert(out@ =~= before + group_for(name@));
            }
            i = next;
        } else if ch == '.' || ch == '^' || ch == '$' || ch == '*' || ch == '+' || ch == '?' || ch == '('
            || ch == ')' || ch == '[' || ch == ']' || ch == '|' || ch == '\\' {
            push_char(&mut out, '\\');
            push_char(&mut out, ch);
            proof {
                assert(s.drop_first() =~= v@.skip(i + 1));
                assert(out@ =~= before + seq!['\\', ch]);
            }
            i = i + 1;
        } else {
            push_char(&mut out, ch);
            proof {
                assert(s.drop_first() =~= v@.skip(i + 1));
            }
            i = i + 1;
        }
    }
    proof {
        assert(v@.skip(n as int) =~= Seq::<char>::empty());
        assert(out@ =~= regex_body(v@));
    }
    let mut r = String::from_str("^");
    r.append(out.as_str());
    r.append("$");
    r
}

/// What matching `pattern` against `text` yields: `None` when the pattern
/// does not compile, `Some(None)` when the text does not match, and otherwise
/// the named groups that took part in the match with the text each captured,
/// in the order of the group names.
pub uninterp spec fn regex_named_captures(pattern: Seq<char>, text: Seq<char>) -> Option<Option<Seq<(Seq<char>, Seq<char>)>>>;

/// The views of a list of string pairs.
pub open spec fn pairs_view(v: Seq<(String, String)>) -> Seq<(Seq<char>, Seq<char>)> {
    v.map_values(|p: (String, String)| (p.0@, p.1@))
}

/// The view of a capture result.
pub open spec fn captures_view(c: Option<Option<Vec<(String, String)>>>) -> Option<Option<Seq<(Seq<char>, Seq<char>)>>> {
    match c {
        None => None,
        Some(None) => Some(None),
        Some(Some(v)) => Some(Some(pairs_view(v@))),
    }
}

/// Compiles `pattern` with the `regex` crate and matches it against `text`,
/// listing the named groups that took part in the match.
#[verifier::external_body]
fn regex_captures(pattern: &str, text: &str) -> (r: Option<Option<Vec<(String, String)>>>)
    ensures
        captures_view(r) == regex_named_captures(pattern@, text@),
{
    let re = match regex::Regex::new(pattern) {
        Ok(re) => re,
        Err(_) => return None,
    };
    let caps = match re.captures(text) {
        Some(c) => c,
        None => return Some(None),
    };
    let mut out = Vec::new();
    for name in re.capture_names().flatten() {
        if let Some(m) = caps.name(name) {
            out.push((name.to_string(), m.as_str().to_string()));
        }
    }
    Some(Some(out))
}

/// The map built from name/value pairs, a later pair replacing an earlier
/// one of the same name.
pub open spec fn pairs_to_map(s: Seq<(Seq<char>, Seq<char>)>) -> Map<Seq<char>, Seq<char>>
    decreases s.len(),
{
    if s.len() == 0 {
        Map::empty()
    } else {
        pairs_to_map(s.drop_last()).insert(s.last().0, s.last().1)
    }
}

/// The parameters of a request path from the outcome of matching it: the
/// captured groups; no parameters when the path did not match; and when the
/// pattern did not compile, an empty set exactly when the paths are equal.
pub open spec fn params_from_captures_spec(endpoint_path: Seq<char>, request_path: Seq<char>,
    captures: Option<Option<Seq<(Seq<char>, Seq<char>)>>>) -> Option<Map<Seq<char>, Seq<char>>> {
    match captures {
        Some(Some(pairs)) => Some(pairs_to_map(pairs)),
        Some(None) => None,
        None => if endpoint_path == request_path { Some(Map::empty()) } else { None },
    }
}

/// The path parameters of `request_path` under the endpoint pattern
/// `endpoint_path`, if it matches.
pub open spec fn path_params_spec(endpoint_path: Seq<char>, request_path: Seq<char>) -> Option<Map<Seq<char>, Seq<char>>> {
    params_from_captures_spec(endpoint_path, request_path,
        regex_named_captures(endpoint_regex(endpoint_path), request_path))
}

/// Builds the path parameters from the outcome of matching a request path.
pub fn params_from_captures(endpoint_path: &str, request_path: &str,
    captures: Option<Option<Vec<(String, String)>>>) -> (r: Option<PathParameters>)
    ensures
        match r {
            Some(p) => p.wf() && params_from_captures_spec(endpoint_path@, request_path@, captures_view(captures)) == Some(p@),
            None => params_from_captures_spec(endpoint_path@, request_path@, captures_view(captures)) is None,
        },
{
    match captures {
        Some(Some(pairs)) => {
            let mut params = PathParameters::new();
            let mut i: usize = 0;
            while i < pairs.len()
                invariant
                    i <= pairs@.len(),
                    params.wf(),
                    params@ == pairs_to_map(pairs_view(pairs@).take(i as int)),
                decreases pairs@.len() - i,
            {
                let k = pairs[i].0.clone();
                let v = pairs[i].1.clone();
                params.insert(k, v);
                proof {
                    let pv = pairs_view(pairs@);
                    assert(pv.take(i + 1).drop_last() =~= pv.take(i as int));
                }
                i = i + 1;
            }
            assert(pairs_view(pairs@).take(pairs@.len() as int) =~= pairs_view(pairs@));
            Some(params)
        },
        Some(None) => None,
        None => {
            if crate::text::str_eq(endpoint_path, request_path) {
                Some(PathParameters::new())
            } else {
                None
            }
        },
    }
}

/// Extract path parameters from a request path against an endpoint path
/// pattern.
pub fn extract_path_parameters_static(endpoint_path: &str, request_path: &str) -> (r: Option<PathParameters>)
    ensures
        match r {
            Some(p) => p.wf() && path_params_spec(endpoint_path@, request_path@) == Some(p@),
            None => path_params_spec(endpoint_path@, request_path@) is None,
        },
{
    let pattern = endpoint_path_to_regex_static(endpoint_path);
    let captures = regex_captures(pattern.as_str(), request_path);
    params_from_captures(endpoint_path, request_path, captures)
}

/// The request headers satisfy the endpoint's header conditions: each
/// required header, looked up by its lower-cased name, equals the required
/// value up to ASCII case.
pub open spec fn headers_match_spec(header_match: Option<Seq<(Seq<char>, Seq<char>)>>, headers: Map<Seq<char>, Seq<char>>) -> bool {
    match header_match {
        None => true,
        Some(required) => all_headers_ok(required, headers),
    }
}

/// Every required header is present with its value.
pub open spec fn all_headers_ok(required: Seq<(Seq<char>, Seq<char>)>, headers: Map<Seq<char>, Seq<char>>) -> bool {
    forall|i: int| 0 <= i < required.len() ==> header_ok(#[trigger] required[i], headers)
}

/// One required header is present, by its lower-cased name, with the
/// required value up to ASCII case.
pub open spec fn header_ok(required: (Seq<char>, Seq<char>), headers: Map<Seq<char>, Seq<char>>) -> bool {
    let k = crate::text::unicode_lower(required.0);
    headers.contains_key(k) && crate::text::eq_ignore_ascii_case_spec(headers[k], required.1)
}

/// The header conditions of an endpoint as plain values.
pub open spec fn header_match_view(e: EndpointDefinition) -> Option<Seq<(Seq<char>, Seq<char>)>> {
    match e.header_match {
        Some(v) => Some(pairs_view(v@)),
        None => None,
    }
}

/// The view of a header table.
pub open spec fn headers_view(h: StrMap<String>) -> Map<Seq<char>, Seq<char>> {
    h@.map_values(|v: String| v@)
}

/// Check if request headers satisfy an endpoint's header_match criteria.
pub fn headers_match(endpoint: &EndpointDefinition, headers: &StrMap<String>) -> (b: bool)
    requires
        headers.wf(),
    ensures
        b == headers_match_spec(header_match_view(*endpoint), headers_view(*headers)),
{
    match &endpoint.header_match {
        None => true,
        Some(required) => {
            let ghost rv = pairs_view(required@);
            let mut i: usize = 0;
            while i < required.len()
                invariant
                    headers.wf(),
                    rv == pairs_view(required@),
                    header_match_view(*endpoint) == Some(rv),
                    i <= required@.len(),
                    forall|j: int| 0 <= j < i ==> #[trigger] header_ok(rv[j], headers_view(*headers)),
                decreases required@.len() - i,
            {
                let key = crate::text::to_lowercase(required[i].0.as_str());
                assert(rv[i as int] == (required@[i as int].0@, required@[i as int].1@));
                match headers.get(key.as_str()) {
                    Some(val) => {
                        assert(headers_view(*headers)[key@] == val@);
                        if !crate::text::eq_ignore_ascii_case(val.as_str(), required[i].1.as_str()) {
                            assert(!headers_match_spec(header_match_view(*endpoint), headers_view(*headers))) by {
                                let j = i as int;
                                let hv = headers_view(*headers);
                                assert(crate::text::unicode_lower(rv[j].0) == key@);
                                assert(rv[j].1 == required@[j].1@);
                                assert(!header_ok(rv[j], hv));
                                assert(j < rv.len());
                                assert(header_match_view(*endpoint) == Some(rv));
                                assert(!all_headers_ok(rv, hv));
                            }
                            return false;
                        }
                    },
                    None => {
                        assert(!headers_match_spec(header_match_view(*endpoint), headers_view(*headers))) by {
                            let j = i as int;
                            let hv = headers_view(*headers);
                            assert(crate::text::unicode_lower(rv[j].0) == key@);
                            assert(!hv.contains_key(key@));
                            assert(!header_ok(rv[j], hv));
                            assert(!all_headers_ok(rv, hv));
                        }
                        return false;
                    },
                }
                proof {
                    let hv = headers_view(*headers);
                    let j = i as int;
                    assert(crate::text::unicode_lower(rv[j].0) == key@);
                    assert(header_ok(rv[j], hv));
                }
                i = i + 1;
            }
            true
        },
    }
}

/// An endpoint answers a request: same method up to case, header conditions
/// met, and the path matches its pattern.
pub open spec fn endpoint_matches(e: EndpointDefinition, method: Seq<char>, path: Seq<char>, headers: Map<Seq<char>, Seq<char>>) -> bool {
    &&& crate::text::unicode_upper(e.method@) == crate::text::unicode_upper(method)
    &&& headers_match_spec(header_match_view(e), headers)
    &&& path_params_spec(e.path@, path) is Some
}

/// A copy of an endpoint definition.
pub fn clone_endpoint(e: &EndpointDefinition) -> (r: EndpointDefinition)
    ensures
        r.kind == e.kind,
        r.method@ == e.method@,
        r.path@ == e.path@,
        header_match_view(r) == header_match_view(*e),
        r.description == e.description,
{
    let header_match = match &e.header_match {
        Some(v) => {
            let mut out: Vec<(String, String)> = Vec::new();
            let mut i: usize = 0;
            while i < v.len()
                invariant
                    i <= v@.len(),
                    pairs_view(out@) == pairs_view(v@).take(i as int),
                decreases v@.len() - i,
            {
                let a = v[i].0.clone();
                let b = v[i].1.clone();
                assert(a@ == v@[i as int].0@ && b@ == v@[i as int].1@);
                let ghost before = out@;
                out.push((a, b));
                assert(out@ == before.push((a, b)));
                assert(pairs_view(out@) =~= pairs_view(before).push((a@, b@)));
                assert(pairs_view(v@).take(i + 1) =~= pairs_view(v@).take(i as int).push(pairs_view(v@)[i as int]));
                assert(pairs_view(out@) =~= pairs_view(v@).take(i + 1));
                i = i + 1;
            }
            assert(pairs_view(v@).take(v@.len() as int) =~= pairs_view(v@));
            Some(out)
        },
        None => None,
    };
    let description = match &e.description {
        Some(d) => Some(d.clone()),
        None => None,
    };
    EndpointDefinition {
        kind: e.kind,
        method: e.method.clone(),
        path: e.path.clone(),
        header_match,
        description,
        parameters: e.parameters.clone(),
        request_body: e.request_body.clone(),
        responses: e.responses.clone(),
        scenarios: e.scenarios.clone(),
        stream: e.stream.clone(),
    }
}

/// Find the first endpoint answering a request, with the parameters taken
/// from its path.
pub fn find_endpoint_with_params_static(endpoints: &[EndpointDefinition], method: &str, path: &str,
    headers: &StrMap<String>) -> (r: Option<RouteMatch>)
    requires
        headers.wf(),
    ensures
        match r {
            Some(m) => {
                &&& m.endpoint_index < endpoints@.len()
                &&& endpoint_matches(endpoints@[m.endpoint_index as int], method@, path@, headers_view(*headers))
                &&& forall|j: int| 0 <= j < m.endpoint_index ==> !endpoint_matches(#[trigger] endpoints@[j], method@, path@, headers_view(*headers))
                &&& m.endpoint.method@ == endpoints@[m.endpoint_index as int].method@
                &&& m.endpoint.path@ == endpoints@[m.endpoint_index as int].path@
                &&& m.path_params.wf()
                &&& path_params_spec(endpoints@[m.endpoint_index as int].path@, path@) == Some(m.path_params@)
            },
            None => forall|j: int| 0 <= j < endpoints@.len() ==> !endpoint_matches(#[trigger] endpoints@[j], method@, path@, headers_view(*headers)),
        },
{
    let upper_method = crate::text::to_uppercase(method);
    let mut i: usize = 0;
    while i < endpoints.len()
        invariant
            headers.wf(),
            i <= endpoints@.len(),
            upper_method@ == crate::text::unicode_upper(method@),
            forall|j: int| 0 <= j < i ==> !endpoint_matches(#[trigger] endpoints@[j], method@, path@, headers_view(*headers)),
        decreases endpoints@.len() - i,
    {
        let endpoint = &endpoints[i];
        let em = crate::text::to_uppercase(endpoint.method.as_str());
        if crate::text::str_eq(em.as_str(), upper_method.as_str()) && headers_match(endpoint, headers) {
            if let Some(path_params) = extract_path_parameters_static(endpoint.path.as_str(), path) {
                return Some(RouteMatch { endpoint: clone_endpoint(endpoint), endpoint_index: i, path_params });
            }
        }
        i = i + 1;
    }
    None
}

/// Find the first endpoint of a service answering a request.
pub fn find_endpoint<'a>(definition: &'a ServiceDefinition, method: &str, path: &str, headers: &StrMap<String>) -> (r: Option<&'a EndpointDefinition>)
    requires
        headers.wf(),
    ensures
        match r {
            Some(e) => exists|i: int| 0 <= i < definition.endpoints@.len() && *e == definition.endpoints@[i]
                && endpoint_matches(definition.endpoints@[i], method@, path@, headers_view(*headers))
                && forall|j: int| 0 <= j < i ==> !endpoint_matches(#[trigger] definition.endpoints@[j], method@, path@, headers_view(*headers)),
            None => forall|j: int| 0 <= j < definition.endpoints@.len() ==> !endpoint_matches(#[trigger] definition.endpoints@[j], method@, path@, headers_view(*headers)),
        },
{
    match find_endpoint_with_params_static(definition.endpoints.as_slice(), method, path, headers) {
        Some(m) => Some(&definition.endpoints[m.endpoint_index]),
        None => None,
    }
}


/// An endpoint with header conditions answers no request that carries a
/// required header (looked up by its lower-cased name) with another value
/// than the one required, ASCII case aside: whatever the method and path,
/// the header's presence is not enough, its value decides.
pub proof fn lemma_header_value_decides(e: EndpointDefinition, method: Seq<char>, path: Seq<char>,
    headers: Map<Seq<char>, Seq<char>>, j: int)
    requires
        e.header_match matches Some(v) && 0 <= j < v@.len()
            && headers.contains_key(crate::text::unicode_lower(v@[j].0@))
            && crate::text::ascii_lower_seq(headers[crate::text::unicode_lower(v@[j].0@)])
                != crate::text::ascii_lower_seq(v@[j].1@),
    ensures
        !headers_match_spec(header_match_view(e), headers),
        !endpoint_matches(e, method, path, headers),
{
    let v = e.header_match->0;
    let rv = pairs_view(v@);
    assert(rv[j] == (v@[j].0@, v@[j].1@));
    assert(!header_ok(rv[j], headers));
}

/// An endpoint's header conditions are met by a request that carries every
/// required header (by its lower-cased name) with the required value, ASCII
/// case aside, whatever else it carries.
pub proof fn lemma_required_headers_suffice(e: EndpointDefinition, headers: Map<Seq<char>, Seq<char>>)
    requires
        e.header_match matches Some(v) ==> forall|j: int| 0 <= j < v@.len() ==> {
            let k = crate::text::unicode_lower(#[trigger] v@[j].0@);
            headers.contains_key(k) && crate::text::ascii_lower_seq(headers[k]) == crate::text::ascii_lower_seq(v@[j].1@)
        },
    ensures
        headers_match_spec(header_match_view(e), headers),
{
    if let Some(v) = e.header_match {
        let rv = pairs_view(v@);
        assert forall|i: int| 0 <= i < rv.len() implies header_ok(#[trigger] rv[i], headers) by {
            assert(rv[i] == (v@[i].0@, v@[i].1@));
        }
    }
}

} // verus!
