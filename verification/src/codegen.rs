//! Pieces shared by the client code generators: identifiers and URLs derived
//! from an endpoint's method and path.

use vstd::prelude::*;
use crate::config::EndpointDefinition;
use crate::text::{
    chars_of, char_to_uppercase, push_char, replace_all, replaced, split_segments, string_views,
    path_segments, to_lowercase, trim_chars, trimmed, trimmed_end, trimmed_start, unicode_lower,
    unicode_upper_char,
};

verus! {

/// The first character mapped to upper case, the rest unchanged.
pub open spec fn capitalized(s: Seq<char>) -> Seq<char> {
    if s.len() == 0 { Seq::empty() } else { unicode_upper_char(s[0]) + s.drop_first() }
}

/// A path segment of the form `{name}`.
pub open spec fn is_param_segment(s: Seq<char>) -> bool {
    s.len() >= 2 && s[0] == '{' && s.last() == '}'
}

/// The name inside a `{name}` segment.
pub open spec fn param_inner(s: Seq<char>) -> Seq<char> {
    s.subrange(1, s.len() - 1)
}

/// The parameter names of a path's `{name}` segments, in order.
pub open spec fn param_names(segs: Seq<Seq<char>>) -> Seq<Seq<char>>
    decreases segs.len(),
{
    if segs.len() == 0 {
        Seq::empty()
    } else if is_param_segment(segs.last()) {
        param_names(segs.drop_last()).push(param_inner(segs.last()))
    } else {
        param_names(segs.drop_last())
    }
}

/// The characters `{` and `}`.
pub open spec fn braces() -> Seq<char> {
    seq!['{', '}']
}

/// The identifier part made of a path: each segment without braces,
/// capitalized, all concatenated.
pub open spec fn path_part(segs: Seq<Seq<char>>) -> Seq<char>
    decreases segs.len(),
{
    if segs.len() == 0 {
        Seq::empty()
    } else {
        path_part(segs.drop_last()) + capitalized(trimmed(segs.last(), braces()))
    }
}

/// `{name}` replaced by `${name}` for each parameter, one after the other.
pub open spec fn templated(s: Seq<char>, params: Seq<Seq<char>>) -> Seq<char>
    decreases params.len(),
{
    if params.len() == 0 {
        s
    } else {
        let p = params.last();
        replaced(templated(s, params.drop_last()), "{"@ + p + "}"@, "${"@ + p + "}"@)
    }
}

/// The URL of an endpoint under a base path, with path parameters turned into
/// template-literal placeholders.
pub open spec fn url_of(base: Seq<char>, path: Seq<char>, params: Seq<Seq<char>>) -> Seq<char> {
    templated(trimmed_end(base, seq!['/']) + "/"@ + trimmed_start(path, seq!['/']), params)
}

/// The client method name of an endpoint: lower-case method then path part.
pub open spec fn method_name_of(method: Seq<char>, path: Seq<char>) -> Seq<char> {
    unicode_lower(method) + path_part(path_segments(path))
}

/// The hook name of an endpoint.
pub open spec fn hook_name_of(method: Seq<char>, path: Seq<char>, is_query: bool) -> Seq<char> {
    if is_query {
        "use"@ + path_part(path_segments(path)) + "Query"@
    } else {
        "use"@ + capitalized(unicode_lower(method)) + path_part(path_segments(path)) + "Mutation"@
    }
}

/// The first character of `s` upper-cased (`char::to_uppercase`), the rest
/// unchanged.
pub fn capitalize(s: &str) -> (r: String)
    ensures
        r@ == capitalized(s@),
{
    let v = chars_of(s);
    if v.len() == 0 {
        return String::new();
    }
    let mut r = char_to_uppercase(v[0]);
    let ghost head = r@;
    let mut i: usize = 1;
    while i < v.len()
        invariant
            1 <= i <= v@.len(),
            r@ == head + v@.subrange(1, i as int),
        decreases v@.len() - i,
    {
        push_char(&mut r, v[i]);
        i = i + 1;
        assert(r@ =~= head + v@.subrange(1, i as int));
    }
    assert(v@.subrange(1, v@.len() as int) =~= v@.drop_first());
    r
}

/// The names of the `{name}` segments of a path, in order.
pub fn path_params(path: &str) -> (r: Vec<String>)
    ensures
        string_views(r@) == param_names(path_segments(path@)),
{
    let segs = split_segments(path);
    let ghost sv = path_segments(path@);
    let mut out: Vec<String> = Vec::new();
    let mut i: usize = 0;
    while i < segs.len()
        invariant
            string_views(segs@) == sv,
            i <= segs@.len(),
            string_views(out@) == param_names(sv.take(i as int)),
        decreases segs@.len() - i,
    {
        proof {
            assert(sv.take(i + 1).drop_last() =~= sv.take(i as int));
            assert(sv.take(i + 1).last() == sv[i as int]);
            assert(sv[i as int] == segs@[i as int]@);
        }
        let v = chars_of(segs[i].as_str());
        let n = v.len();
        if n >= 2 && v[0] == '{' && v[n - 1] == '}' {
            let mut name = String::new();
            let mut k: usize = 1;
            while k < n - 1
                invariant
                    n == v@.len(),
                    n >= 2,
                    1 <= k <= n - 1,
                    name@ == v@.subrange(1, k as int),
                decreases n - 1 - k,
            {
                push_char(&mut name, v[k]);
                k = k + 1;
                assert(name@ =~= v@.subrange(1, k as int));
            }
            let ghost before = out@;
            out.push(name);
            assert(string_views(out@) =~= string_views(before).push(name@));
        }
        i = i + 1;
    }
    assert(sv.take(segs@.len() as int) =~= sv);
    out
}

/// `base` without trailing `/`, a `/`, `path` without leading `/`, and each
/// `{p}` replaced by `${p}`.
pub fn build_url(base_path: &str, path: &str, params: &Vec<String>) -> (r: String)
    ensures
        r@ == url_of(base_path@, path@, string_views(params@)),
{
    let slash = ['/'];
    let b = trim_chars(base_path, &slash, false, true);
    let p = trim_chars(path, &slash, true, false);
    assert(slash@ =~= seq!['/']);
    let mut full = b;
    full.append("/");
    full.append(p.as_str());
    let ghost start = full@;
    let ghost ps = string_views(params@);
    let mut i: usize = 0;
    while i < params.len()
        invariant
            i <= params@.len(),
            ps == string_views(params@),
            full@ == templated(start, ps.take(i as int)),
        decreases params@.len() - i,
    {
        proof {
            assert(ps.take(i + 1).drop_last() =~= ps.take(i as int));
            assert(ps.take(i + 1).last() == params@[i as int]@);
        }
        let mut from = String::from_str("{");
        from.append(params[i].as_str());
        from.append("}");
        let mut to = String::from_str("${");
        to.append(params[i].as_str());
        to.append("}");
        full = replace_all(full.as_str(), from.as_str(), to.as_str());
        i = i + 1;
    }
    assert(ps.take(params@.len() as int) =~= ps);
    full
}

/// The concatenated, capitalized segments of a path, braces removed.
pub fn path_identifier(path: &str) -> (r: String)
    ensures
        r@ == path_part(path_segments(path@)),
{
    let segs = split_segments(path);
    let ghost sv = path_segments(path@);
    let br = ['{', '}'];
    assert(br@ =~= braces());
    let mut out = String::new();
    let mut i: usize = 0;
    while i < segs.len()
        invariant
            string_views(segs@) == sv,
            br@ == braces(),
            i <= segs@.len(),
            out@ == path_part(sv.take(i as int)),
        decreases segs@.len() - i,
    {
        proof {
            assert(sv.take(i + 1).drop_last() =~= sv.take(i as int));
            assert(sv.take(i + 1).last() == segs@[i as int]@);
        }
        let t = trim_chars(segs[i].as_str(), &br, true, true);
        let c = capitalize(t.as_str());
        out.append(c.as_str());
        i = i + 1;
    }
    assert(sv.take(segs@.len() as int) =~= sv);
    out
}

/// The name of the client method for an endpoint: `get`, `post`, ... followed
/// by the path identifier.
pub fn method_name(ep: &EndpointDefinition) -> (r: String)
    ensures
        r@ == method_name_of(ep.method@, ep.path@),
{
    let mut r = to_lowercase(ep.method.as_str());
    let p = path_identifier(ep.path.as_str());
    r.append(p.as_str());
    r
}

/// The React Query hook name for an endpoint.
pub fn hook_name(ep: &EndpointDefinition, is_query: bool) -> (r: String)
    ensures
        r@ == hook_name_of(ep.method@, ep.path@, is_query),
{
    let p = path_identifier(ep.path.as_str());
    let mut r = String::from_str("use");
    if is_query {
        r.append(p.as_str());
        r.append("Query");
    } else {
        let m = to_lowercase(ep.method.as_str());
        let cm = capitalize(m.as_str());
        r.append(cm.as_str());
        r.append(p.as_str());
        r.append("Mutation");
    }
    r
}

} // verus!
