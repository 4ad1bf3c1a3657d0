//! TanStack Query hook generation: a `useQuery` hook for each GET endpoint
//! and a `useMutation` hook for every other HTTP endpoint.

use vstd::prelude::*;
use crate::codegen::{build_url, hook_name, hook_name_of, param_names, path_params, url_of};
use crate::config::{EndpointDefinition, EndpointKind, ServiceDefinition};
use crate::text::{
    eq_ignore_ascii_case, eq_ignore_ascii_case_spec, path_segments, string_views, to_uppercase,
    unicode_upper,
};

verus! {

/// `, p1: string, p2: string...`
pub open spec fn hook_param_list(ps: Seq<Seq<char>>) -> Seq<char>
    decreases ps.len(),
{
    if ps.len() == 0 {
        Seq::empty()
    } else {
        hook_param_list(ps.drop_last()) + ", "@ + ps.last() + ": string"@
    }
}

/// The `useQuery` hook of a GET endpoint.
pub open spec fn query_hook_of(method: Seq<char>, path: Seq<char>, base: Seq<char>) -> Seq<char> {
    let ps = param_names(path_segments(path));
    "export function "@ + hook_name_of(method, path, true) + "(baseUrl: string"@ + hook_param_list(ps)
        + ") {\n    return useQuery(['"@ + unicode_upper(method) + "','"@ + path
        + "'], () => fetch(`${baseUrl}"@ + url_of(base, path, ps)
        + "`).then(res => res.json()));\n}\n"@
}

/// The `useMutation` hook of a non-GET endpoint.
pub open spec fn mutation_hook_of(method: Seq<char>, path: Seq<char>, base: Seq<char>) -> Seq<char> {
    let ps = param_names(path_segments(path));
    "export function "@ + hook_name_of(method, path, false) + "(baseUrl: string"@
        + hook_param_list(ps) + ") {\n    return useMutation((body: any) =>\n        fetch(`${baseUrl}"@
        + url_of(base, path, ps) + "`, { method: '"@ + unicode_upper(method)
        + "', body: JSON.stringify(body) }).then(res => res.json())\n    );\n}\n"@
}

/// Whether an endpoint's method is GET, ignoring ASCII case.
pub open spec fn is_get(method: Seq<char>) -> bool {
    eq_ignore_ascii_case_spec(method, "GET"@)
}

/// The hooks of all HTTP endpoints, each followed by a blank line.
pub open spec fn hooks_text(eps: Seq<EndpointDefinition>, base: Seq<char>) -> Seq<char>
    decreases eps.len(),
{
    if eps.len() == 0 {
        Seq::empty()
    } else if eps.last().kind == EndpointKind::Http {
        let ep = eps.last();
        hooks_text(eps.drop_last(), base) + (if is_get(ep.method@) {
            query_hook_of(ep.method@, ep.path@, base)
        } else {
            mutation_hook_of(ep.method@, ep.path@, base)
        }) + "\n"@
    } else {
        hooks_text(eps.drop_last(), base)
    }
}

/// The whole generated hooks module.
pub open spec fn react_query_text(s: ServiceDefinition) -> Seq<char> {
    "import { useQuery, useMutation } from '@tanstack/react-query';\n\n"@ + hooks_text(
        s.endpoints@,
        s.server.base_path@,
    )
}

/// The extra hook parameters: `, p: string` for each path parameter.
pub fn format_params(params: &Vec<String>) -> (r: String)
    ensures
        r@ == hook_param_list(string_views(params@)),
{
    let ghost ps = string_views(params@);
    let mut out = String::new();
    let mut i: usize = 0;
    while i < params.len()
        invariant
            i <= params@.len(),
            ps == string_views(params@),
            out@ == hook_param_list(ps.take(i as int)),
        decreases params@.len() - i,
    {
        proof {
            assert(ps.take(i + 1).drop_last() =~= ps.take(i as int));
            assert(ps.take(i + 1).last() == params@[i as int]@);
        }
        out.append(", ");
        out.append(params[i].as_str());
        out.append(": string");
        i = i + 1;
    }
    assert(ps.take(params@.len() as int) =~= ps);
    out
}

/// The `useQuery` hook of an endpoint.
pub fn generate_query_hook(ep: &EndpointDefinition, base_path: &str) -> (r: String)
    ensures
        r@ == query_hook_of(ep.method@, ep.path@, base_path@),
{
    let name = hook_name(ep, true);
    let params = path_params(ep.path.as_str());
    let param_list = format_params(&params);
    let url = build_url(base_path, ep.path.as_str(), &params);
    let method = to_uppercase(ep.method.as_str());
    let mut r = String::from_str("export function ");
    r.append(name.as_str());
    r.append("(baseUrl: string");
    r.append(param_list.as_str());
    r.append(") {\n    return useQuery(['");
    r.append(method.as_str());
    r.append("','");
    r.append(ep.path.as_str());
    r.append("'], () => fetch(`${baseUrl}");
    r.append(url.as_str());
    r.append("`).then(res => res.json()));\n}\n");
    r
}

/// The `useMutation` hook of an endpoint.
pub fn generate_mutation_hook(ep: &EndpointDefinition, base_path: &str) -> (r: String)
    ensures
        r@ == mutation_hook_of(ep.method@, ep.path@, base_path@),
{
    let name = hook_name(ep, false);
    let params = path_params(ep.path.as_str());
    let param_list = format_params(&params);
    let url = build_url(base_path, ep.path.as_str(), &params);
    let method = to_uppercase(ep.method.as_str());
    let mut r = String::from_str("export function ");
    r.append(name.as_str());
    r.append("(baseUrl: string");
    r.append(param_list.as_str());
    r.append(") {\n    return useMutation((body: any) =>\n        fetch(`${baseUrl}");
    r.append(url.as_str());
    r.append("`, { method: '");
    r.append(method.as_str());
    r.append("', body: JSON.stringify(body) }).then(res => res.json())\n    );\n}\n");
    r
}

/// Generates the TanStack Query hooks of a service: `useQuery` for GET
/// endpoints, `useMutation` for the other HTTP endpoints. Generation cannot
/// fail.
pub fn to_react_query(service: &ServiceDefinition) -> (r: Result<String, String>)
    ensures
        r matches Ok(text) && text@ == react_query_text(*service),
{
    let mut out = String::from_str("import { useQuery, useMutation } from '@tanstack/react-query';\n\n");
    let ghost head = out@;
    let eps = &service.endpoints;
    let base = service.server.base_path.as_str();
    let mut i: usize = 0;
    while i < eps.len()
        invariant
            i <= eps@.len(),
            eps@ == service.endpoints@,
            base@ == service.server.base_path@,
            head == "import { useQuery, useMutation } from '@tanstack/react-query';\n\n"@,
            out@ == head + hooks_text(eps@.take(i as int), base@),
        decreases eps@.len() - i,
    {
        proof {
            assert(eps@.take(i + 1).drop_last() =~= eps@.take(i as int));
            assert(eps@.take(i + 1).last() == eps@[i as int]);
        }
        match eps[i].kind {
            EndpointKind::Http => {
                let hook = if eq_ignore_ascii_case(eps[i].method.as_str(), "GET") {
                    generate_query_hook(&eps[i], base)
                } else {
                    generate_mutation_hook(&eps[i], base)
                };
                out.append(hook.as_str());
                out.append("\n");
                assert(out@ =~= head + hooks_text(eps@.take(i + 1), base@));
            },
            _ => {},
        }
        i = i + 1;
    }
    assert(eps@.take(eps@.len() as int) =~= eps@);
    Ok(out)
}

} // verus!
