//! TypeScript client generation: one axios-based class per service, one
//! method per HTTP endpoint.

use vstd::prelude::*;
use crate::codegen::{
    build_url, capitalize, capitalized, method_name, method_name_of, param_names, path_params,
    url_of,
};
use crate::config::{EndpointDefinition, EndpointKind, ServiceDefinition};
use crate::text::{path_segments, str_eq, string_views, to_lowercase, unicode_lower};

verus! {

/// `p1: string, p2: string, ...`
pub open spec fn axios_param_list(ps: Seq<Seq<char>>) -> Seq<char>
    decreases ps.len(),
{
    if ps.len() == 0 {
        Seq::empty()
    } else if ps.len() == 1 {
        ps[0] + ": string"@
    } else {
        axios_param_list(ps.drop_last()) + ", "@ + ps.last() + ": string"@
    }
}

/// The client method generated for an endpoint.
pub open spec fn client_method_of(method: Seq<char>, path: Seq<char>, base: Seq<char>) -> Seq<char> {
    let name = method_name_of(method, path);
    let ps = param_names(path_segments(path));
    let pl = axios_param_list(ps);
    let url = url_of(base, path, ps);
    let hm = unicode_lower(method);
    if hm == "get"@ || hm == "delete"@ {
        "  async "@ + name + "("@ + pl + "): Promise<any> {\n"@ + "    return this.client."@ + hm
            + "(`"@ + url + "`);\n"@ + "  }\n"@
    } else {
        let body_param = if pl.len() == 0 { "data?: any"@ } else { ", data?: any"@ };
        "  async "@ + name + "("@ + pl + body_param + "): Promise<any> {\n"@
            + "    return this.client."@ + hm + "(`"@ + url + "`, data);\n"@ + "  }\n"@
    }
}

/// The methods of all HTTP endpoints, each followed by a blank line.
pub open spec fn client_methods(eps: Seq<EndpointDefinition>, base: Seq<char>) -> Seq<char>
    decreases eps.len(),
{
    if eps.len() == 0 {
        Seq::empty()
    } else if eps.last().kind == EndpointKind::Http {
        client_methods(eps.drop_last(), base) + client_method_of(eps.last().method@, eps.last().path@, base)
            + "\n"@
    } else {
        client_methods(eps.drop_last(), base)
    }
}

/// The opening of the client class, up to its methods.
pub open spec fn client_header(name: Seq<char>) -> Seq<char> {
    "import axios, { AxiosInstance, AxiosRequestConfig } from 'axios';\n\n"@ + "export class "@
        + capitalized(name) + "Client"@ + " {\n"@ + "  private client: AxiosInstance;\n\n"@
        + "  constructor(baseURL: string, config?: AxiosRequestConfig) {\n"@
        + "    this.client = axios.create({\n"@ + "      baseURL,\n"@ + "      ...config,\n"@
        + "    });\n"@ + "  }\n\n"@
}

/// The whole generated client module.
pub open spec fn axios_client_text(s: ServiceDefinition) -> Seq<char> {
    client_header(s.name@) + client_methods(s.endpoints@, s.server.base_path@) + "}\n"@
}

/// The parameter list of a client method: `p: string` joined with `, `.
pub fn format_params(params: &Vec<String>) -> (r: String)
    ensures
        r@ == axios_param_list(string_views(params@)),
{
    let ghost ps = string_views(params@);
    let mut out = String::new();
    let mut i: usize = 0;
    while i < params.len()
        invariant
            i <= params@.len(),
            ps == string_views(params@),
            out@ == axios_param_list(ps.take(i as int)),
        decreases params@.len() - i,
    {
        proof {
            assert(ps.take(i + 1).drop_last() =~= ps.take(i as int));
            assert(ps.take(i + 1).last() == params@[i as int]@);
        }
        if i > 0 {
            out.append(", ");
        }
        out.append(params[i].as_str());
        out.append(": string");
        proof {
            if i == 0 {
                assert(ps.take(1)[0] == params@[0]@);
            }
        }
        i = i + 1;
    }
    assert(ps.take(params@.len() as int) =~= ps);
    out
}

/// The method of the client class for one endpoint.
pub fn generate_client_method(ep: &EndpointDefinition, base_path: &str) -> (r: String)
    ensures
        r@ == client_method_of(ep.method@, ep.path@, base_path@),
{
    let name = method_name(ep);
    let params = path_params(ep.path.as_str());
    let param_list = format_params(&params);
    let url = build_url(base_path, ep.path.as_str(), &params);
    let http_method = to_lowercase(ep.method.as_str());
    let mut m = String::from_str("  async ");
    m.append(name.as_str());
    m.append("(");
    m.append(param_list.as_str());
    if str_eq(http_method.as_str(), "get") || str_eq(http_method.as_str(), "delete") {
        m.append("): Promise<any> {\n");
        m.append("    return this.client.");
        m.append(http_method.as_str());
        m.append("(`");
        m.append(url.as_str());
        m.append("`);\n");
    } else {
        if param_list.unicode_len() == 0 {
            m.append("data?: any");
        } else {
            m.append(", data?: any");
        }
        m.append("): Promise<any> {\n");
        m.append("    return this.client.");
        m.append(http_method.as_str());
        m.append("(`");
        m.append(url.as_str());
        m.append("`, data);\n");
    }
    m.append("  }\n");
    m
}

/// Generates the TypeScript client module of a service: a class
/// `<Name>Client` wrapping an axios instance, with one method per HTTP
/// endpoint. Generation cannot fail.
pub fn to_axios_client(service: &ServiceDefinition) -> (r: Result<String, String>)
    ensures
        r matches Ok(text) && text@ == axios_client_text(*service),
{
    let mut out = String::from_str("import axios, { AxiosInstance, AxiosRequestConfig } from 'axios';\n\n");
    let class_name = capitalize(service.name.as_str());
    out.append("export class ");
    out.append(class_name.as_str());
    out.append("Client");
    out.append(" {\n");
    out.append("  private client: AxiosInstance;\n\n");
    out.append("  constructor(baseURL: string, config?: AxiosRequestConfig) {\n");
    out.append("    this.client = axios.create({\n");
    out.append("      baseURL,\n");
    out.append("      ...config,\n");
    out.append("    });\n");
    out.append("  }\n\n");
    let ghost head = out@;
    assert(head =~= client_header(service.name@));
    let eps = &service.endpoints;
    let base = service.server.base_path.as_str();
    let mut i: usize = 0;
    while i < eps.len()
        invariant
            i <= eps@.len(),
            eps@ == service.endpoints@,
            base@ == service.server.base_path@,
            out@ == head + client_methods(eps@.take(i as int), base@),
        decreases eps@.len() - i,
    {
        proof {
            assert(eps@.take(i + 1).drop_last() =~= eps@.take(i as int));
            assert(eps@.take(i + 1).last() == eps@[i as int]);
        }
        match eps[i].kind {
            EndpointKind::Http => {
                let m = generate_client_method(&eps[i], base);
                out.append(m.as_str());
                out.append("\n");
                assert(out@ =~= head + client_methods(eps@.take(i + 1), base@));
            },
            _ => {},
        }
        i = i + 1;
    }
    assert(eps@.take(eps@.len() as int) =~= eps@);
    out.append("}\n");
    assert(out@ =~= axios_client_text(*service));
    Ok(out)
}


/// The text `s` holds `p` starting at `i` when it is `a + p + b` with `a` of
/// length `i`.
proof fn lemma_occurs_in_middle(a: Seq<char>, p: Seq<char>, b: Seq<char>)
    ensures
        crate::text::contains_seq(a + p + b, p),
{
    let s = a + p + b;
    assert(s.subrange(a.len() as int, (a.len() + p.len()) as int) =~= p);
    assert(crate::text::occurs_at(s, p, a.len() as int));
}

/// A client method for any method other than GET and DELETE (such as POST,
/// PUT or PATCH) takes the request body: its parameters end with
/// `data?: any`, and it hands `data` to the axios call.
pub proof fn lemma_body_methods_send_data(method: Seq<char>, path: Seq<char>, base: Seq<char>)
    requires
        unicode_lower(method) != "get"@,
        unicode_lower(method) != "delete"@,
    ensures
        crate::text::contains_seq(client_method_of(method, path, base), "data?: any): Promise<any> {\n"@),
        crate::text::contains_seq(client_method_of(method, path, base), "`, data);\n"@),
{
    let name = method_name_of(method, path);
    let ps = param_names(path_segments(path));
    let pl = axios_param_list(ps);
    let url = url_of(base, path, ps);
    let hm = unicode_lower(method);
    let head = "  async "@ + name + "("@ + pl + if pl.len() == 0 { Seq::<char>::empty() } else { ", "@ };
    let tail = "    return this.client."@ + hm + "(`"@ + url + "`, data);\n"@ + "  }\n"@;
    reveal_strlit("data?: any");
    reveal_strlit(", data?: any");
    reveal_strlit("): Promise<any> {\n");
    reveal_strlit("data?: any): Promise<any> {\n");
    reveal_strlit(", ");
    let text = client_method_of(method, path, base);
    assert(text =~= head + "data?: any): Promise<any> {\n"@ + tail);
    lemma_occurs_in_middle(head, "data?: any): Promise<any> {\n"@, tail);
    let front = "  async "@ + name + "("@ + pl + (if pl.len() == 0 { "data?: any"@ } else { ", data?: any"@ })
        + "): Promise<any> {\n"@ + "    return this.client."@ + hm + "(`"@ + url;
    reveal_strlit("`, data);\n");
    reveal_strlit("  }\n");
    assert(text =~= front + "`, data);\n"@ + "  }\n"@);
    lemma_occurs_in_middle(front, "`, data);\n"@, "  }\n"@);
}

} // verus!
