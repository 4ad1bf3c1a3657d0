//! Generation of a React component that wires the generated hooks to
//! read-only sections (queries) and small forms (mutations).

use vstd::prelude::*;
use crate::codegen::{capitalize, capitalized, hook_name, hook_name_of, param_names, path_params};
use crate::config::{EndpointDefinition, EndpointKind, ServiceDefinition};
use crate::react_query::is_get;
use crate::text::{decimal, eq_ignore_ascii_case, path_segments, string_views, usize_to_string};

verus! {

/// A hook used by the view, as seen in specifications: its name, its path
/// parameters, and whether it is a query.
pub type HookView = (Seq<char>, Seq<Seq<char>>, bool);

/// The hooks of the HTTP endpoints, in order.
pub open spec fn view_hooks(eps: Seq<EndpointDefinition>) -> Seq<HookView>
    decreases eps.len(),
{
    if eps.len() == 0 {
        Seq::empty()
    } else if eps.last().kind == EndpointKind::Http {
        let ep = eps.last();
        let q = is_get(ep.method@);
        view_hooks(eps.drop_last()).push(
            (hook_name_of(ep.method@, ep.path@, q), param_names(path_segments(ep.path@)), q),
        )
    } else {
        view_hooks(eps.drop_last())
    }
}

/// The views of the hooks built at run time.
pub open spec fn hooks_view(v: Seq<(String, Vec<String>, bool)>) -> Seq<HookView> {
    v.map_values(|h: (String, Vec<String>, bool)| (h.0@, string_views(h.1@), h.2))
}

/// Hook names joined with `, `.
pub open spec fn joined_names(hs: Seq<HookView>) -> Seq<char>
    decreases hs.len(),
{
    if hs.len() == 0 {
        Seq::empty()
    } else if hs.len() == 1 {
        hs[0].0
    } else {
        joined_names(hs.drop_last()) + ", "@ + hs.last().0
    }
}

/// The import line of the hooks, when there is any.
pub open spec fn imports_text(hs: Seq<HookView>) -> Seq<char> {
    if hs.len() == 0 {
        Seq::empty()
    } else {
        "import { "@ + joined_names(hs) + " } from './hooks';\n\n"@
    }
}

/// One state variable per path parameter.
pub open spec fn param_states(ps: Seq<Seq<char>>) -> Seq<char>
    decreases ps.len(),
{
    if ps.len() == 0 {
        Seq::empty()
    } else {
        param_states(ps.drop_last()) + "  const ["@ + ps.last() + ", set"@ + capitalized(ps.last())
            + "] = useState<string>('');\n"@
    }
}

/// The state declarations: path parameters, and a body per mutation.
pub open spec fn states_text(hs: Seq<HookView>) -> Seq<char>
    decreases hs.len(),
{
    if hs.len() == 0 {
        Seq::empty()
    } else {
        let idx = decimal((hs.len() - 1) as nat);
        let h = hs.last();
        states_text(hs.drop_last()) + param_states(h.1) + (if h.2 {
            Seq::empty()
        } else {
            "  const [body"@ + idx + ", setBody"@ + idx + "] = useState<string>('');\n"@
        })
    }
}

/// `, p1, p2, ...`
pub open spec fn args_tail(ps: Seq<Seq<char>>) -> Seq<char>
    decreases ps.len(),
{
    if ps.len() == 0 {
        Seq::empty()
    } else {
        args_tail(ps.drop_last()) + ", "@ + ps.last()
    }
}

/// The hook invocations.
pub open spec fn invocations_text(hs: Seq<HookView>) -> Seq<char>
    decreases hs.len(),
{
    if hs.len() == 0 {
        Seq::empty()
    } else {
        let idx = decimal((hs.len() - 1) as nat);
        let h = hs.last();
        let call = h.0 + "("@ + "baseUrl"@ + args_tail(h.1) + ");\n"@;
        invocations_text(hs.drop_last()) + (if h.2 {
            "  const query"@ + idx + " = "@ + call
        } else {
            "  const mutation"@ + idx + " = "@ + call
        })
    }
}

/// One input per path parameter.
pub open spec fn param_inputs(ps: Seq<Seq<char>>) -> Seq<char>
    decreases ps.len(),
{
    if ps.len() == 0 {
        Seq::empty()
    } else {
        param_inputs(ps.drop_last()) + "        <input value={"@ + ps.last() + "} onChange={e => set"@
            + capitalized(ps.last()) + "(e.target.value)} />\n"@
    }
}

/// The rendered part: the data of each query, a form for each mutation.
pub open spec fn render_text(hs: Seq<HookView>) -> Seq<char>
    decreases hs.len(),
{
    if hs.len() == 0 {
        Seq::empty()
    } else {
        let idx = decimal((hs.len() - 1) as nat);
        let h = hs.last();
        render_text(hs.drop_last()) + (if h.2 {
            "      <pre>{JSON.stringify(query"@ + idx + ".data)}</pre>\n"@
        } else {
            "      <form onSubmit={e => { e.preventDefault(); mutation"@ + idx + ".mutate(body"@ + idx
                + "); }}>\n"@ + param_inputs(h.1) + "        <input value={body"@ + idx
                + "} onChange={e => setBody"@ + idx
                + "(e.target.value)} />\n        <button type=\"submit\">Submit</button>\n      </form>\n"@
        })
    }
}

/// The whole generated component module.
pub open spec fn react_view_text(s: ServiceDefinition) -> Seq<char> {
    let hs = view_hooks(s.endpoints@);
    "import React, { useState } from 'react';\n"@ + imports_text(hs)
        + "export interface ServiceViewProps { baseUrl: string }\n"@
        + "export function ServiceView({ baseUrl }: ServiceViewProps) {\n"@ + states_text(hs)
        + invocations_text(hs) + "  return (\n    <div>\n"@ + render_text(hs)
        + "    </div>\n  );\n}\n"@
}

/// The hooks of the HTTP endpoints of a service.
fn collect_hooks(eps: &Vec<EndpointDefinition>) -> (r: Vec<(String, Vec<String>, bool)>)
    ensures
        hooks_view(r@) == view_hooks(eps@),
{
    let mut hooks: Vec<(String, Vec<String>, bool)> = Vec::new();
    let mut i: usize = 0;
    while i < eps.len()
        invariant
            i <= eps@.len(),
            hooks_view(hooks@) == view_hooks(eps@.take(i as int)),
        decreases eps@.len() - i,
    {
        proof {
            assert(eps@.take(i + 1).drop_last() =~= eps@.take(i as int));
            assert(eps@.take(i + 1).last() == eps@[i as int]);
        }
        match eps[i].kind {
            EndpointKind::Http => {
                let q = eq_ignore_ascii_case(eps[i].method.as_str(), "GET");
                let name = hook_name(&eps[i], q);
                let params = path_params(eps[i].path.as_str());
                let ghost before = hooks@;
                hooks.push((name, params, q));
                assert(hooks_view(hooks@) =~= hooks_view(before).push((name@, string_views(params@), q)));
            },
            _ => {},
        }
        i = i + 1;
    }
    assert(eps@.take(eps@.len() as int) =~= eps@);
    hooks
}

/// Appends the import line of the hooks.
fn push_imports(out: &mut String, hooks: &Vec<(String, Vec<String>, bool)>)
    ensures
        final(out)@ == old(out)@ + imports_text(hooks_view(hooks@)),
{
    if hooks.len() == 0 {
        assert(old(out)@ + Seq::<char>::empty() =~= old(out)@);
        return;
    }
    let ghost hs = hooks_view(hooks@);
    let ghost start = out@;
    out.append("import { ");
    out.append(hooks[0].0.as_str());
    let mut i: usize = 1;
    assert(hs.take(1) =~= seq![hs[0]]);
    while i < hooks.len()
        invariant
            1 <= i <= hooks@.len(),
            hs == hooks_view(hooks@),
            out@ == start + "import { "@ + joined_names(hs.take(i as int)),
        decreases hooks@.len() - i,
    {
        proof {
            assert(hs.take(i + 1).drop_last() =~= hs.take(i as int));
            assert(hs.take(i + 1).last() == hs[i as int]);
        }
        out.append(", ");
        out.append(hooks[i].0.as_str());
        i = i + 1;
    }
    assert(hs.take(hooks@.len() as int) =~= hs);
    out.append(" } from './hooks';\n\n");
}

/// Appends `const [p, setP] = useState<string>('');` for each parameter.
fn push_param_states(out: &mut String, params: &Vec<String>)
    ensures
        final(out)@ == old(out)@ + param_states(string_views(params@)),
{
    let ghost ps = string_views(params@);
    let ghost start = out@;
    let mut i: usize = 0;
    while i < params.len()
        invariant
            i <= params@.len(),
            ps == string_views(params@),
            out@ == start + param_states(ps.take(i as int)),
        decreases params@.len() - i,
    {
        proof {
            assert(ps.take(i + 1).drop_last() =~= ps.take(i as int));
            assert(ps.take(i + 1).last() == params@[i as int]@);
        }
        let cap = capitalize(params[i].as_str());
        out.append("  const [");
        out.append(params[i].as_str());
        out.append(", set");
        out.append(cap.as_str());
        out.append("] = useState<string>('');\n");
        i = i + 1;
    }
    assert(ps.take(params@.len() as int) =~= ps);
}

/// Appends the state declarations of all hooks.
fn push_states(out: &mut String, hooks: &Vec<(String, Vec<String>, bool)>)
    ensures
        final(out)@ == old(out)@ + states_text(hooks_view(hooks@)),
{
    let ghost hs = hooks_view(hooks@);
    let ghost start = out@;
    let mut i: usize = 0;
    while i < hooks.len()
        invariant
            i <= hooks@.len(),
            hs == hooks_view(hooks@),
            out@ == start + states_text(hs.take(i as int)),
        decreases hooks@.len() - i,
    {
        proof {
            assert(hs.take(i + 1).drop_last() =~= hs.take(i as int));
            assert(hs.take(i + 1).last() == hs[i as int]);
        }
        push_param_states(out, &hooks[i].1);
        if !hooks[i].2 {
            let idx = usize_to_string(i);
            out.append("  const [body");
            out.append(idx.as_str());
            out.append(", setBody");
            out.append(idx.as_str());
            out.append("] = useState<string>('');\n");
        }
        assert(out@ =~= start + states_text(hs.take(i + 1)));
        i = i + 1;
    }
    assert(hs.take(hooks@.len() as int) =~= hs);
}

/// Appends the hook invocations.
#[verifier::spinoff_prover]
#[verifier::rlimit(30)]
fn push_invocations(out: &mut String, hooks: &Vec<(String, Vec<String>, bool)>)
    ensures
        final(out)@ == old(out)@ + invocations_text(hooks_view(hooks@)),
{
    let ghost hs = hooks_view(hooks@);
    let ghost start = out@;
    let mut i: usize = 0;
    while i < hooks.len()
        invariant
            i <= hooks@.len(),
            hs == hooks_view(hooks@),
            out@ == start + invocations_text(hs.take(i as int)),
        decreases hooks@.len() - i,
    {
        proof {
            assert(hs.take(i + 1).drop_last() =~= hs.take(i as int));
            assert(hs.take(i + 1).last() == hs[i as int]);
        }
        let idx = usize_to_string(i);
        if hooks[i].2 {
            out.append("  const query");
        } else {
            out.append("  const mutation");
        }
        out.append(idx.as_str());
        out.append(" = ");
        out.append(hooks[i].0.as_str());
        out.append("(");
        out.append("baseUrl");
        let params = &hooks[i].1;
        let ghost ps = string_views(params@);
        let ghost mid = out@;
        let mut k: usize = 0;
        while k < params.len()
            invariant
                k <= params@.len(),
                ps == string_views(params@),
                out@ == mid + args_tail(ps.take(k as int)),
            decreases params@.len() - k,
        {
            proof {
                assert(ps.take(k + 1).drop_last() =~= ps.take(k as int));
                assert(ps.take(k + 1).last() == params@[k as int]@);
            }
            out.append(", ");
            out.append(params[k].as_str());
            k = k + 1;
        }
        assert(ps.take(params@.len() as int) =~= ps);
        out.append(");\n");
        assert(out@ =~= start + invocations_text(hs.take(i + 1)));
        i = i + 1;
    }
    assert(hs.take(hooks@.len() as int) =~= hs);
}

/// Appends an input for each path parameter.
fn push_param_inputs(out: &mut String, params: &Vec<String>)
    ensures
        final(out)@ == old(out)@ + param_inputs(string_views(params@)),
{
    let ghost ps = string_views(params@);
    let ghost start = out@;
    let mut i: usize = 0;
    while i < params.len()
        invariant
            i <= params@.len(),
            ps == string_views(params@),
            out@ == start + param_inputs(ps.take(i as int)),
        decreases params@.len() - i,
    {
        proof {
            assert(ps.take(i + 1).drop_last() =~= ps.take(i as int));
            assert(ps.take(i + 1).last() == params@[i as int]@);
        }
        let cap = capitalize(params[i].as_str());
        out.append("        <input value={");
        out.append(params[i].as_str());
        out.append("} onChange={e => set");
        out.append(cap.as_str());
        out.append("(e.target.value)} />\n");
        i = i + 1;
    }
    assert(ps.take(params@.len() as int) =~= ps);
}

/// Appends the rendered sections.
fn push_render(out: &mut String, hooks: &Vec<(String, Vec<String>, bool)>)
    ensures
        final(out)@ == old(out)@ + render_text(hooks_view(hooks@)),
{
    let ghost hs = hooks_view(hooks@);
    let ghost start = out@;
    let mut i: usize = 0;
    while i < hooks.len()
        invariant
            i <= hooks@.len(),
            hs == hooks_view(hooks@),
            out@ == start + render_text(hs.take(i as int)),
        decreases hooks@.len() - i,
    {
        proof {
            assert(hs.take(i + 1).drop_last() =~= hs.take(i as int));
            assert(hs.take(i + 1).last() == hs[i as int]);
        }
        let idx = usize_to_string(i);
        if hooks[i].2 {
            out.append("      <pre>{JSON.stringify(query");
            out.append(idx.as_str());
            out.append(".data)}</pre>\n");
        } else {
            out.append("      <form onSubmit={e => { e.preventDefault(); mutation");
            out.append(idx.as_str());
            out.append(".mutate(body");
            out.append(idx.as_str());
            out.append("); }}>\n");
            push_param_inputs(out, &hooks[i].1);
            out.append("        <input value={body");
            out.append(idx.as_str());
            out.append("} onChange={e => setBody");
            out.append(idx.as_str());
            out.append("(e.target.value)} />\n        <button type=\"submit\">Submit</button>\n      </form>\n");
        }
        assert(out@ =~= start + render_text(hs.take(i + 1)));
        i = i + 1;
    }
    assert(hs.take(hooks@.len() as int) =~= hs);
}

/// Generates a React component `ServiceView` for a service: a state variable
/// per path parameter and per mutation body, one hook call per HTTP endpoint,
/// the data of each query and a form for each mutation. Generation cannot
/// fail.
pub fn to_react_view(service: &ServiceDefinition) -> (r: Result<String, String>)
    ensures
        r matches Ok(text) && text@ == react_view_text(*service),
{
    let mut out = String::from_str("import React, { useState } from 'react';\n");
    let hooks = collect_hooks(&service.endpoints);
    push_imports(&mut out, &hooks);
    out.append("export interface ServiceViewProps { baseUrl: string }\n");
    out.append("export function ServiceView({ baseUrl }: ServiceViewProps) {\n");
    push_states(&mut out, &hooks);
    push_invocations(&mut out, &hooks);
    out.append("  return (\n    <div>\n");
    push_render(&mut out, &hooks);
    out.append("    </div>\n  );\n}\n");
    assert(out@ =~= react_view_text(*service));
    Ok(out)
}

} // verus!
