//! Request router: maps base paths to the services that own them, and picks
//! the service of a request by the longest matching base path.

use vstd::prelude::*;
use crate::strmap::StrMap;
use crate::text::{string_views, chars_of, has_prefix, push_char, seq_starts_with, starts_with, string_of};

verus! {

/// A base path normalized for routing: it starts with `/`, and a trailing
/// `/` is dropped unless the path is the root.
pub open spec fn normalize_path_spec(p: Seq<char>) -> Seq<char> {
    let q = if p.len() > 0 && p[0] == '/' { p } else { seq!['/'] + p };
    if q.len() > 1 && q.last() == '/' { q.drop_last() } else { q }
}

/// The path of a request relative to a base path: what follows the
/// normalized base, always starting with `/`; a request outside the base is
/// returned as it is.
pub open spec fn relative_path_spec(request: Seq<char>, base: Seq<char>) -> Seq<char> {
    let nb = normalize_path_spec(base);
    if has_prefix(request, nb) {
        let rel = request.subrange(nb.len() as int, request.len() as int);
        if rel.len() == 0 {
            seq!['/']
        } else if rel[0] == '/' {
            rel
        } else {
            seq!['/'] + rel
        }
    } else {
        request
    }
}

/// `name` is the service of the longest base path in `routes` that is a
/// prefix of `request`.
pub open spec fn routes_to(routes: Map<Seq<char>, Seq<char>>, request: Seq<char>, name: Seq<char>) -> bool {
    exists|k: Seq<char>|
        #![trigger routes[k]]
        routes.contains_key(k) && has_prefix(request, k) && routes[k] == name && forall|k2: Seq<char>|
            #![trigger routes.contains_key(k2)]
            routes.contains_key(k2) && has_prefix(request, k2) ==> k2.len() <= k.len()
}

/// No base path in `routes` is a prefix of `request`.
pub open spec fn no_route(routes: Map<Seq<char>, Seq<char>>, request: Seq<char>) -> bool {
    forall|k: Seq<char>| #[trigger] routes.contains_key(k) ==> !has_prefix(request, k)
}

/// How many routes lead to `name`, counted over the route table's values.
pub open spec fn count_routes_of(values: Seq<Seq<char>>, name: Seq<char>) -> nat {
    values.filter(equals_name(name)).len()
}

/// The predicate "is `name`".
pub open spec fn equals_name(name: Seq<char>) -> spec_fn(Seq<char>) -> bool {
    |v: Seq<char>| v == name
}

/// Maps base paths to service names.
pub struct RequestRouter {
    service_mappings: StrMap<String>,
}

/// Statistics about the current routing configuration.
pub struct RoutingStats {
    pub total_routes: usize,
    pub services_count: usize,
    pub service_route_counts: StrMap<usize>,
}

impl RequestRouter {
    /// Well-formedness of the route table.
    pub open spec fn wf(&self) -> bool {
        self.table().wf()
    }

    /// The underlying table.
    pub closed spec fn table(&self) -> StrMap<String> {
        self.service_mappings
    }

    /// The routes: normalized base path to service name.
    pub open spec fn routes(&self) -> Map<Seq<char>, Seq<char>> {
        self.table()@.map_values(|v: String| v@)
    }

    /// The service names of the routes, one per route, in table order.
    pub open spec fn route_values(&self) -> Seq<Seq<char>> {
        string_views(self.table().vals_view())
    }

    /// Create a new request router with no routes.
    pub fn new() -> (r: Self)
        ensures
            r.wf(),
            r.routes() == Map::<Seq<char>, Seq<char>>::empty(),
    {
        let r = RequestRouter { service_mappings: StrMap::new() };
        assert(r.routes() =~= Map::<Seq<char>, Seq<char>>::empty());
        r
    }

    /// Normalize a path for consistent routing.
    pub fn normalize_path(&self, path: &str) -> (r: String)
        ensures
            r@ == normalize_path_spec(path@),
    {
        normalize_path_str(path)
    }

    /// Route a request to the service whose base path is the longest prefix
    /// of the request path.
    pub fn route_request(&self, request_path: &str) -> (r: Option<String>)
        requires
            self.wf(),
        ensures
            match r {
                Some(name) => routes_to(self.routes(), request_path@, name@),
                None => no_route(self.routes(), request_path@),
            },
    {
        let m = &self.service_mappings;
        proof {
            m.lemma_view();
        }
        let n = m.len();
        let mut best: Option<usize> = None;
        let mut best_len: usize = 0;
        let mut i: usize = 0;
        while i < n
            invariant
                m.wf(),
                n == m.keys_view().len(),
                n == m.vals_view().len(),
                m.keys_view().no_duplicates(),
                i <= n,
                match best {
                    Some(j) => j < i && has_prefix(request_path@, m.keys_view()[j as int])
                        && best_len == m.keys_view()[j as int].len()
                        && forall|j2: int| 0 <= j2 < i && has_prefix(request_path@, #[trigger] m.keys_view()[j2])
                            ==> m.keys_view()[j2].len() <= best_len,
                    None => forall|j2: int| 0 <= j2 < i ==> !has_prefix(request_path@, #[trigger] m.keys_view()[j2]),
                },
            decreases n - i,
        {
            let key = m.key_at(i);
            if starts_with(request_path, key.as_str()) {
                let len = key.as_str().unicode_len();
                match best {
                    None => {
                        best = Some(i);
                        best_len = len;
                    },
                    Some(_) => {
                        if len > best_len {
                            best = Some(i);
                            best_len = len;
                        }
                    },
                }
            }
            i = i + 1;
        }
        match best {
            Some(j) => {
                let name = m.value_at(j).clone();
                proof {
                    let k = m.keys_view()[j as int];
                    assert(self.routes().contains_key(k));
                    assert(self.routes()[k] == name@);
                    assert forall|k2: Seq<char>| #[trigger] self.routes().contains_key(k2) && has_prefix(request_path@, k2) implies k2.len() <= k.len() by {
                        let j2 = m.keys_view().index_of(k2);
                        assert(m.keys_view()[j2] == k2);
                    }
                }
                Some(name)
            },
            None => {
                proof {
                    assert forall|k2: Seq<char>| #[trigger] self.routes().contains_key(k2) implies !has_prefix(request_path@, k2) by {
                        let j2 = m.keys_view().index_of(k2);
                        assert(m.keys_view()[j2] == k2);
                    }
                }
                None
            },
        }
    }

    /// Register service routes for a service under its normalized base path.
    pub fn register_service_routes(&mut self, service_name: &str, base_path: &str)
        requires
            old(self).wf(),
        ensures
            final(self).wf(),
            final(self).routes() == old(self).routes().insert(normalize_path_spec(base_path@), service_name@),
    {
        let normalized = normalize_path_str(base_path);
        let ghost nb = normalized@;
        self.service_mappings.insert(normalized, String::from_str(service_name));
        assert(self.routes() =~= old(self).routes().insert(nb, service_name@));
    }

    /// Unregister every route of a service.
    pub fn unregister_service_routes(&mut self, service_name: &str)
        requires
            old(self).wf(),
        ensures
            final(self).wf(),
            forall|k: Seq<char>| #[trigger] final(self).routes().contains_key(k)
                <==> old(self).routes().contains_key(k) && old(self).routes()[k] != service_name@,
            forall|k: Seq<char>| #[trigger] final(self).routes().contains_key(k)
                ==> final(self).routes()[k] == old(self).routes()[k],
    {
        let paths = self.get_service_routes(service_name);
        let ghost old_routes = self.routes();
        let mut i: usize = 0;
        while i < paths.len()
            invariant
                self.wf(),
                i <= paths@.len(),
                string_views(paths@).no_duplicates(),
                forall|k: Seq<char>| #[trigger] string_views(paths@).contains(k)
                    <==> old_routes.contains_key(k) && old_routes[k] == service_name@,
                forall|k: Seq<char>| #[trigger] self.routes().contains_key(k)
                    <==> old_routes.contains_key(k) && !string_views(paths@).take(i as int).contains(k),
                forall|k: Seq<char>| #[trigger] self.routes().contains_key(k) ==> self.routes()[k] == old_routes[k],
            decreases paths@.len() - i,
        {
            let ghost before = self.routes();
            let ghost pv = string_views(paths@);
            self.service_mappings.remove(paths[i].as_str());
            proof {
                assert(pv[i as int] == paths@[i as int]@);
                assert(self.routes() =~= before.remove(pv[i as int]));
                assert forall|k: Seq<char>| #[trigger] self.routes().contains_key(k)
                    <==> old_routes.contains_key(k) && !pv.take(i + 1).contains(k) by {
                    if pv.take(i + 1).contains(k) && !pv.take(i as int).contains(k) {
                        let j = pv.take(i + 1).index_of(k);
                        assert(j == i);
                    }
                    if pv.take(i as int).contains(k) {
                        let j = pv.take(i as int).index_of(k);
                        assert(pv.take(i + 1)[j] == k);
                    }
                    if k == pv[i as int] {
                        assert(pv.take(i + 1)[i as int] == k);
                    }
                }
            }
            i = i + 1;
        }
        proof {
            let pv = string_views(paths@);
            assert(pv.take(paths@.len() as int) =~= pv);
        }
    }

    /// Clear all route mappings.
    pub fn clear_all_routes(&mut self)
        ensures
            final(self).wf(),
            final(self).routes() == Map::<Seq<char>, Seq<char>>::empty(),
    {
        self.service_mappings.clear();
        assert(self.routes() =~= Map::<Seq<char>, Seq<char>>::empty());
    }

    /// Get all registered routes.
    pub fn get_all_routes(&self) -> (r: &StrMap<String>)
        ensures
            r.wf() == self.wf(),
            r@.map_values(|v: String| v@) == self.routes(),
    {
        &self.service_mappings
    }

    /// Get the base paths routed to a service, each once.
    pub fn get_service_routes(&self, service_name: &str) -> (r: Vec<String>)
        requires
            self.wf(),
        ensures
            string_views(r@).no_duplicates(),
            forall|k: Seq<char>| #[trigger] string_views(r@).contains(k)
                <==> self.routes().contains_key(k) && self.routes()[k] == service_name@,
    {
        let m = &self.service_mappings;
        proof {
            m.lemma_view();
        }
        let target = String::from_str(service_name);
        let n = m.len();
        let mut out: Vec<String> = Vec::new();
        let mut i: usize = 0;
        while i < n
            invariant
                m.wf(),
                n == m.keys_view().len(),
                n == m.vals_view().len(),
                m.keys_view().no_duplicates(),
                i <= n,
                target@ == service_name@,
                string_views(out@).no_duplicates(),
                forall|k: Seq<char>| #[trigger] string_views(out@).contains(k)
                    <==> exists|j: int| 0 <= j < i && m.keys_view()[j] == k && m.vals_view()[j]@ == service_name@,
            decreases n - i,
        {
            let ghost before = string_views(out@);
            if *m.value_at(i) == target {
                out.push(m.key_at(i).clone());
                proof {
                    let after = string_views(out@);
                    assert(after =~= before.push(m.keys_view()[i as int]));
                    assert(!before.contains(m.keys_view()[i as int])) by {
                        if before.contains(m.keys_view()[i as int]) {
                            let j = choose|j: int| 0 <= j < i && m.keys_view()[j] == m.keys_view()[i as int] && m.vals_view()[j]@ == service_name@;
                        }
                    }
                    assert forall|k: Seq<char>| after.contains(k)
                        <==> exists|j: int| 0 <= j < i + 1 && m.keys_view()[j] == k && m.vals_view()[j]@ == service_name@ by {
                        if after.contains(k) && !before.contains(k) {
                            let j = after.index_of(k);
                            assert(j == before.len());
                            assert(m.keys_view()[i as int] == k);
                        }
                        if exists|j: int| 0 <= j < i + 1 && m.keys_view()[j] == k && m.vals_view()[j]@ == service_name@ {
                            let j = choose|j: int| 0 <= j < i + 1 && m.keys_view()[j] == k && m.vals_view()[j]@ == service_name@;
                            if j == i {
                                assert(after[before.len() as int] == k);
                            } else {
                                assert(before.contains(k));
                                let t = before.index_of(k);
                                assert(after[t] == k);
                            }
                        }
                    }
                }
            } else {
                proof {
                    assert(string_views(out@) == before);
                    assert forall|k: Seq<char>| before.contains(k)
                        <==> exists|j: int| 0 <= j < i + 1 && m.keys_view()[j] == k && m.vals_view()[j]@ == service_name@ by {
                        if exists|j: int| 0 <= j < i + 1 && m.keys_view()[j] == k && m.vals_view()[j]@ == service_name@ {
                            let j = choose|j: int| 0 <= j < i + 1 && m.keys_view()[j] == k && m.vals_view()[j]@ == service_name@;
                            assert(j != i);
                        }
                    }
                }
            }
            i = i + 1;
        }
        proof {
            let ov = string_views(out@);
            assert forall|k: Seq<char>| ov.contains(k)
                <==> self.routes().contains_key(k) && self.routes()[k] == service_name@ by {
                if self.routes().contains_key(k) && self.routes()[k] == service_name@ {
                    let j = m.keys_view().index_of(k);
                    assert(m.keys_view()[j] == k);
                }
                if ov.contains(k) {
                    let j = choose|j: int| 0 <= j < n && m.keys_view()[j] == k && m.vals_view()[j]@ == service_name@;
                    assert(m@[m.keys_view()[j]] == m.vals_view()[j]);
                }
            }
        }
        out
    }

    /// Check if a service has registered routes.
    pub fn has_service_routes(&self, service_name: &str) -> (b: bool)
        requires
            self.wf(),
        ensures
            b == exists|k: Seq<char>| #[trigger] self.routes().contains_key(k) && self.routes()[k] == service_name@,
    {
        let r = self.get_service_routes(service_name);
        proof {
            let rv = string_views(r@);
            if r@.len() > 0 {
                assert(rv.contains(rv[0]));
            }
            if exists|k: Seq<char>| #[trigger] self.routes().contains_key(k) && self.routes()[k] == service_name@ {
                let k = choose|k: Seq<char>| #[trigger] self.routes().contains_key(k) && self.routes()[k] == service_name@;
                assert(rv.contains(k));
            }
        }
        r.len() > 0
    }

    /// Get the number of registered route mappings.
    pub fn routes_count(&self) -> (n: usize)
        requires
            self.wf(),
        ensures
            n == self.routes().len(),
    {
        proof {
            assert(self.routes().dom() =~= self.table()@.dom());
        }
        self.service_mappings.len()
    }

    /// Extract the relative path after removing the base path.
    pub fn extract_relative_path(&self, request_path: &str, base_path: &str) -> (r: String)
        ensures
            r@ == relative_path_spec(request_path@, base_path@),
    {
        let nb = normalize_path_str(base_path);
        let req = chars_of(request_path);
        let nbv = chars_of(nb.as_str());
        if seq_starts_with(&req, &nbv) {
            let mut rel: Vec<char> = Vec::new();
            let mut i: usize = nbv.len();
            while i < req.len()
                invariant
                    nbv@.len() <= i <= req@.len(),
                    rel@ == req@.subrange(nbv@.len() as int, i as int),
                decreases req@.len() - i,
            {
                rel.push(req[i]);
                i = i + 1;
                assert(rel@ =~= req@.subrange(nbv@.len() as int, i as int));
            }
            if rel.len() == 0 {
                let mut s = String::new();
                push_char(&mut s, '/');
                assert(s@ =~= seq!['/']);
                s
            } else if rel[0] == '/' {
                string_of(&rel)
            } else {
                let mut with_slash: Vec<char> = Vec::new();
                with_slash.push('/');
                let mut j: usize = 0;
                while j < rel.len()
                    invariant
                        j <= rel@.len(),
                        with_slash@ == seq!['/'] + rel@.subrange(0, j as int),
                    decreases rel@.len() - j,
                {
                    with_slash.push(rel[j]);
                    j = j + 1;
                    assert(with_slash@ =~= seq!['/'] + rel@.subrange(0, j as int));
                }
                assert(rel@.subrange(0, rel@.len() as int) =~= rel@);
                string_of(&with_slash)
            }
        } else {
            String::from_str(request_path)
        }
    }

    /// Get routing statistics: the number of routes, of distinct services,
    /// and of routes per service.
    pub fn get_routing_stats(&self) -> (s: RoutingStats)
        requires
            self.wf(),
        ensures
            s.service_route_counts.wf(),
            s.total_routes == self.routes().len(),
            s.services_count == s.service_route_counts@.len(),
            forall|name: Seq<char>| #[trigger] s.service_route_counts@.contains_key(name)
                <==> self.route_values().contains(name),
            forall|name: Seq<char>| #[trigger] s.service_route_counts@.contains_key(name)
                ==> s.service_route_counts@[name] == count_routes_of(self.route_values(), name),
    {
        let m = &self.service_mappings;
        proof {
            m.lemma_view();
        }
        let n = m.len();
        let ghost vals = self.route_values();
        assert(vals == string_views(m.vals_view()));
        let mut counts: StrMap<usize> = StrMap::new();
        let mut i: usize = 0;
        while i < n
            invariant
                m.wf(),
                counts.wf(),
                n == m.vals_view().len(),
                n == m.keys_view().len(),
                n == vals.len(),
                vals == self.route_values(),
                vals == string_views(m.vals_view()),
                i <= n,
                forall|name: Seq<char>| #[trigger] counts@.contains_key(name) <==> vals.take(i as int).contains(name),
                forall|name: Seq<char>| #[trigger] counts@.contains_key(name)
                    ==> counts@[name] == count_routes_of(vals.take(i as int), name),
            decreases n - i,
        {
            let name = m.value_at(i);
            assert(vals == string_views(m.vals_view()));
            assert(vals[i as int] == m.vals_view()[i as int]@);
            assert(name@ == vals[i as int]);
            let c: usize = match counts.get(name.as_str()) {
                Some(c) => *c,
                None => 0,
            };
            proof {
                lemma_count_take_succ(vals, i as int, name@);
                lemma_count_le_len(vals.take(i as int), name@);
            }
            let ghost before = counts@;
            counts.insert(name.clone(), c + 1);
            proof {
                assert(vals.take(i + 1) =~= vals.take(i as int).push(vals[i as int]));
                assert forall|nm: Seq<char>| #[trigger] counts@.contains_key(nm) <==> vals.take(i + 1).contains(nm) by {
                    if vals.take(i + 1).contains(nm) && nm != name@ {
                        let j = vals.take(i + 1).index_of(nm);
                        assert(j != i);
                        assert(vals.take(i as int)[j] == nm);
                    }
                    if vals.take(i as int).contains(nm) {
                        let j = vals.take(i as int).index_of(nm);
                        assert(vals.take(i + 1)[j] == nm);
                    }
                    if nm == name@ {
                        assert(vals.take(i + 1)[i as int] == nm);
                    }
                }
                assert forall|nm: Seq<char>| #[trigger] counts@.contains_key(nm)
                    implies counts@[nm] == count_routes_of(vals.take(i + 1), nm) by {
                    lemma_count_take_succ(vals, i as int, nm);
                    if nm != name@ {
                        assert(before.contains_key(nm));
                    } else if !before.contains_key(nm) {
                        lemma_count_absent(vals.take(i as int), nm);
                    }
                }
            }
            i = i + 1;
        }
        proof {
            assert(vals.take(n as int) =~= vals);
            assert(self.routes().dom() =~= m@.dom());
        }
        let total = m.len();
        let services = counts.len();
        RoutingStats { total_routes: total, services_count: services, service_route_counts: counts }
    }
}

/// Counting one more element of a sequence.
proof fn lemma_count_take_succ(vals: Seq<Seq<char>>, i: int, name: Seq<char>)
    requires
        0 <= i < vals.len(),
    ensures
        count_routes_of(vals.take(i + 1), name) == count_routes_of(vals.take(i), name) + if vals[i] == name { 1nat } else { 0nat },
{
    assert(vals.take(i + 1) =~= vals.take(i).push(vals[i]));
    vals.take(i).lemma_filter_len_push(equals_name(name), vals[i]);
}

/// A count never exceeds the length of the sequence.
proof fn lemma_count_le_len(vals: Seq<Seq<char>>, name: Seq<char>)
    ensures
        count_routes_of(vals, name) <= vals.len(),
{
    vals.lemma_filter_len(equals_name(name));
}

/// An element that does not occur is counted zero times.
proof fn lemma_count_absent(vals: Seq<Seq<char>>, name: Seq<char>)
    requires
        !vals.contains(name),
    ensures
        count_routes_of(vals, name) == 0,
    decreases vals.len(),
{
    reveal(Seq::filter);
    if vals.len() > 0 {
        assert(!vals.drop_last().contains(name)) by {
            if vals.drop_last().contains(name) {
                let j = vals.drop_last().index_of(name);
                assert(vals[j] == name);
            }
        }
        lemma_count_absent(vals.drop_last(), name);
        assert(vals[vals.len() - 1] == vals.last());
    }
}

/// Normalizes a base path: a leading `/` is added when missing, and a
/// trailing `/` removed unless the path is the root.
pub fn normalize_path_str(path: &str) -> (r: String)
    ensures
        r@ == normalize_path_spec(path@),
{
    let p = chars_of(path);
    let mut q: Vec<char> = Vec::new();
    if !(p.len() > 0 && p[0] == '/') {
        q.push('/');
    }
    let ghost start = q@;
    let mut i: usize = 0;
    while i < p.len()
        invariant
            i <= p@.len(),
            q@ == start + p@.subrange(0, i as int),
        decreases p@.len() - i,
    {
        q.push(p[i]);
        i = i + 1;
        assert(q@ =~= start + p@.subrange(0, i as int));
    }
    assert(p@.subrange(0, p@.len() as int) =~= p@);
    assert(q@ =~= if p@.len() > 0 && p@[0] == '/' { p@ } else { seq!['/'] + p@ });
    if q.len() > 1 && q[q.len() - 1] == '/' {
        q.pop();
    }
    string_of(&q)
}


/// Routing is a function: a request routes to at most one service.
pub proof fn lemma_route_is_unique(routes: Map<Seq<char>, Seq<char>>, request: Seq<char>, a: Seq<char>, b: Seq<char>)
    requires
        routes_to(routes, request, a),
        routes_to(routes, request, b),
    ensures
        a == b,
{
    let ka = choose|k: Seq<char>| #![trigger routes[k]] routes.contains_key(k) && has_prefix(request, k) && routes[k] == a
        && forall|k2: Seq<char>| #![trigger routes.contains_key(k2)] routes.contains_key(k2) && has_prefix(request, k2) ==> k2.len() <= k.len();
    let kb = choose|k: Seq<char>| #![trigger routes[k]] routes.contains_key(k) && has_prefix(request, k) && routes[k] == b
        && forall|k2: Seq<char>| #![trigger routes.contains_key(k2)] routes.contains_key(k2) && has_prefix(request, k2) ==> k2.len() <= k.len();
    assert(ka.len() == kb.len());
    assert(ka =~= kb) by {
        assert(ka == request.subrange(0, ka.len() as int));
        assert(kb == request.subrange(0, kb.len() as int));
    }
}

/// Once a service is registered under a base path, a request for exactly
/// that (normalized) base path is routed to the service.
pub proof fn lemma_registered_base_routes_to_service(routes: Map<Seq<char>, Seq<char>>, base: Seq<char>, name: Seq<char>)
    ensures
        routes_to(routes.insert(normalize_path_spec(base), name), normalize_path_spec(base), name),
{
    let nb = normalize_path_spec(base);
    let r2 = routes.insert(nb, name);
    assert(nb.subrange(0, nb.len() as int) =~= nb);
    assert(has_prefix(nb, nb));
    assert(r2[nb] == name);
    assert forall|k2: Seq<char>| #[trigger] r2.contains_key(k2) && has_prefix(nb, k2) implies k2.len() <= nb.len() by {}
}

/// A request under a base path routes to some service: the one owning the
/// base path or the owner of a longer base path that also matches.
pub proof fn lemma_request_under_base_is_routed(routes: Map<Seq<char>, Seq<char>>, base: Seq<char>, request: Seq<char>)
    requires
        routes.contains_key(base),
        has_prefix(request, base),
        routes.dom().finite(),
    ensures
        !no_route(routes, request),
{
}

/// After a service's routes are removed, no request is routed to it.
pub proof fn lemma_unregistered_service_gets_no_request(routes: Map<Seq<char>, Seq<char>>, request: Seq<char>, name: Seq<char>)
    requires
        forall|k: Seq<char>| #[trigger] routes.contains_key(k) ==> routes[k] != name,
    ensures
        !routes_to(routes, request, name),
{
}

/// Extracting the relative path undoes prefixing it with the normalized base
/// path: the part after the base comes back, given that it starts with `/`.
pub proof fn lemma_relative_path_of_joined(base: Seq<char>, rest: Seq<char>)
    requires
        rest.len() > 0,
        rest[0] == '/',
    ensures
        relative_path_spec(normalize_path_spec(base) + rest, base) == rest,
{
    let nb = normalize_path_spec(base);
    let req = nb + rest;
    assert(req.subrange(0, nb.len() as int) =~= nb);
    assert(req.subrange(nb.len() as int, req.len() as int) =~= rest);
}

/// A normalized base path starts with `/`; unless it is the root, it does not
/// end with `/` provided the input did not end with two slashes.
pub proof fn lemma_normalized_path_shape(p: Seq<char>)
    ensures
        normalize_path_spec(p).len() >= 1,
        normalize_path_spec(p)[0] == '/',
        !(p.len() >= 2 && p[p.len() - 1] == '/' && p[p.len() - 2] == '/') ==> (normalize_path_spec(p).len() == 1
            || normalize_path_spec(p).last() != '/'),
{
    let q = if p.len() > 0 && p[0] == '/' { p } else { seq!['/'] + p };
    if !(p.len() > 0 && p[0] == '/') {
        assert(q[0] == '/');
    }
    if q.len() > 1 && q.last() == '/' {
        assert(q.drop_last()[0] == q[0]);
        if !(p.len() >= 2 && p[p.len() - 1] == '/' && p[p.len() - 2] == '/') && q.drop_last().len() > 1 {
            assert(q.drop_last().last() == q[q.len() - 2]);
            if p.len() > 0 && p[0] == '/' {
                assert(q[q.len() - 2] == p[p.len() - 2]);
            } else {
                assert(q[q.len() - 2] == p[p.len() - 2]);
            }
        }
    }
}

} // verus!
