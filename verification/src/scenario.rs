//! Choosing the scenario that answers a request: one whose conditions the
//! request meets, else the scenario selected by name, else the next of the
//! unconditional, unnamed scenarios in rotation.

use vstd::prelude::*;
use crate::config::{EndpointDefinition, ResponseDefinition, ScenarioConditions, ScenarioDefinition, ScenarioStrategy};
use crate::endpoints::headers_view;
use crate::json::{field_of, json_eq, json_equal, object_get, JsonValue};
use crate::state::ServiceState;
use crate::strmap::StrMap;
use crate::text::{eq_ignore_ascii_case, eq_ignore_ascii_case_spec, str_eq};

verus! {

/// Every query condition names a parameter the request has, with that value.
pub open spec fn query_conditions_hold(q: Option<Vec<(String, String)>>, query: Map<Seq<char>, Seq<char>>) -> bool {
    match q {
        None => true,
        Some(v) => forall|i: int| 0 <= i < v@.len() ==> query.contains_key(#[trigger] v@[i].0@)
            && query[v@[i].0@] == v@[i].1@,
    }
}

/// Every header condition names a header the request has, with that value up
/// to ASCII case.
pub open spec fn header_conditions_hold(h: Option<Vec<(String, String)>>, headers: Map<Seq<char>, Seq<char>>) -> bool {
    match h {
        None => true,
        Some(v) => forall|i: int| 0 <= i < v@.len() ==> headers.contains_key(#[trigger] v@[i].0@)
            && eq_ignore_ascii_case_spec(headers[v@[i].0@], v@[i].1@),
    }
}

/// The body is an object, and each body condition names a field of it with
/// that value.
pub open spec fn body_conditions_hold(b: Option<Vec<(String, JsonValue)>>, body: Option<JsonValue>) -> bool {
    match b {
        None => true,
        Some(v) => match body {
            Some(JsonValue::Object(fields)) => forall|i: int| 0 <= i < v@.len() ==> match field_of(fields@, #[trigger] v@[i].0@) {
                Some(x) => json_equal(x, v@[i].1),
                None => false,
            },
            _ => false,
        },
    }
}

/// A request meets a scenario's conditions.
pub open spec fn conditions_hold(c: ScenarioConditions, query: Map<Seq<char>, Seq<char>>,
    headers: Map<Seq<char>, Seq<char>>, body: Option<JsonValue>) -> bool {
    &&& query_conditions_hold(c.query, query)
    &&& header_conditions_hold(c.headers, headers)
    &&& body_conditions_hold(c.body, body)
}

/// The first scenario with conditions that the request meets.
pub open spec fn first_conditional(scs: Seq<ScenarioDefinition>, query: Map<Seq<char>, Seq<char>>,
    headers: Map<Seq<char>, Seq<char>>, body: Option<JsonValue>) -> Option<int>
    decreases scs.len(),
{
    if scs.len() == 0 {
        None
    } else {
        match first_conditional(scs.drop_last(), query, headers, body) {
            Some(k) => Some(k),
            None => match scs.last().conditions {
                Some(c) => if conditions_hold(c, query, headers, body) { Some(scs.len() - 1) } else { None },
                None => None,
            },
        }
    }
}

/// The first scenario with the given name.
pub open spec fn first_named(scs: Seq<ScenarioDefinition>, name: Seq<char>) -> Option<int>
    decreases scs.len(),
{
    if scs.len() == 0 {
        None
    } else {
        match first_named(scs.drop_last(), name) {
            Some(k) => Some(k),
            None => match scs.last().name {
                Some(n) => if n@ == name { Some(scs.len() - 1) } else { None },
                None => None,
            },
        }
    }
}

/// The positions of the scenarios with neither conditions nor name, in order.
pub open spec fn rotation_candidates(scs: Seq<ScenarioDefinition>) -> Seq<int>
    decreases scs.len(),
{
    if scs.len() == 0 {
        Seq::empty()
    } else if scs.last().conditions is None && scs.last().name is None {
        rotation_candidates(scs.drop_last()).push(scs.len() - 1)
    } else {
        rotation_candidates(scs.drop_last())
    }
}

/// The scenario found by name, when one is selected.
pub open spec fn selected_by_name(scs: Seq<ScenarioDefinition>, active: Option<String>) -> Option<int> {
    match active {
        Some(a) => first_named(scs, a@),
        None => None,
    }
}

/// The rotation strategy: that of the first candidate, sequential by default.
pub open spec fn rotation_strategy(scs: Seq<ScenarioDefinition>) -> ScenarioStrategy {
    match scs[rotation_candidates(scs)[0]].strategy {
        Some(s) => s,
        None => ScenarioStrategy::Sequential,
    }
}

/// The request reaches the rotation: no scenario matched by condition or by
/// name, and there are candidates.
pub open spec fn reaches_rotation(scs: Seq<ScenarioDefinition>, active: Option<String>,
    query: Map<Seq<char>, Seq<char>>, headers: Map<Seq<char>, Seq<char>>, body: Option<JsonValue>) -> bool {
    &&& first_conditional(scs, query, headers, body) is None
    &&& selected_by_name(scs, active) is None
    &&& rotation_candidates(scs).len() > 0
}

/// Two states agree on everything.
pub open spec fn same_state(a: ServiceState, b: ServiceState) -> bool {
    &&& a.wf() == b.wf()
    &&& a.fixtures_view() == b.fixtures_view()
    &&& a.initial_view() == b.initial_view()
    &&& a.runtime_view() == b.runtime_view()
    &&& forall|e: usize| #[trigger] a.counter_of(e) == b.counter_of(e)
}

/// The answer given by scenario `i`.
pub open spec fn answers_with(r: Option<(u16, &ResponseDefinition)>, scs: Seq<ScenarioDefinition>, i: int) -> bool {
    r matches Some((status, def)) && status == scs[i].response.status && *def == scs[i].response.definition
}

/// Whether a request meets a scenario's conditions.
#[verifier::loop_isolation(false)]
pub fn conditions_match(c: &ScenarioConditions, query: &StrMap<String>, headers: &StrMap<String>, body: &Option<JsonValue>) -> (b: bool)
    requires
        query.wf(),
        headers.wf(),
    ensures
        b == conditions_hold(*c, headers_view(*query), headers_view(*headers), *body),
{
    if let Some(q) = &c.query {
        let mut i: usize = 0;
        while i < q.len()
            invariant
                query.wf(),
                i <= q@.len(),
                forall|j: int| 0 <= j < i ==> headers_view(*query).contains_key(#[trigger] q@[j].0@)
                    && headers_view(*query)[q@[j].0@] == q@[j].1@,
            decreases q@.len() - i,
        {
            let ok = match query.get(q[i].0.as_str()) {
                Some(x) => str_eq(x.as_str(), q[i].1.as_str()),
                None => false,
            };
            if !ok {
                assert(!query_conditions_hold(c.query, headers_view(*query)));
                return false;
            }
            i = i + 1;
        }
    }
    if let Some(h) = &c.headers {
        let mut i: usize = 0;
        while i < h.len()
            invariant
                headers.wf(),
                i <= h@.len(),
                forall|j: int| 0 <= j < i ==> headers_view(*headers).contains_key(#[trigger] h@[j].0@)
                    && eq_ignore_ascii_case_spec(headers_view(*headers)[h@[j].0@], h@[j].1@),
            decreases h@.len() - i,
        {
            let ok = match headers.get(h[i].0.as_str()) {
                Some(x) => eq_ignore_ascii_case(x.as_str(), h[i].1.as_str()),
                None => false,
            };
            if !ok {
                assert(!header_conditions_hold(c.headers, headers_view(*headers)));
                return false;
            }
            i = i + 1;
        }
    }
    if let Some(b) = &c.body {
        match body {
            Some(JsonValue::Object(fields)) => {
                let mut i: usize = 0;
                while i < b.len()
                    invariant
                        i <= b@.len(),
                        forall|j: int| 0 <= j < i ==> match field_of(fields@, #[trigger] b@[j].0@) {
                            Some(x) => json_equal(x, b@[j].1),
                            None => false,
                        },
                    decreases b@.len() - i,
                {
                    let ok = match object_get(fields, b[i].0.as_str()) {
                        Some(x) => json_eq(x, &b[i].1),
                        None => false,
                    };
                    if !ok {
                        assert(!body_conditions_hold(c.body, *body));
                        return false;
                    }
                    i = i + 1;
                }
            },
            _ => {
                return false;
            },
        }
    }
    true
}

/// What choosing the scenario of a request does (see [`scenario_choice`]):
/// the choice `r` made, the state before (`s0`) and after (`s1`).
pub open spec fn scenario_choice_ok(endpoint: EndpointDefinition, s0: ServiceState, s1: ServiceState, endpoint_index: usize,
    active_scenario: Option<String>, query: Map<Seq<char>, Seq<char>>, headers: Map<Seq<char>, Seq<char>>,
    body: Option<JsonValue>, r: Option<usize>) -> bool {
    &&& r matches Some(k) ==> (endpoint.scenarios matches Some(v) && k < v@.len())
    &&& s1.wf()
    &&& s1.fixtures_view() == s0.fixtures_view()
    &&& s1.initial_view() == s0.initial_view()
    &&& s1.runtime_view() == s0.runtime_view()
    &&& match endpoint.scenarios {
            None => r is None && same_state(s1, s0),
            Some(v) => {
                let scs = v@;
                match first_conditional(scs, query, headers, body) {
                    Some(i) => (r matches Some(c) && c == i) && same_state(s1, s0),
                    None => match selected_by_name(scs, active_scenario) {
                        Some(i) => (r matches Some(c) && c == i) && same_state(s1, s0),
                        None => {
                            let cs = rotation_candidates(scs);
                            if cs.len() == 0 {
                                r is None && same_state(s1, s0)
                            } else {
                                match rotation_strategy(scs) {
                                    ScenarioStrategy::Sequential => {
                                        let k = s0.counter_of(endpoint_index);
                                        &&& (r matches Some(c) && c == cs[k as int])
                                        &&& s1.counter_of(endpoint_index) == (k + 1) % (cs.len() as int)
                                        &&& forall|e: usize| e != endpoint_index ==> #[trigger] s1.counter_of(e)
                                            == s0.counter_of(e)
                                    },
                                    ScenarioStrategy::Random => {
                                        &&& exists|k: int| 0 <= k < cs.len() && (r matches Some(c) && c == #[trigger] cs[k])
                                        &&& forall|e: usize| #[trigger] s1.counter_of(e) == s0.counter_of(e)
                                    },
                                }
                            }
                        },
                    },
                }
            },
        }
}

/// The position of the scenario answering a request, if any: the first whose
/// conditions the request meets; else the one named by the active scenario;
/// else the next of the scenarios with neither conditions nor name, in the
/// rotation of the first of them (sequential by default, or random).
#[verifier::loop_isolation(false)]
pub fn scenario_choice(endpoint: &EndpointDefinition, state: &mut ServiceState, endpoint_index: usize,
    active_scenario: Option<String>, query: &StrMap<String>, headers: &StrMap<String>, body: &Option<JsonValue>)
    -> (r: Option<usize>)
    requires
        query.wf(),
        headers.wf(),
        old(state).wf(),
        endpoint.scenarios matches Some(v) ==> (reaches_rotation(v@, active_scenario, headers_view(*query),
            headers_view(*headers), *body) && rotation_strategy(v@) == ScenarioStrategy::Sequential
            ==> old(state).counter_of(endpoint_index) < rotation_candidates(v@).len()),
    ensures
        scenario_choice_ok(*endpoint, *old(state), *final(state), endpoint_index, active_scenario,
            headers_view(*query), headers_view(*headers), *body, r),
{
    let scenarios = match &endpoint.scenarios {
        Some(v) => v,
        None => {
            return None;
        },
    };
    let ghost scs = scenarios@;
    let ghost qv = headers_view(*query);
    let ghost hv = headers_view(*headers);
    let mut i: usize = 0;
    while i < scenarios.len()
        invariant
            query.wf(),
            headers.wf(),
            scs == scenarios@,
            qv == headers_view(*query),
            hv == headers_view(*headers),
            i <= scs.len(),
            first_conditional(scs.take(i as int), qv, hv, *body) is None,
        decreases scs.len() - i,
    {
        proof {
            assert(scs.take(i + 1).drop_last() =~= scs.take(i as int));
            assert(scs.take(i + 1).last() == scs[i as int]);
        }
        if let Some(cond) = &scenarios[i].conditions {
            if conditions_match(cond, query, headers, body) {
                proof {
                    lemma_first_conditional_prefix(scs, qv, hv, *body, i as int);
                }
                return Some(i);
            }
        }
        i = i + 1;
    }
    assert(scs.take(scs.len() as int) =~= scs);
    if let Some(active) = &active_scenario {
        let mut j: usize = 0;
        while j < scenarios.len()
            invariant
                scs == scenarios@,
                j <= scs.len(),
                first_named(scs.take(j as int), active@) is None,
            decreases scs.len() - j,
        {
            proof {
                assert(scs.take(j + 1).drop_last() =~= scs.take(j as int));
                assert(scs.take(j + 1).last() == scs[j as int]);
            }
            if let Some(name) = &scenarios[j].name {
                if str_eq(name.as_str(), active.as_str()) {
                    proof {
                        lemma_first_named_prefix(scs, active@, j as int);
                    }
                    return Some(j);
                }
            }
            j = j + 1;
        }
        assert(scs.take(scs.len() as int) =~= scs);
    }
    let mut cands: Vec<usize> = Vec::new();
    let mut k: usize = 0;
    while k < scenarios.len()
        invariant
            scs == scenarios@,
            k <= scs.len(),
            cands@.len() == rotation_candidates(scs.take(k as int)).len(),
            forall|m: int| 0 <= m < cands@.len() ==> cands@[m] as int == #[trigger] rotation_candidates(scs.take(k as int))[m],
            forall|m: int| 0 <= m < cands@.len() ==> #[trigger] cands@[m] < k,
        decreases scs.len() - k,
    {
        proof {
            assert(scs.take(k + 1).drop_last() =~= scs.take(k as int));
            assert(scs.take(k + 1).last() == scs[k as int]);
        }
        if scenarios[k].conditions.is_none() && scenarios[k].name.is_none() {
            cands.push(k);
        }
        k = k + 1;
    }
    assert(scs.take(scs.len() as int) =~= scs);
    if cands.len() == 0 {
        return None;
    }
    let strategy = match scenarios[cands[0]].strategy {
        Some(s) => s,
        None => ScenarioStrategy::Sequential,
    };
    let index = state.next_response_index(endpoint_index, cands.len(), strategy);
    let r = Some(cands[index]);
    proof {
        let cs = rotation_candidates(scs);
        assert(cands@[index as int] as int == cs[index as int]);
    }
    r
}

/// Picks the scenario answering a request, if any: the first whose
/// conditions the request meets; else the one named by the active scenario;
/// else the next of the scenarios with neither conditions nor name, in the
/// rotation of the first of them (sequential by default, or random).
pub fn match_scenario<'a>(endpoint: &'a EndpointDefinition, state: &mut ServiceState, endpoint_index: usize,
    active_scenario: Option<String>, query: &StrMap<String>, headers: &StrMap<String>, body: &Option<JsonValue>)
    -> (r: Option<(u16, &'a ResponseDefinition)>)
    requires
        query.wf(),
        headers.wf(),
        old(state).wf(),
        endpoint.scenarios matches Some(v) ==> (reaches_rotation(v@, active_scenario, headers_view(*query),
            headers_view(*headers), *body) && rotation_strategy(v@) == ScenarioStrategy::Sequential
            ==> old(state).counter_of(endpoint_index) < rotation_candidates(v@).len()),
    ensures
        final(state).wf(),
        final(state).fixtures_view() == old(state).fixtures_view(),
        final(state).initial_view() == old(state).initial_view(),
        final(state).runtime_view() == old(state).runtime_view(),
        match endpoint.scenarios {
            None => r is None && same_state(*final(state), *old(state)),
            Some(v) => {
                let scs = v@;
                let qv = headers_view(*query);
                let hv = headers_view(*headers);
                match first_conditional(scs, qv, hv, *body) {
                    Some(i) => answers_with(r, scs, i) && same_state(*final(state), *old(state)),
                    None => match selected_by_name(scs, active_scenario) {
                        Some(i) => answers_with(r, scs, i) && same_state(*final(state), *old(state)),
                        None => {
                            let cs = rotation_candidates(scs);
                            if cs.len() == 0 {
                                r is None && same_state(*final(state), *old(state))
                            } else {
                                match rotation_strategy(scs) {
                                    ScenarioStrategy::Sequential => {
                                        let k = old(state).counter_of(endpoint_index);
                                        &&& answers_with(r, scs, cs[k as int])
                                        &&& final(state).counter_of(endpoint_index) == (k + 1) % (cs.len() as int)
                                        &&& forall|e: usize| e != endpoint_index ==> #[trigger] final(state).counter_of(e)
                                            == old(state).counter_of(e)
                                    },
                                    ScenarioStrategy::Random => {
                                        &&& exists|k: int| 0 <= k < cs.len() && answers_with(r, scs, cs[k])
                                        &&& forall|e: usize| #[trigger] final(state).counter_of(e) == old(state).counter_of(e)
                                    },
                                }
                            }
                        },
                    },
                }
            },
        },
{
    let choice = scenario_choice(endpoint, state, endpoint_index, active_scenario, query, headers, body);
    match choice {
        Some(k) => {
            let scenarios = match &endpoint.scenarios {
                Some(v) => v,
                None => {
                    return None;
                },
            };
            Some((scenarios[k].response.status, &scenarios[k].response.definition))
        },
        None => None,
    }
}

/// A scenario matching first in a prefix is the first match of the whole.
proof fn lemma_first_conditional_prefix(scs: Seq<ScenarioDefinition>, q: Map<Seq<char>, Seq<char>>,
    h: Map<Seq<char>, Seq<char>>, b: Option<JsonValue>, i: int)
    requires
        0 <= i < scs.len(),
        first_conditional(scs.take(i), q, h, b) is None,
        scs[i].conditions matches Some(c) && conditions_hold(c, q, h, b),
    ensures
        first_conditional(scs, q, h, b) == Some(i),
    decreases scs.len(),
{
    if i < scs.len() - 1 {
        assert(scs.drop_last().take(i) =~= scs.take(i));
        lemma_first_conditional_prefix(scs.drop_last(), q, h, b, i);
    } else {
        assert(scs.take(i) =~= scs.drop_last());
    }
}

/// A name found first in a prefix is the first of the whole.
proof fn lemma_first_named_prefix(scs: Seq<ScenarioDefinition>, name: Seq<char>, i: int)
    requires
        0 <= i < scs.len(),
        first_named(scs.take(i), name) is None,
        scs[i].name matches Some(n) && n@ == name,
    ensures
        first_named(scs, name) == Some(i),
    decreases scs.len(),
{
    if i < scs.len() - 1 {
        assert(scs.drop_last().take(i) =~= scs.take(i));
        lemma_first_named_prefix(scs.drop_last(), name, i);
    } else {
        assert(scs.take(i) =~= scs.drop_last());
    }
}

/// The rotation counter of an endpoint stays among its candidates: it is
/// below their number whenever the endpoint rotates in sequence.
pub open spec fn rotation_in_range(scs: Seq<ScenarioDefinition>, counter: usize) -> bool {
    rotation_candidates(scs).len() > 0 && rotation_strategy(scs) == ScenarioStrategy::Sequential
        ==> counter < rotation_candidates(scs).len()
}

/// Whether an endpoint's rotation counter can pick a scenario: a counter
/// past its candidates (left by a definition that changed) cannot.
pub fn rotation_ready(endpoint: &EndpointDefinition, state: &ServiceState, endpoint_index: usize) -> (b: bool)
    ensures
        b == match endpoint.scenarios {
            Some(v) => rotation_in_range(v@, state.counter_of(endpoint_index)),
            None => true,
        },
{
    match &endpoint.scenarios {
        None => true,
        Some(scs) => {
            let mut count: usize = 0;
            let mut first: usize = 0;
            let mut i: usize = 0;
            assert(scs@.take(0) =~= Seq::<ScenarioDefinition>::empty());
            while i < scs.len()
                invariant
                    i <= scs@.len(),
                    count == rotation_candidates(scs@.take(i as int)).len(),
                    count <= i,
                    count > 0 ==> first == rotation_candidates(scs@.take(i as int))[0],
                decreases scs@.len() - i,
            {
                assert(scs@.take(i + 1).drop_last() =~= scs@.take(i as int));
                assert(scs@.take(i + 1).last() == scs@[i as int]);
                if scs[i].conditions.is_none() && scs[i].name.is_none() {
                    if count == 0 {
                        first = i;
                    }
                    count = count + 1;
                }
                i = i + 1;
            }
            assert(scs@.take(scs@.len() as int) =~= scs@);
            if count == 0 {
                return true;
            }
            proof {
                lemma_candidates_in_range(scs@);
            }
            let sequential = match scs[first].strategy {
                Some(ScenarioStrategy::Random) => false,
                _ => true,
            };
            !sequential || state.response_counter(endpoint_index) < count
        },
    }
}

/// The candidates are positions of the scenarios.
proof fn lemma_candidates_in_range(scs: Seq<ScenarioDefinition>)
    ensures
        forall|k: int| 0 <= k < rotation_candidates(scs).len() ==> 0 <= #[trigger] rotation_candidates(scs)[k] < scs.len(),
    decreases scs.len(),
{
    if scs.len() > 0 {
        let prev = rotation_candidates(scs.drop_last());
        lemma_candidates_in_range(scs.drop_last());
        assert forall|k: int| 0 <= k < rotation_candidates(scs).len() implies 0 <= #[trigger] rotation_candidates(scs)[k] < scs.len() by {
            if k < prev.len() {
                assert(rotation_candidates(scs)[k] == prev[k]);
            }
        }
    }
}


/// The value of a field of a request body that is a JSON object.
pub open spec fn body_field(body: Option<JsonValue>, key: Seq<char>) -> Option<JsonValue> {
    match body {
        Some(JsonValue::Object(fields)) => field_of(fields@, key),
        _ => None,
    }
}

/// A scenario's body condition on a field holds only for a JSON object body
/// whose field has that very value: a body holding the field with another
/// value fails the scenario's conditions, whatever the query and headers.
pub proof fn lemma_body_value_decides(c: ScenarioConditions, query: Map<Seq<char>, Seq<char>>,
    headers: Map<Seq<char>, Seq<char>>, body: Option<JsonValue>, j: int, x: JsonValue)
    requires
        c.body is Some,
        0 <= j < c.body->0@.len(),
        body_field(body, c.body->0@[j].0@) == Some(x),
        crate::json::json_data(x) != crate::json::json_data(c.body->0@[j].1),
    ensures
        !conditions_hold(c, query, headers, body),
{
    let v = c.body->0;
    assert(!match body {
        Some(JsonValue::Object(fields)) => match field_of(fields@, v@[j].0@) {
            Some(y) => json_equal(y, v@[j].1),
            None => false,
        },
        _ => false,
    });
}

/// A scenario that fails its conditions is never the one chosen by
/// conditions: the scenario [`first_conditional`] names meets its
/// conditions.
pub proof fn lemma_chosen_by_conditions_meets_them(scs: Seq<ScenarioDefinition>, query: Map<Seq<char>, Seq<char>>,
    headers: Map<Seq<char>, Seq<char>>, body: Option<JsonValue>)
    ensures
        first_conditional(scs, query, headers, body) matches Some(i) ==> (0 <= i < scs.len()
            && (scs[i].conditions matches Some(c) && conditions_hold(c, query, headers, body))),
    decreases scs.len(),
{
    if scs.len() > 0 {
        lemma_chosen_by_conditions_meets_them(scs.drop_last(), query, headers, body);
    }
}

/// The wrong-value body rule, for a list of scenarios: a scenario whose
/// body condition the request's body contradicts (the field is there with
/// another value) is not the one chosen by conditions.
pub proof fn lemma_contradicted_scenario_not_chosen(scs: Seq<ScenarioDefinition>, query: Map<Seq<char>, Seq<char>>,
    headers: Map<Seq<char>, Seq<char>>, body: Option<JsonValue>, i: int, j: int, x: JsonValue)
    requires
        0 <= i < scs.len(),
        scs[i].conditions is Some,
        scs[i].conditions->0.body is Some,
        0 <= j < scs[i].conditions->0.body->0@.len(),
        body_field(body, scs[i].conditions->0.body->0@[j].0@) == Some(x),
        crate::json::json_data(x) != crate::json::json_data(scs[i].conditions->0.body->0@[j].1),
    ensures
        first_conditional(scs, query, headers, body) != Some(i),
{
    lemma_chosen_by_conditions_meets_them(scs, query, headers, body);
    lemma_body_value_decides(scs[i].conditions->0, query, headers, body, j, x);
}


/// A body condition is met by a JSON object body holding each named field
/// with the required value, whatever other fields it holds.
pub proof fn lemma_matching_body_meets_condition(b: Option<Vec<(String, JsonValue)>>, body: Option<JsonValue>)
    requires
        b matches Some(v) ==> (body matches Some(JsonValue::Object(_)) && forall|j: int| 0 <= j < v@.len() ==> (
            #[trigger] body_field(body, v@[j].0@) matches Some(x) && crate::json::json_data(x)
                == crate::json::json_data(v@[j].1))),
    ensures
        body_conditions_hold(b, body),
{
    if let Some(v) = b {
        if let Some(JsonValue::Object(fields)) = body {
            assert forall|i: int| 0 <= i < v@.len() implies (match field_of(fields@, #[trigger] v@[i].0@) {
                Some(x) => json_equal(x, v@[i].1),
                None => false,
            }) by {
                assert(body_field(body, v@[i].0@) == field_of(fields@, v@[i].0@));
            }
        }
    }
}

} // verus!
