//! A service instance: its definition, port, state, active scenario and
//! whether it runs. Serving requests is done around it.

use vstd::prelude::*;
use crate::config::{BehaviorConfig, CorsConfig, EndpointDefinition, ServiceDefinition};
use crate::config::ScenarioStrategy;
use crate::scenario::{
    first_conditional, rotation_candidates, rotation_in_range, rotation_strategy, scenario_choice, scenario_choice_ok,
    selected_by_name,
};
use crate::endpoints::{
    endpoint_matches, endpoint_path_to_regex_static, endpoint_regex, extract_path_parameters_static,
    find_endpoint_with_params_static, headers_view, path_params_spec,
};
use crate::routing::PathParameters;
use crate::handler::{runtime_error_view, RuntimeError};
use crate::json::{fields_data, json_clone, json_data, lemma_fields_data_ext, JsonData, JsonValue};
use crate::routing::RouteMatch;
use crate::state::{data_map, ServiceState};
use crate::status::{service_info, ServiceInfo};
use crate::strmap::StrMap;
use crate::text::{concat3, decimal, usize_to_string};
use crate::validation::{config_error_view, consistency_of, ConfigError};

verus! {

/// Named values set one after another: a later entry replaces an earlier one
/// with the same name.
pub open spec fn entries_map(es: Seq<(Seq<char>, JsonData)>) -> Map<Seq<char>, JsonData>
    decreases es.len(),
{
    if es.len() == 0 {
        Map::empty()
    } else {
        entries_map(es.drop_last()).insert(es.last().0, es.last().1)
    }
}

/// A table of named JSON values.
pub fn json_table(entries: &Vec<(String, JsonValue)>) -> (m: StrMap<JsonValue>)
    ensures
        m.wf(),
        data_map(m) == entries_map(fields_data(entries@)),
{
    let ghost ed = fields_data(entries@);
    proof {
        lemma_fields_data_ext(entries@);
        assert(ed.take(0) =~= Seq::<(Seq<char>, JsonData)>::empty());
    }
    let mut m: StrMap<JsonValue> = StrMap::new();
    assert(data_map(m) =~= Map::<Seq<char>, JsonData>::empty());
    let mut i: usize = 0;
    while i < entries.len()
        invariant
            i <= entries@.len(),
            m.wf(),
            ed == fields_data(entries@),
            ed.len() == entries@.len(),
            forall|j: int| 0 <= j < entries@.len() ==> #[trigger] ed[j] == (entries@[j].0@, json_data(entries@[j].1)),
            data_map(m) == entries_map(ed.take(i as int)),
        decreases entries@.len() - i,
    {
        proof {
            assert(ed.take(i + 1).drop_last() =~= ed.take(i as int));
            assert(ed.take(i + 1).last() == ed[i as int]);
        }
        let ghost before = data_map(m);
        let v = json_clone(&entries[i].1);
        m.insert(entries[i].0.clone(), v);
        assert(data_map(m) =~= before.insert(entries@[i as int].0@, json_data(entries@[i as int].1)));
        i = i + 1;
    }
    assert(ed.take(entries@.len() as int) =~= ed);
    m
}

fn optional_table(entries: &Option<Vec<(String, JsonValue)>>) -> (m: Option<StrMap<JsonValue>>)
    ensures
        match entries {
            Some(es) => m matches Some(t) && t.wf() && data_map(t) == entries_map(fields_data(es@)),
            None => m is None,
        },
{
    match entries {
        Some(es) => Some(json_table(es)),
        None => None,
    }
}

/// The starting table of optional entries.
pub open spec fn initial_table(entries: Option<Vec<(String, JsonValue)>>) -> Map<Seq<char>, JsonData> {
    match entries {
        Some(es) => entries_map(fields_data(es@)),
        None => Map::empty(),
    }
}

/// Every sequential scenario rotation of the service points at one of its
/// scenarios: the rotation counter of each endpoint that rotates in
/// sequence is below its number of candidates.
pub open spec fn rotations_ok(inst: ServiceInstance) -> bool {
    let eps = inst.definition_view().endpoints@;
    forall|e: int| 0 <= e < eps.len() ==> ((#[trigger] eps[e]).scenarios matches Some(v)
        ==> rotation_in_range(v@, inst.state_view().counter_of(e as usize)))
}

/// Choosing a scenario keeps every rotation counter in range: a sequential
/// rotation moves on modulo its number of candidates, and nothing else
/// changes a counter.
proof fn lemma_choice_keeps_rotations(i0: ServiceInstance, i1: ServiceInstance, k: usize,
    q: Map<Seq<char>, Seq<char>>, h: Map<Seq<char>, Seq<char>>, body: Option<JsonValue>, r: Option<usize>)
    requires
        k < i0.definition_view().endpoints@.len(),
        i1.definition_view() == i0.definition_view(),
        scenario_choice_ok(i0.definition_view().endpoints@[k as int], i0.state_view(), i1.state_view(), k,
            i0.scenario(), q, h, body, r),
        rotations_ok(i0),
    ensures
        rotations_ok(i1),
{
    let eps = i0.definition_view().endpoints@;
    let s0 = i0.state_view();
    let s1 = i1.state_view();
    let moved = match eps[k as int].scenarios {
        Some(v) => first_conditional(v@, q, h, body) is None && selected_by_name(v@, i0.scenario()) is None
            && rotation_candidates(v@).len() > 0 && rotation_strategy(v@) == ScenarioStrategy::Sequential,
        None => false,
    };
    assert(forall|e: usize| e != k ==> #[trigger] s1.counter_of(e) == s0.counter_of(e));
    assert(!moved ==> forall|e: usize| #[trigger] s1.counter_of(e) == s0.counter_of(e));
    assert forall|e: int| 0 <= e < eps.len() implies ((#[trigger] eps[e]).scenarios matches Some(v)
        ==> rotation_in_range(v@, s1.counter_of(e as usize))) by {
        assert(eps.len() == i0.definition_view().endpoints.len());
        assert((e as usize) as int == e);
        if e != k as int {
            assert(s1.counter_of(e as usize) == s0.counter_of(e as usize));
        } else if !moved {
            assert(s1.counter_of(k) == s0.counter_of(k));
        }
    }
}

/// The error for a port that could not be bound, with the binder's error
/// text.
pub open spec fn bind_failure(port: u16, m: Seq<char>) -> (Seq<char>, Seq<char>) {
    ("Failed to bind to port "@ + decimal(port as nat) + ": "@ + m, "Port may already be in use or unavailable"@)
}

/// A service instance.
#[derive(Debug)]
pub struct ServiceInstance {
    definition: ServiceDefinition,
    port: u16,
    state: ServiceState,
    is_running: bool,
    active_scenario: Option<String>,
}

impl ServiceInstance {
    /// The definition served.
    pub closed spec fn definition_view(&self) -> ServiceDefinition {
        self.definition
    }

    /// The port served on.
    pub closed spec fn port_view(&self) -> u16 {
        self.port
    }

    /// Whether the service runs.
    pub closed spec fn running(&self) -> bool {
        self.is_running
    }

    /// The scenario forced on every endpoint, if any.
    pub closed spec fn scenario(&self) -> Option<String> {
        self.active_scenario
    }

    /// The state of the service.
    pub closed spec fn state_view(&self) -> ServiceState {
        self.state
    }

    /// A stopped instance whose state starts from the definition's fixtures
    /// and bucket, without an active scenario.
    pub fn new(definition: ServiceDefinition, port: u16) -> (s: Self)
        ensures
            s.definition_view() == definition,
            s.port_view() == port,
            !s.running(),
            s.scenario() is None,
            s.state_view().wf(),
            s.state_view().fixtures_view() == initial_table(definition.fixtures),
            s.state_view().initial_view() == initial_table(definition.fixtures),
            s.state_view().bucket_view() == initial_table(definition.bucket),
            s.state_view().runtime_view() == Map::<Seq<char>, JsonData>::empty(),
            rotations_ok(s),
    {
        let fixtures = optional_table(&definition.fixtures);
        let bucket = optional_table(&definition.bucket);
        let state = ServiceState::new(fixtures, bucket);
        ServiceInstance { definition, port, state, is_running: false, active_scenario: None }
    }

    /// Whether the service runs.
    pub fn is_running(&self) -> (b: bool)
        ensures
            b == self.running(),
    {
        self.is_running
    }

    /// The port served on.
    pub fn port(&self) -> (p: u16)
        ensures
            p == self.port_view(),
    {
        self.port
    }

    /// The base path of the service.
    pub fn base_path(&self) -> (r: String)
        ensures
            r@ == self.definition_view().server.base_path@,
    {
        self.definition.server.base_path.clone()
    }

    /// The name of the service.
    pub fn name(&self) -> (r: String)
        ensures
            r@ == self.definition_view().name@,
    {
        self.definition.name.clone()
    }

    /// The number of endpoints.
    pub fn endpoints_count(&self) -> (n: usize)
        ensures
            n == self.definition_view().endpoints@.len(),
    {
        self.definition.endpoints.len()
    }

    /// The endpoints.
    pub fn endpoints(&self) -> (r: &Vec<EndpointDefinition>)
        ensures
            *r == self.definition_view().endpoints,
    {
        &self.definition.endpoints
    }

    /// The definition.
    pub fn definition(&self) -> (r: &ServiceDefinition)
        ensures
            *r == self.definition_view(),
    {
        &self.definition
    }

    /// The behavior settings.
    pub fn behavior(&self) -> (r: &Option<BehaviorConfig>)
        ensures
            *r == self.definition_view().behavior,
    {
        &self.definition.behavior
    }

    /// The CORS settings.
    pub fn cors_config(&self) -> (r: &Option<CorsConfig>)
        ensures
            *r == self.definition_view().server.cors,
    {
        &self.definition.server.cors
    }

    /// Whether CORS is configured and enabled.
    pub fn has_cors(&self) -> (b: bool)
        ensures
            b == (self.definition_view().server.cors matches Some(c) && c.enabled),
    {
        match &self.definition.server.cors {
            Some(c) => c.enabled,
            None => false,
        }
    }

    /// The state of the service.
    pub fn state(&self) -> (r: &ServiceState)
        ensures
            *r == self.state_view(),
    {
        &self.state
    }

    /// The state of the service, for changing it.
    pub fn state_mut(&mut self) -> (r: &mut ServiceState)
        ensures
            *r == old(self).state_view(),
            final(self).state_view() == *final(r),
            final(self).definition_view() == old(self).definition_view(),
            final(self).port_view() == old(self).port_view(),
            final(self).running() == old(self).running(),
            final(self).scenario() == old(self).scenario(),
    {
        &mut self.state
    }

    /// Stores a runtime value under `key`.
    pub fn update_state(&mut self, key: &str, value: JsonValue)
        requires
            old(self).state_view().wf(),
        ensures
            final(self).state_view().wf(),
            final(self).state_view().runtime_view() == old(self).state_view().runtime_view().insert(key@, json_data(value)),
            final(self).state_view().fixtures_view() == old(self).state_view().fixtures_view(),
            final(self).state_view().initial_view() == old(self).state_view().initial_view(),
            final(self).definition_view() == old(self).definition_view(),
            final(self).port_view() == old(self).port_view(),
            final(self).running() == old(self).running(),
            final(self).scenario() == old(self).scenario(),
    {
        self.state.set_runtime_data(String::from_str(key), value);
    }

    /// The value under `key`: the runtime value when there is one, else the
    /// fixture.
    pub fn get_state(&self, key: &str) -> (r: Option<JsonValue>)
        requires
            self.state_view().wf(),
        ensures
            match r {
                Some(v) => if self.state_view().runtime_view().contains_key(key@) {
                    json_data(v) == self.state_view().runtime_view()[key@]
                } else {
                    self.state_view().fixtures_view().contains_key(key@) && json_data(v)
                        == self.state_view().fixtures_view()[key@]
                },
                None => !self.state_view().runtime_view().contains_key(key@)
                    && !self.state_view().fixtures_view().contains_key(key@),
            },
    {
        match self.state.get_runtime_data(key) {
            Some(v) => Some(json_clone(v)),
            None => match self.state.get_fixture(key) {
                Some(v) => Some(json_clone(v)),
                None => None,
            },
        }
    }

    /// The current fixtures.
    pub fn get_fixtures(&self) -> (r: &StrMap<JsonValue>)
        requires
            self.state_view().wf(),
        ensures
            r.wf(),
            data_map(*r) == self.state_view().fixtures_view(),
    {
        self.state.all_fixtures()
    }

    /// Stores a fixture under `key`.
    pub fn update_fixture(&mut self, key: &str, value: JsonValue)
        requires
            old(self).state_view().wf(),
        ensures
            final(self).state_view().wf(),
            final(self).state_view().fixtures_view() == old(self).state_view().fixtures_view().insert(key@, json_data(value)),
            final(self).state_view().runtime_view() == old(self).state_view().runtime_view(),
            final(self).state_view().initial_view() == old(self).state_view().initial_view(),
            final(self).definition_view() == old(self).definition_view(),
            final(self).port_view() == old(self).port_view(),
            final(self).running() == old(self).running(),
            final(self).scenario() == old(self).scenario(),
    {
        self.state.set_fixture(String::from_str(key), value);
    }

    /// How many fixtures and runtime values there are.
    pub fn get_state_info(&self) -> (r: (usize, usize))
        requires
            self.state_view().wf(),
        ensures
            r.0 == self.state_view().fixtures_view().len(),
            r.1 == self.state_view().runtime_view().len(),
    {
        (self.state.fixture_count(), self.state.runtime_data_count())
    }

    /// The first endpoint answering a request.
    pub fn find_endpoint(&self, method: &str, path: &str, headers: &StrMap<String>) -> (r: Option<&EndpointDefinition>)
        requires
            headers.wf(),
        ensures
            match r {
                Some(e) => exists|i: int| 0 <= i < self.definition_view().endpoints@.len()
                    && *e == self.definition_view().endpoints@[i]
                    && endpoint_matches(self.definition_view().endpoints@[i], method@, path@, headers_view(*headers))
                    && forall|j: int| 0 <= j < i ==> !endpoint_matches(#[trigger] self.definition_view().endpoints@[j],
                        method@, path@, headers_view(*headers)),
                None => forall|j: int| 0 <= j < self.definition_view().endpoints@.len() ==> !endpoint_matches(
                    #[trigger] self.definition_view().endpoints@[j], method@, path@, headers_view(*headers)),
            },
    {
        crate::endpoints::find_endpoint(&self.definition, method, path, headers)
    }

    /// Adds an endpoint recorded from a request no endpoint answered; it
    /// answers such requests from then on.
    pub fn record_endpoint(&mut self, endpoint: EndpointDefinition)
        ensures
            final(self).definition_view().endpoints@ == old(self).definition_view().endpoints@.push(endpoint),
            final(self).definition_view().name == old(self).definition_view().name,
            final(self).definition_view().version == old(self).definition_view().version,
            final(self).definition_view().description == old(self).definition_view().description,
            final(self).definition_view().server == old(self).definition_view().server,
            final(self).definition_view().models == old(self).definition_view().models,
            final(self).definition_view().fixtures == old(self).definition_view().fixtures,
            final(self).definition_view().bucket == old(self).definition_view().bucket,
            final(self).definition_view().graphql == old(self).definition_view().graphql,
            final(self).definition_view().behavior == old(self).definition_view().behavior,
            final(self).port_view() == old(self).port_view(),
            final(self).running() == old(self).running(),
            final(self).scenario() == old(self).scenario(),
            final(self).state_view() == old(self).state_view(),
    {
        self.definition.endpoints.push(endpoint);
    }

    /// Picks the scenario answering a request to an endpoint, by position,
    /// with the scenario forced on the service (see
    /// [`crate::scenario::scenario_choice`]); a rotation moves on.
    pub fn choose_scenario(&mut self, endpoint_index: usize, query: &StrMap<String>, headers: &StrMap<String>,
        body: &Option<JsonValue>) -> (r: Option<usize>)
        requires
            endpoint_index < old(self).definition_view().endpoints@.len(),
            query.wf(),
            headers.wf(),
            old(self).state_view().wf(),
            old(self).definition_view().endpoints@[endpoint_index as int].scenarios matches Some(v)
                ==> rotation_in_range(v@, old(self).state_view().counter_of(endpoint_index)),
        ensures
            scenario_choice_ok(old(self).definition_view().endpoints@[endpoint_index as int], old(self).state_view(),
                final(self).state_view(), endpoint_index, old(self).scenario(), headers_view(*query),
                headers_view(*headers), *body, r),
            final(self).definition_view() == old(self).definition_view(),
            final(self).port_view() == old(self).port_view(),
            final(self).running() == old(self).running(),
            final(self).scenario() == old(self).scenario(),
            rotations_ok(*old(self)) ==> rotations_ok(*final(self)),
    {
        let ghost s0 = *self;
        let active = match &self.active_scenario {
            Some(x) => Some(x.clone()),
            None => None,
        };
        let r = scenario_choice(&self.definition.endpoints[endpoint_index], &mut self.state, endpoint_index, active,
            query, headers, body);
        proof {
            if rotations_ok(s0) {
                lemma_choice_keeps_rotations(s0, *self, endpoint_index, headers_view(*query), headers_view(*headers),
                    *body, r);
            }
        }
        r
    }

    /// The regular expression an endpoint path stands for.
    pub fn endpoint_path_to_regex(&self, endpoint_path: &str) -> (r: String)
        ensures
            r@ == endpoint_regex(endpoint_path@),
    {
        endpoint_path_to_regex_static(endpoint_path)
    }

    /// The parameters a request path gives an endpoint path, when it matches.
    pub fn extract_path_parameters(&self, endpoint_path: &str, request_path: &str) -> (r: Option<PathParameters>)
        ensures
            match r {
                Some(p) => p.wf() && path_params_spec(endpoint_path@, request_path@) == Some(p@),
                None => path_params_spec(endpoint_path@, request_path@) is None,
            },
    {
        extract_path_parameters_static(endpoint_path, request_path)
    }

    /// Forces a scenario on every endpoint, or lifts it.
    pub fn set_scenario(&mut self, scenario: Option<String>)
        ensures
            final(self).scenario() == scenario,
            final(self).definition_view() == old(self).definition_view(),
            final(self).port_view() == old(self).port_view(),
            final(self).running() == old(self).running(),
            final(self).state_view() == old(self).state_view(),
    {
        self.active_scenario = scenario;
    }

    /// The scenario forced, if any.
    pub fn get_scenario(&self) -> (r: Option<String>)
        ensures
            r == self.scenario(),
    {
        match &self.active_scenario {
            Some(x) => Some(x.clone()),
            None => None,
        }
    }

    /// The description of the service.
    pub fn get_info(&self) -> (r: ServiceInfo)
        ensures
            r.name@ == self.definition_view().name@,
            r.port == self.port_view(),
            r.base_path@ == self.definition_view().server.base_path@,
            r.endpoints_count == self.definition_view().endpoints@.len(),
            r.is_running == self.running(),
    {
        service_info(&self.definition, self.port, self.is_running)
    }

    /// Starts the service once its port was bound (or not): `bound` is the
    /// outcome of binding the listener to the service's port, with the
    /// binder's error text. Refuses a service that already runs (then no
    /// bind outcome matters); a failed bind leaves the service stopped.
    pub fn start(&mut self, bound: Result<(), String>) -> (r: Result<(), RuntimeError>)
        ensures
            old(self).running() ==> (r matches Err(e) && runtime_error_view(e)
                == ("Service '"@ + old(self).definition_view().name@ + "' is already running"@, Seq::<char>::empty())
                && final(self).running()),
            !old(self).running() ==> match bound {
                Ok(()) => r is Ok && final(self).running(),
                Err(m) => r matches Err(e) && runtime_error_view(e) == bind_failure(old(self).port_view(), m@)
                    && !final(self).running(),
            },
            r is Err ==> *final(self) == *old(self),
            final(self).definition_view() == old(self).definition_view(),
            final(self).port_view() == old(self).port_view(),
            final(self).state_view() == old(self).state_view(),
            final(self).scenario() == old(self).scenario(),
    {
        if self.is_running {
            return Err(RuntimeError {
                message: concat3("Service '", self.definition.name.as_str(), "' is already running"),
                suggestion: None,
            });
        }
        match bound {
            Ok(()) => {
                self.is_running = true;
                Ok(())
            },
            Err(m) => {
                let port = usize_to_string(self.port as usize);
                let mut message = concat3("Failed to bind to port ", port.as_str(), ": ");
                message.append(m.as_str());
                Err(RuntimeError {
                    message,
                    suggestion: Some(String::from_str("Port may already be in use or unavailable")),
                })
            },
        }
    }

    /// Marks the service as stopped (stopping a stopped service does
    /// nothing).
    pub fn stop(&mut self)
        ensures
            !final(self).running(),
            final(self).definition_view() == old(self).definition_view(),
            final(self).port_view() == old(self).port_view(),
            final(self).state_view() == old(self).state_view(),
            final(self).scenario() == old(self).scenario(),
    {
        self.is_running = false;
    }

    /// Requests are only served while the service runs.
    pub fn check_running(&self) -> (r: Result<(), RuntimeError>)
        ensures
            self.running() ==> r is Ok,
            !self.running() ==> (r matches Err(e) && runtime_error_view(e)
                == ("Service '"@ + self.definition_view().name@ + "' is not running"@,
                    "Start the service before handling requests"@)),
    {
        if self.is_running {
            Ok(())
        } else {
            Err(RuntimeError {
                message: concat3("Service '", self.definition.name.as_str(), "' is not running"),
                suggestion: Some(String::from_str("Start the service before handling requests")),
            })
        }
    }

    /// The first endpoint answering a request, with its position and path
    /// parameters.
    pub fn find_endpoint_with_params(&self, method: &str, path: &str, headers: &StrMap<String>) -> (r: Option<RouteMatch>)
        requires
            headers.wf(),
        ensures
            match r {
                Some(m) => {
                    let eps = self.definition_view().endpoints@;
                    &&& m.endpoint_index < eps.len()
                    &&& endpoint_matches(eps[m.endpoint_index as int], method@, path@, headers_view(*headers))
                    &&& forall|j: int| 0 <= j < m.endpoint_index ==> !endpoint_matches(#[trigger] eps[j], method@, path@, headers_view(*headers))
                    &&& m.endpoint.method@ == eps[m.endpoint_index as int].method@
                    &&& m.endpoint.path@ == eps[m.endpoint_index as int].path@
                    &&& m.path_params.wf()
                    &&& path_params_spec(eps[m.endpoint_index as int].path@, path@) == Some(m.path_params@)
                },
                None => forall|j: int| 0 <= j < self.definition_view().endpoints@.len()
                    ==> !endpoint_matches(#[trigger] self.definition_view().endpoints@[j], method@, path@, headers_view(*headers)),
            },
    {
        find_endpoint_with_params_static(self.definition.endpoints.as_slice(), method, path, headers)
    }

    /// Checks the definition for repeated endpoints and unknown models.
    pub fn validate_consistency(&self) -> (r: Result<(), ConfigError>)
        ensures
            match consistency_of(self.definition_view()) {
                Ok(()) => r is Ok,
                Err(e) => r matches Err(ce) && config_error_view(ce) == e && ce.suggestion is Some,
            },
    {
        crate::validation::validate_consistency(&self.definition)
    }
}

} // verus!
