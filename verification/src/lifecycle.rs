//! Starting and stopping the simulator: the loaded services are registered
//! with their routes, then started once their ports were bound.

use vstd::prelude::*;
use crate::config::{ServiceDefinition, SimulatorConfig};
use crate::handler::{runtime_error_view, RuntimeError};
use crate::instance::{initial_table, ServiceInstance};
use crate::json::JsonData;
use crate::ports::PortRange;
use crate::registry::{
    already_registered, fresh_instance, lemma_service_index_contains, port_error_view, port_outcome,
    registered_names, runs_after_start, start_failures, with_running, ServiceRegistry,
};
use crate::router::{normalize_path_spec, RequestRouter};

verus! {

/// What registering services in turn gives, on a registry with these names
/// and used ports: the ports assigned, and the refusal that stopped it, if
/// any.
pub open spec fn register_run(names: Seq<Seq<char>>, used: Seq<u16>, range: PortRange, defs: Seq<ServiceDefinition>)
    -> (Seq<u16>, Option<(Seq<char>, Seq<char>)>)
    decreases defs.len(),
{
    if defs.len() == 0 {
        (Seq::empty(), None)
    } else if names.contains(defs[0].name@) {
        (Seq::empty(), Some(already_registered(defs[0].name@)))
    } else {
        match port_outcome(range, used, defs[0].server.port) {
            Ok(p) => {
                let rest = register_run(names.push(defs[0].name@), used.push(p), range, defs.drop_first());
                (seq![p] + rest.0, rest.1)
            },
            Err(pe) => (Seq::empty(), Some(port_error_view(pe))),
        }
    }
}

/// The routes after the first `n` services were registered: each service's
/// normalized base path leads to it.
pub open spec fn routes_with(routes: Map<Seq<char>, Seq<char>>, defs: Seq<ServiceDefinition>, n: int)
    -> Map<Seq<char>, Seq<char>>
    decreases n,
{
    if n <= 0 {
        routes
    } else {
        routes_with(routes, defs, n - 1).insert(normalize_path_spec(defs[n - 1].server.base_path@), defs[n - 1].name@)
    }
}

/// An instance registered from a definition on a port: running or not as
/// given, without an active scenario, its state as the definition starts it.
pub open spec fn registered_as(s: ServiceInstance, definition: ServiceDefinition, port: u16, running: bool) -> bool {
    &&& s.definition_view() == definition
    &&& s.port_view() == port
    &&& s.running() == running
    &&& s.scenario() is None
    &&& s.state_view().wf()
    &&& s.state_view().fixtures_view() == initial_table(definition.fixtures)
    &&& s.state_view().initial_view() == initial_table(definition.fixtures)
    &&& s.state_view().bucket_view() == initial_table(definition.bucket)
    &&& s.state_view().runtime_view() == Map::<Seq<char>, JsonData>::empty()
}

/// The entries after registering and starting: the earlier ones, then one
/// per assigned port; all running when `started`, else the new ones
/// stopped and the earlier ones as they were.
pub open spec fn entries_after(news: Seq<ServiceInstance>, olds: Seq<ServiceInstance>, defs: Seq<ServiceDefinition>,
    ports: Seq<u16>, started: bool) -> bool {
    &&& news.len() == olds.len() + ports.len()
    &&& forall|i: int| 0 <= i < olds.len() ==> if started {
        with_running(#[trigger] news[i], olds[i], true)
    } else {
        news[i] == olds[i]
    }
    &&& forall|t: int| 0 <= t < ports.len() ==> registered_as(#[trigger] news[olds.len() + t], defs[t], ports[t], started)
}

/// The error for starting a simulator that is disabled.
pub open spec fn not_enabled() -> (Seq<char>, Seq<char>) {
    ("API simulator is not enabled"@, "Enable in configuration"@)
}

/// The error for starting a simulator that runs.
pub open spec fn already_active() -> (Seq<char>, Seq<char>) {
    ("API simulator is already running"@, Seq::empty())
}

/// The error for starting with no service.
pub open spec fn no_services() -> (Seq<char>, Seq<char>) {
    ("No service definitions found"@, "Add YAML service definition files to the services directory"@)
}

/// Registering services: registration in turn as [`register_run`] says,
/// each registered service's route added, every new service stopped and the
/// earlier ones as they were; a refusal stops there and is the error.
pub open spec fn registered(old_entries: Seq<ServiceInstance>, old_used: Seq<u16>, range: PortRange,
    old_routes: Map<Seq<char>, Seq<char>>, defs: Seq<ServiceDefinition>, entries: Seq<ServiceInstance>,
    used: Seq<u16>, routes: Map<Seq<char>, Seq<char>>, r: Result<(), RuntimeError>) -> bool {
    let (ports, refusal) = register_run(registered_names(old_entries), old_used, range, defs);
    &&& used == old_used + ports
    &&& routes == routes_with(old_routes, defs, ports.len() as int)
    &&& entries_after(entries, old_entries, defs, ports, false)
    &&& match refusal {
        Some(ev) => r matches Err(e) && runtime_error_view(e) == ev,
        None => r is Ok,
    }
}

/// The error when starting every service found some that could not start.
pub open spec fn start_all_error(olds: Seq<ServiceInstance>, bound: Seq<Result<(), String>>) -> (Seq<char>, Seq<char>) {
    ("Failed to start some services:\n"@ + crate::text::joined(start_failures(olds, bound), "\n"@),
        "Check service configurations and port availability"@)
}

/// Starts and stops the simulator's services.
pub struct SimulatorLifecycle {
    config: SimulatorConfig,
    service_registry: ServiceRegistry,
    route_registry: RequestRouter,
    is_active: bool,
}

impl SimulatorLifecycle {
    /// The configuration.
    pub closed spec fn config_view(&self) -> SimulatorConfig {
        self.config
    }

    /// The registry of services.
    pub closed spec fn registry(&self) -> ServiceRegistry {
        self.service_registry
    }

    /// The router.
    pub closed spec fn router(&self) -> RequestRouter {
        self.route_registry
    }

    /// Whether the simulator runs.
    pub closed spec fn active(&self) -> bool {
        self.is_active
    }

    /// The registry and the router are well formed.
    pub closed spec fn wf(&self) -> bool {
        self.service_registry.wf() && self.route_registry.wf()
    }

    /// A stopped simulator over a registry and a router.
    pub fn new(config: SimulatorConfig, service_registry: ServiceRegistry, route_registry: RequestRouter) -> (s: Self)
        requires
            service_registry.wf(),
            route_registry.wf(),
        ensures
            s.wf(),
            !s.active(),
            s.config_view() == config,
            s.registry() == service_registry,
            s.router() == route_registry,
    {
        SimulatorLifecycle { config, service_registry, route_registry, is_active: false }
    }

    /// Whether the simulator runs.
    pub fn is_active(&self) -> (b: bool)
        ensures
            b == self.active(),
    {
        self.is_active
    }

    /// The registry of services.
    pub fn service_registry(&self) -> (r: &ServiceRegistry)
        ensures
            *r == self.registry(),
    {
        &self.service_registry
    }

    /// The registry of services, for changing it; the simulator stays well
    /// formed when the registry does.
    pub fn service_registry_mut(&mut self) -> (r: &mut ServiceRegistry)
        ensures
            *r == old(self).registry(),
            final(self).registry() == *final(r),
            final(self).router() == old(self).router(),
            final(self).active() == old(self).active(),
            final(self).config_view() == old(self).config_view(),
            old(self).wf() && final(r).wf() ==> final(self).wf(),
    {
        &mut self.service_registry
    }

    /// The router.
    pub fn route_registry(&self) -> (r: &RequestRouter)
        ensures
            *r == self.router(),
    {
        &self.route_registry
    }

    /// Whether the simulator may start: it must be enabled and stopped.
    pub fn ready_to_start(&self) -> (r: Result<(), RuntimeError>)
        ensures
            !self.config_view().enabled ==> (r matches Err(e) && runtime_error_view(e) == not_enabled()),
            self.config_view().enabled && self.active() ==> (r matches Err(e) && runtime_error_view(e) == already_active()),
            self.config_view().enabled && !self.active() ==> r is Ok,
    {
        if !self.config.enabled {
            return Err(RuntimeError {
                message: String::from_str("API simulator is not enabled"),
                suggestion: Some(String::from_str("Enable in configuration")),
            });
        }
        if self.is_active {
            return Err(RuntimeError { message: String::from_str("API simulator is already running"), suggestion: None });
        }
        Ok(())
    }

    #[verifier::spinoff_prover]
    #[verifier::rlimit(100)]
    fn register_all(&mut self, services: Vec<ServiceDefinition>) -> (r: Result<(), RuntimeError>)
        requires
            old(self).wf(),
        ensures
            final(self).wf(),
            final(self).active() == old(self).active(),
            final(self).config_view() == old(self).config_view(),
            final(self).registry().port_range() == old(self).registry().port_range(),
            registered(old(self).registry().entries(), old(self).registry().used_ports(),
                old(self).registry().port_range(), old(self).router().routes(), services@,
                final(self).registry().entries(), final(self).registry().used_ports(), final(self).router().routes(), r),
    {
        let ghost defs = services@;
        let ghost e0 = self.service_registry.entries();
        let ghost u0 = self.service_registry.used_ports();
        let ghost range = self.service_registry.port_range();
        let ghost r0 = self.route_registry.routes();
        let ghost whole = register_run(registered_names(e0), u0, range, defs);
        let ghost mut ps: Seq<u16> = Seq::empty();
        let total = services.len();
        let mut remaining = services;
        let mut j: usize = 0;
        assert(defs.skip(0) =~= defs);
        assert(e0.subrange(0, e0.len() as int) =~= e0);
        assert(whole == (ps + register_run(registered_names(e0), u0, range, defs.skip(0)).0,
            register_run(registered_names(e0), u0, range, defs.skip(0)).1)) by {
            assert(ps + whole.0 =~= whole.0);
        }
        while remaining.len() > 0
            invariant
                self.service_registry.wf(),
                self.route_registry.wf(),
                self.is_active == old(self).is_active,
                self.config == old(self).config,
                self.service_registry.port_range() == range,
                range == old(self).service_registry.port_range(),
                e0 == old(self).service_registry.entries(),
                u0 == old(self).service_registry.used_ports(),
                r0 == old(self).route_registry.routes(),
                defs == services@,
                defs.len() == total,
                whole == register_run(registered_names(e0), u0, range, defs),
                j <= defs.len(),
                remaining@ == defs.skip(j as int),
                ps.len() == j,
                self.service_registry.used_ports() == u0 + ps,
                self.route_registry.routes() == routes_with(r0, defs, j as int),
                entries_after(self.service_registry.entries(), e0, defs, ps, false),
                whole == (ps + register_run(registered_names(self.service_registry.entries()),
                    self.service_registry.used_ports(), range, defs.skip(j as int)).0,
                    register_run(registered_names(self.service_registry.entries()),
                    self.service_registry.used_ports(), range, defs.skip(j as int)).1),
            decreases remaining@.len(),
        {
            assert(defs.skip(j as int).len() == defs.len() - j);
            let ghost before = self.service_registry.entries();
            let ghost used_before = self.service_registry.used_ports();
            let ghost names_before = registered_names(before);
            let d = remaining.remove(0);
            assert(d == defs[j as int]);
            assert(remaining@ =~= defs.skip(j + 1));
            assert(defs.skip(j as int).drop_first() =~= defs.skip(j + 1));
            let name = d.name.clone();
            let base = d.server.base_path.clone();
            proof {
                lemma_service_index_contains(before, d.name@);
            }
            match self.service_registry.register_service(d) {
                Ok(p) => {
                    self.route_registry.register_service_routes(name.as_str(), base.as_str());
                    proof {
                        let after = self.service_registry.entries();
                        assert(names_before.push(defs[j as int].name@) =~= registered_names(after)) by {
                            assert(after.drop_last() == before);
                            assert forall|k: int| 0 <= k < after.len() implies #[trigger] registered_names(after)[k]
                                == names_before.push(defs[j as int].name@)[k] by {
                                if k < before.len() {
                                    assert(after[k] == before[k]);
                                }
                            }
                        }
                        let rest = register_run(registered_names(after), used_before.push(p), range, defs.skip(j + 1));
                        assert(ps + (seq![p] + rest.0) =~= ps.push(p) + rest.0);
                        assert(u0 + ps.push(p) =~= (u0 + ps).push(p));
                        ps = ps.push(p);
                        assert forall|i: int| 0 <= i < e0.len() implies after[i] == e0[i] by {
                            assert(after[i] == before[i]);
                        }
                        assert forall|t: int| 0 <= t < ps.len() implies registered_as(#[trigger] after[e0.len() + t], defs[t], ps[t], false) by {
                            if t < ps.len() - 1 {
                                assert(after[e0.len() + t] == before[e0.len() + t]);
                            }
                        }
                    }
                },
                Err(e) => {
                    proof {
                        let rest = defs.skip(j as int);
                        assert(rest[0] == defs[j as int]);
                        let rr = register_run(names_before, used_before, range, rest);
                        assert(rr.0 =~= Seq::<u16>::empty());
                        assert(rr.1 == Some(runtime_error_view(e)));
                        assert(ps + Seq::<u16>::empty() =~= ps);
                        assert(whole.0 == ps);
                        assert(self.service_registry.entries() == before);
                    }
                    return Err(e);
                },
            }
            j = j + 1;
        }
        proof {
            assert(defs.skip(j as int) =~= Seq::<ServiceDefinition>::empty());
            assert(ps + Seq::<u16>::empty() =~= ps);
        }
        Ok(())
    }

    /// Prepares the simulator to start with the services loaded for it:
    /// refuses when it is disabled, already runs or was given no service;
    /// else registers each service with its route (see [`registered`]). The
    /// services are started, and the simulator runs, once their ports were
    /// bound: see [`SimulatorLifecycle::finish_start`].
    pub fn start(&mut self, services: Vec<ServiceDefinition>) -> (r: Result<(), RuntimeError>)
        requires
            old(self).wf(),
        ensures
            final(self).wf(),
            final(self).config_view() == old(self).config_view(),
            final(self).registry().port_range() == old(self).registry().port_range(),
            !old(self).config_view().enabled ==> (r matches Err(e) && runtime_error_view(e) == not_enabled()
                && *final(self) == *old(self)),
            old(self).config_view().enabled && old(self).active() ==> (r matches Err(e)
                && runtime_error_view(e) == already_active() && *final(self) == *old(self)),
            old(self).config_view().enabled && !old(self).active() && services@.len() == 0 ==> (r matches Err(e)
                && runtime_error_view(e) == no_services() && *final(self) == *old(self)),
            old(self).config_view().enabled && !old(self).active() && services@.len() > 0 ==> {
                &&& registered(old(self).registry().entries(), old(self).registry().used_ports(),
                    old(self).registry().port_range(), old(self).router().routes(), services@,
                    final(self).registry().entries(), final(self).registry().used_ports(), final(self).router().routes(), r)
                &&& !final(self).active()
            },
    {
        match self.ready_to_start() {
            Err(e) => return Err(e),
            Ok(()) => {},
        }
        if services.len() == 0 {
            return Err(RuntimeError {
                message: String::from_str("No service definitions found"),
                suggestion: Some(String::from_str("Add YAML service definition files to the services directory")),
            });
        }
        self.register_all(services)
    }

    /// Starts every registered service, each with the outcome of binding its
    /// port, in registration order (see
    /// [`ServiceRegistry::start_all_services`]); ports, routes and whether the
    /// simulator runs stay as they were.
    pub fn start_services(&mut self, bound: &Vec<Result<(), String>>) -> (r: Result<(), RuntimeError>)
        requires
            old(self).wf(),
            bound@.len() == old(self).registry().entries().len(),
        ensures
            final(self).wf(),
            final(self).active() == old(self).active(),
            final(self).config_view() == old(self).config_view(),
            final(self).router() == old(self).router(),
            final(self).registry().used_ports() == old(self).registry().used_ports(),
            final(self).registry().port_range() == old(self).registry().port_range(),
            final(self).registry().entries().len() == old(self).registry().entries().len(),
            forall|j: int| 0 <= j < old(self).registry().entries().len() ==> with_running(
                #[trigger] final(self).registry().entries()[j], old(self).registry().entries()[j],
                runs_after_start(old(self).registry().entries()[j], bound@[j])),
            start_failures(old(self).registry().entries(), bound@).len() == 0 ==> r is Ok,
            start_failures(old(self).registry().entries(), bound@).len() > 0 ==> (r matches Err(e)
                && runtime_error_view(e) == start_all_error(old(self).registry().entries(), bound@)),
    {
        self.service_registry.start_all_services(bound)
    }

    /// Finishes starting the simulator once the ports of its registered
    /// services were bound: starts them all (see
    /// [`SimulatorLifecycle::start_services`]), and the simulator runs when
    /// every one started.
    pub fn finish_start(&mut self, bound: &Vec<Result<(), String>>) -> (r: Result<(), RuntimeError>)
        requires
            old(self).wf(),
            bound@.len() == old(self).registry().entries().len(),
        ensures
            final(self).wf(),
            final(self).active() == (old(self).active() || r is Ok),
            final(self).config_view() == old(self).config_view(),
            final(self).router() == old(self).router(),
            final(self).registry().used_ports() == old(self).registry().used_ports(),
            final(self).registry().port_range() == old(self).registry().port_range(),
            final(self).registry().entries().len() == old(self).registry().entries().len(),
            forall|j: int| 0 <= j < old(self).registry().entries().len() ==> with_running(
                #[trigger] final(self).registry().entries()[j], old(self).registry().entries()[j],
                runs_after_start(old(self).registry().entries()[j], bound@[j])),
            start_failures(old(self).registry().entries(), bound@).len() == 0 ==> r is Ok,
            start_failures(old(self).registry().entries(), bound@).len() > 0 ==> (r matches Err(e)
                && runtime_error_view(e) == start_all_error(old(self).registry().entries(), bound@)),
    {
        let r = self.start_services(bound);
        if r.is_ok() {
            self.is_active = true;
        }
        r
    }

    /// Stops every service and removes every route; stopping a stopped
    /// simulator does nothing.
    pub fn stop(&mut self) -> (r: Result<(), RuntimeError>)
        requires
            old(self).wf(),
        ensures
            r is Ok,
            final(self).wf(),
            !old(self).active() ==> *final(self) == *old(self),
            old(self).active() ==> {
                &&& !final(self).active()
                &&& final(self).config_view() == old(self).config_view()
                &&& final(self).router().routes() == Map::<Seq<char>, Seq<char>>::empty()
                &&& final(self).registry().used_ports() == old(self).registry().used_ports()
                &&& final(self).registry().port_range() == old(self).registry().port_range()
                &&& final(self).registry().entries().len() == old(self).registry().entries().len()
                &&& forall|i: int| 0 <= i < old(self).registry().entries().len() ==> with_running(
                    #[trigger] final(self).registry().entries()[i], old(self).registry().entries()[i], false)
            },
    {
        if !self.is_active {
            return Ok(());
        }
        let _ = self.service_registry.stop_all_services();
        self.route_registry.clear_all_routes();
        self.is_active = false;
        Ok(())
    }

    /// Registers a service received from elsewhere with its route (see
    /// [`registered`]); it is started once its port was bound.
    pub fn apply_remote_service(&mut self, service: ServiceDefinition) -> (r: Result<(), RuntimeError>)
        requires
            old(self).wf(),
        ensures
            final(self).wf(),
            final(self).active() == old(self).active(),
            final(self).config_view() == old(self).config_view(),
            final(self).registry().port_range() == old(self).registry().port_range(),
            registered(old(self).registry().entries(), old(self).registry().used_ports(),
                old(self).registry().port_range(), old(self).router().routes(), seq![service],
                final(self).registry().entries(), final(self).registry().used_ports(), final(self).router().routes(), r),
    {
        let mut services: Vec<ServiceDefinition> = Vec::new();
        services.push(service);
        assert(services@ =~= seq![service]);
        self.register_all(services)
    }

    /// Replaces every service with those reloaded: all services are stopped
    /// and removed, all routes dropped, then the reloaded services are
    /// registered (see [`registered`], from an empty registry and router),
    /// to be started once their ports were bound.
    pub fn reload_services_internal(&mut self, services: Vec<ServiceDefinition>) -> (r: Result<(), RuntimeError>)
        requires
            old(self).wf(),
        ensures
            final(self).wf(),
            final(self).active() == old(self).active(),
            final(self).config_view() == old(self).config_view(),
            final(self).registry().port_range() == old(self).registry().port_range(),
            registered(Seq::empty(), Seq::empty(), old(self).registry().port_range(),
                Map::empty(), services@, final(self).registry().entries(), final(self).registry().used_ports(),
                final(self).router().routes(), r),
    {
        let _ = self.service_registry.clear_all_services();
        self.route_registry.clear_all_routes();
        self.register_all(services)
    }
}

} // verus!
