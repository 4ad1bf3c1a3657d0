//! The registry of services: the instance of each service, each on a port
//! of its own.

use vstd::prelude::*;
use crate::config::ServiceDefinition;
use crate::handler::{runtime_error_view, RuntimeError};
use crate::instance::{bind_failure, initial_table, ServiceInstance};
use crate::json::JsonData;
use crate::postman::opt_str_view;
use crate::ports::{first_free_port, other_than, PortError, PortManager, PortRange};
use crate::status::{service_info, ServiceInfo};
use crate::text::{concat3, decimal, seq_lt, str_eq, str_lt, usize_to_string};

verus! {

/// Registry of service instances, each with its own port.
pub struct ServiceRegistry {
    services: Vec<ServiceInstance>,
    port_manager: PortManager,
}

/// A newly registered instance: the definition on the port, stopped,
/// without an active scenario, its state starting from the definition's
/// fixtures and bucket.
pub open spec fn fresh_instance(s: ServiceInstance, definition: ServiceDefinition, port: u16) -> bool {
    &&& s.definition_view() == definition
    &&& s.port_view() == port
    &&& !s.running()
    &&& s.scenario() is None
    &&& s.state_view().wf()
    &&& s.state_view().fixtures_view() == initial_table(definition.fixtures)
    &&& s.state_view().initial_view() == initial_table(definition.fixtures)
    &&& s.state_view().bucket_view() == initial_table(definition.bucket)
    &&& s.state_view().runtime_view() == Map::<Seq<char>, JsonData>::empty()
}

/// The outcome of asking for a port: the one requested when free, else the
/// lowest free one of the range when none was requested.
pub open spec fn port_outcome(range: PortRange, used: Seq<u16>, requested: Option<u16>) -> Result<u16, PortError> {
    match requested {
        Some(p) => if used.contains(p) { Err(PortError::InUse(p)) } else { Ok(p) },
        None => match first_free_port(range.start, range.end, used) {
            Some(p) => Ok(p),
            None => Err(PortError::Exhausted { start: range.start, end: range.end }),
        },
    }
}

/// The message and advice of a port error.
pub open spec fn port_error_view(e: PortError) -> (Seq<char>, Seq<char>) {
    match e {
        PortError::InUse(p) => ("Port "@ + decimal(p as nat) + " is already in use"@,
            "Choose a different port or let the system assign one automatically"@),
        PortError::Exhausted { start, end } => ("No available ports in range "@ + decimal(start as nat) + "-"@
            + decimal(end as nat), "Increase the port range or stop some services"@),
    }
}

/// The error for a port that could not be assigned.
pub fn port_error(e: PortError) -> (r: RuntimeError)
    ensures
        r.suggestion is Some,
        runtime_error_view(r) == port_error_view(e),
{
    match e {
        PortError::InUse(p) => {
            let n = usize_to_string(p as usize);
            RuntimeError {
                message: concat3("Port ", n.as_str(), " is already in use"),
                suggestion: Some(String::from_str("Choose a different port or let the system assign one automatically")),
            }
        },
        PortError::Exhausted { start, end } => {
            let a = usize_to_string(start as usize);
            let b = usize_to_string(end as usize);
            let mut message = String::from_str("No available ports in range ");
            message.append(a.as_str());
            message.append("-");
            message.append(b.as_str());
            RuntimeError {
                message,
                suggestion: Some(String::from_str("Increase the port range or stop some services")),
            }
        },
    }
}

/// The names of registered services.
pub open spec fn registered_names(s: Seq<ServiceInstance>) -> Seq<Seq<char>> {
    s.map_values(|r: ServiceInstance| r.definition_view().name@)
}

/// The ports of registered services.
pub open spec fn registered_ports(s: Seq<ServiceInstance>) -> Seq<u16> {
    s.map_values(|r: ServiceInstance| r.port_view())
}

/// The first registered service with the name.
pub open spec fn service_index(s: Seq<ServiceInstance>, name: Seq<char>) -> Option<int>
    decreases s.len(),
{
    if s.len() == 0 {
        None
    } else {
        match service_index(s.drop_last(), name) {
            Some(i) => Some(i),
            None => if s.last().definition_view().name@ == name { Some(s.len() - 1) } else { None },
        }
    }
}

proof fn lemma_service_index_prefix(s: Seq<ServiceInstance>, name: Seq<char>, n: int)
    requires
        0 <= n <= s.len(),
        service_index(s.take(n), name) is Some,
    ensures
        service_index(s, name) == service_index(s.take(n), name),
    decreases s.len() - n,
{
    if n < s.len() {
        assert(s.take(n + 1).drop_last() =~= s.take(n));
        lemma_service_index_prefix(s, name, n + 1);
    } else {
        assert(s.take(n) =~= s);
    }
}

/// A name is found exactly when it is among the registered names, and then
/// where it stands.
pub proof fn lemma_service_index_contains(s: Seq<ServiceInstance>, name: Seq<char>)
    ensures
        service_index(s, name) matches Some(i) ==> 0 <= i < s.len() && s[i].definition_view().name@ == name,
        service_index(s, name) is None <==> !registered_names(s).contains(name),
    decreases s.len(),
{
    if s.len() > 0 {
        lemma_service_index_contains(s.drop_last(), name);
        let n = registered_names(s);
        let d = registered_names(s.drop_last());
        assert(d =~= n.drop_last());
        match service_index(s, name) {
            Some(i) => {
                assert(n[i] == name);
            },
            None => {
                if n.contains(name) {
                    let j = choose|j: int| 0 <= j < n.len() && n[j] == name;
                    if j < n.len() - 1 {
                        assert(d[j] == name);
                    }
                }
            },
        }
    }
}

/// The number of running services.
pub open spec fn running_count(s: Seq<ServiceInstance>) -> nat
    decreases s.len(),
{
    if s.len() == 0 {
        0
    } else {
        running_count(s.drop_last()) + if s.last().running() { 1nat } else { 0nat }
    }
}

/// A service's description.
pub open spec fn describes(i: ServiceInfo, s: ServiceInstance) -> bool {
    &&& i.name@ == s.definition_view().name@
    &&& i.port == s.port_view()
    &&& i.base_path@ == s.definition_view().server.base_path@
    &&& i.endpoints_count == s.definition_view().endpoints@.len()
    &&& i.is_running == s.running()
}

/// The error for a name already registered.
pub open spec fn already_registered(name: Seq<char>) -> (Seq<char>, Seq<char>) {
    ("Service '"@ + name + "' is already registered"@,
        "Use a different service name or unregister the existing service first"@)
}

/// The error for a name not registered.
pub open spec fn not_registered(name: Seq<char>) -> (Seq<char>, Seq<char>) {
    ("Service '"@ + name + "' is not registered"@, Seq::empty())
}

/// The error for starting or stopping a name not registered.
pub open spec fn not_found(name: Seq<char>) -> (Seq<char>, Seq<char>) {
    ("Service '"@ + name + "' not found"@, "Check that the service is registered"@)
}

/// The error for starting a service that runs.
pub open spec fn already_running(name: Seq<char>) -> (Seq<char>, Seq<char>) {
    ("Service '"@ + name + "' is already running"@, "Stop the service first or use --force to restart"@)
}

/// The error for stopping a service that does not run.
pub open spec fn not_running(name: Seq<char>) -> (Seq<char>, Seq<char>) {
    ("Service '"@ + name + "' is not running"@, "Start the service first with 'apicentric simulator start'"@)
}

/// An instance as another one, running or stopped as given.
pub open spec fn with_running(a: ServiceInstance, b: ServiceInstance, running: bool) -> bool {
    &&& a.definition_view() == b.definition_view()
    &&& a.port_view() == b.port_view()
    &&& a.scenario() == b.scenario()
    &&& a.state_view() == b.state_view()
    &&& a.running() == running
}

/// Whether a service runs after being started with a bind outcome: one
/// that ran still runs; another runs when its port was bound.
pub open spec fn runs_after_start(s: ServiceInstance, bound: Result<(), String>) -> bool {
    s.running() || bound is Ok
}

/// The line reporting a service that could not be started, if any: one that
/// already ran, or one whose port could not be bound.
pub open spec fn start_failure_line(s: ServiceInstance, bound: Result<(), String>) -> Option<Seq<char>> {
    let name = s.definition_view().name@;
    if s.running() {
        Some("Failed to start service '"@ + name + "': Service '"@ + name + "' is already running"@)
    } else {
        match bound {
            Ok(()) => None,
            Err(m) => Some("Failed to start service '"@ + name + "': "@ + bind_failure(s.port_view(), m@).0),
        }
    }
}

/// The lines reporting the services that could not be started, in order,
/// each service taken with the outcome of binding its port.
pub open spec fn start_failures(s: Seq<ServiceInstance>, bound: Seq<Result<(), String>>) -> Seq<Seq<char>>
    decreases s.len(),
{
    if s.len() == 0 {
        Seq::empty()
    } else {
        let rest = start_failures(s.drop_last(), bound.take(s.len() - 1));
        match start_failure_line(s.last(), bound[s.len() - 1]) {
            Some(line) => rest.push(line),
            None => rest,
        }
    }
}

impl ServiceRegistry {
    /// The registered services, in registration order.
    pub closed spec fn entries(&self) -> Seq<ServiceInstance> {
        self.services@
    }

    /// The ports in use.
    pub closed spec fn used_ports(&self) -> Seq<u16> {
        self.port_manager.used()
    }

    /// The range ports are assigned from.
    pub closed spec fn port_range(&self) -> PortRange {
        self.port_manager.range()
    }

    /// Names and ports are never shared, and every service's port is in use.
    pub closed spec fn wf(&self) -> bool {
        &&& self.port_manager.wf()
        &&& registered_names(self.services@).no_duplicates()
        &&& registered_ports(self.services@).no_duplicates()
        &&& forall|i: int| 0 <= i < self.services@.len() ==> self.port_manager.used().contains(#[trigger] self.services@[i].port_view())
    }

    /// An empty registry assigning ports from the range.
    pub fn new(port_range: PortRange) -> (r: Self)
        ensures
            r.wf(),
            r.entries() == Seq::<ServiceInstance>::empty(),
            r.used_ports() == Seq::<u16>::empty(),
            r.port_range() == port_range,
    {
        let r = ServiceRegistry { services: Vec::new(), port_manager: PortManager::new(port_range) };
        assert(registered_names(r.services@) =~= Seq::<Seq<char>>::empty());
        assert(registered_ports(r.services@) =~= Seq::<u16>::empty());
        r
    }

    fn find(&self, name: &str) -> (r: Option<usize>)
        ensures
            match r {
                Some(i) => service_index(self.entries(), name@) == Some(i as int) && i < self.entries().len(),
                None => service_index(self.entries(), name@) is None,
            },
    {
        let mut i: usize = 0;
        assert(self.services@.take(0) =~= Seq::<ServiceInstance>::empty());
        while i < self.services.len()
            invariant
                i <= self.services@.len(),
                service_index(self.services@.take(i as int), name@) is None,
            decreases self.services@.len() - i,
        {
            assert(self.services@.take(i + 1).drop_last() =~= self.services@.take(i as int));
            if str_eq(self.services[i].definition().name.as_str(), name) {
                proof {
                    assert(self.services@.take(i + 1).last() == self.services@[i as int]);
                    lemma_service_index_prefix(self.services@, name@, i + 1);
                }
                return Some(i);
            }
            i = i + 1;
        }
        assert(self.services@.take(self.services@.len() as int) =~= self.services@);
        None
    }

    /// Registers a service on its configured port, or on the lowest free port
    /// of the range when it configures none; refuses a name already taken
    /// and a port that cannot be had. Gives the port.
    pub fn register_service(&mut self, definition: ServiceDefinition) -> (r: Result<u16, RuntimeError>)
        requires
            old(self).wf(),
        ensures
            final(self).wf(),
            final(self).port_range() == old(self).port_range(),
            service_index(old(self).entries(), definition.name@) is Some ==> (r matches Err(e)
                && runtime_error_view(e) == already_registered(definition.name@)
                && final(self).entries() == old(self).entries() && final(self).used_ports() == old(self).used_ports()),
            service_index(old(self).entries(), definition.name@) is None ==> match port_outcome(old(self).port_range(),
                old(self).used_ports(), definition.server.port) {
                Ok(p) => r == Ok::<u16, RuntimeError>(p)
                    && final(self).entries().len() == old(self).entries().len() + 1
                    && final(self).entries().drop_last() == old(self).entries()
                    && fresh_instance(final(self).entries().last(), definition, p)
                    && final(self).used_ports() == old(self).used_ports().push(p),
                Err(pe) => r matches Err(e) && runtime_error_view(e) == port_error_view(pe)
                    && final(self).entries() == old(self).entries() && final(self).used_ports() == old(self).used_ports(),
            },
    {
        match self.find(definition.name.as_str()) {
            Some(_) => {
                return Err(RuntimeError {
                    message: concat3("Service '", definition.name.as_str(), "' is already registered"),
                    suggestion: Some(String::from_str("Use a different service name or unregister the existing service first")),
                });
            },
            None => {},
        }
        let ghost old_used = self.port_manager.used();
        let requested = definition.server.port;
        match self.port_manager.assign_port(requested) {
            Ok(p) => {
                proof {
                    lemma_service_index_contains(old(self).entries(), definition.name@);
                    match requested {
                        Some(q) => {
                            if old_used.contains(q) {
                                assert(false);
                            }
                            assert(self.port_manager.used() == old_used.push(q));
                        },
                        None => {
                            crate::ports::lemma_first_free_port_is_free_and_in_range(
                                old(self).port_range().start, old(self).port_range().end, old_used);
                        },
                    }
                    assert(self.port_manager.used() == old_used.push(p));
                    assert(!old_used.contains(p));
                }
                let ghost before = self.services@;
                let ghost name = definition.name@;
                self.services.push(ServiceInstance::new(definition, p));
                assert(self.services@.drop_last() =~= before);
                proof {
                    assert(registered_names(self.services@) =~= registered_names(before).push(name));
                    assert(registered_ports(self.services@) =~= registered_ports(before).push(p));
                    assert(!registered_names(before).contains(name));
                    assert(!registered_ports(before).contains(p)) by {
                        if registered_ports(before).contains(p) {
                            let j = choose|j: int| 0 <= j < registered_ports(before).len() && registered_ports(before)[j] == p;
                            assert(old_used.contains(before[j].port_view()));
                        }
                    }
                    lemma_push_fresh(registered_names(before), name);
                    lemma_push_fresh(registered_ports(before), p);
                    assert forall|i: int| 0 <= i < self.services@.len() implies self.port_manager.used().contains(#[trigger] self.services@[i].port_view()) by {
                        if i < before.len() {
                            assert(self.services@[i] == before[i]);
                            assert(old_used.contains(before[i].port_view()));
                            let j = choose|j: int| 0 <= j < old_used.len() && old_used[j] == before[i].port_view();
                            assert(self.port_manager.used()[j] == before[i].port_view());
                        } else {
                            assert(self.port_manager.used()[old_used.len() as int] == p);
                        }
                    }
                }
                Ok(p)
            },
            Err(pe) => {
                proof {
                    match requested {
                        Some(q) => {},
                        None => {},
                    }
                }
                Err(port_error(pe))
            },
        }
    }

    /// Removes a service and frees its port, giving the service back (for
    /// its server to be stopped when it runs).
    pub fn unregister_service(&mut self, service_name: &str) -> (r: Result<ServiceInstance, RuntimeError>)
        requires
            old(self).wf(),
        ensures
            final(self).wf(),
            final(self).port_range() == old(self).port_range(),
            match service_index(old(self).entries(), service_name@) {
                Some(i) => r matches Ok(s) && s == old(self).entries()[i]
                    && final(self).entries() == old(self).entries().remove(i)
                    && final(self).used_ports() == old(self).used_ports().filter(other_than(s.port_view())),
                None => r matches Err(e) && runtime_error_view(e) == not_registered(service_name@)
                    && final(self).entries() == old(self).entries() && final(self).used_ports() == old(self).used_ports(),
            },
    {
        match self.find(service_name) {
            Some(i) => {
                let ghost before = self.services@;
                let s = self.services.remove(i);
                let port = s.port();
                self.port_manager.release_port(port);
                proof {
                    assert(registered_names(self.services@) =~= registered_names(before).remove(i as int));
                    assert(registered_ports(self.services@) =~= registered_ports(before).remove(i as int));
                    lemma_remove_no_dup(registered_names(before), i as int);
                    lemma_remove_no_dup(registered_ports(before), i as int);
                    assert forall|j: int| 0 <= j < self.services@.len() implies self.port_manager.used().contains(#[trigger] self.services@[j].port_view()) by {
                        let k = if j < i { j } else { j + 1 };
                        assert(self.services@[j] == before[k]);
                        assert(registered_ports(before)[k] != registered_ports(before)[i as int]);
                        crate::ports::lemma_release_keeps_other_ports(old(self).used_ports(), port, before[k].port_view());
                    }
                }
                Ok(s)
            },
            None => Err(RuntimeError {
                message: concat3("Service '", service_name, "' is not registered"),
                suggestion: None,
            }),
        }
    }

    /// The service registered under a name.
    pub fn get_service(&self, service_name: &str) -> (r: Option<&ServiceInstance>)
        ensures
            match service_index(self.entries(), service_name@) {
                Some(i) => r == Some(&self.entries()[i]),
                None => r is None,
            },
    {
        match self.find(service_name) {
            Some(i) => Some(&self.services[i]),
            None => None,
        }
    }

    /// Whether a service is registered under the name.
    pub fn has_service(&self, service_name: &str) -> (b: bool)
        ensures
            b == registered_names(self.entries()).contains(service_name@),
    {
        proof {
            lemma_service_index_contains(self.entries(), service_name@);
        }
        self.find(service_name).is_some()
    }

    /// The number of registered services.
    pub fn services_count(&self) -> (n: usize)
        ensures
            n == self.entries().len(),
    {
        self.services.len()
    }

    /// The number of running services.
    pub fn running_services_count(&self) -> (n: usize)
        ensures
            n == running_count(self.entries()),
    {
        let mut n: usize = 0;
        let mut i: usize = 0;
        assert(self.services@.take(0) =~= Seq::<ServiceInstance>::empty());
        while i < self.services.len()
            invariant
                i <= self.services@.len(),
                n == running_count(self.services@.take(i as int)),
                n <= i,
            decreases self.services@.len() - i,
        {
            assert(self.services@.take(i + 1).drop_last() =~= self.services@.take(i as int));
            if self.services[i].is_running() {
                n = n + 1;
            }
            i = i + 1;
        }
        assert(self.services@.take(self.services@.len() as int) =~= self.services@);
        n
    }

    /// The names of the registered services, in registration order.
    pub fn service_names(&self) -> (r: Vec<String>)
        ensures
            crate::text::string_views(r@) == registered_names(self.entries()),
    {
        let mut r: Vec<String> = Vec::new();
        let mut i: usize = 0;
        while i < self.services.len()
            invariant
                i <= self.services@.len(),
                crate::text::string_views(r@) == registered_names(self.services@).take(i as int),
            decreases self.services@.len() - i,
        {
            let ghost before = r@;
            let name = self.services[i].name();
            r.push(name);
            assert(crate::text::string_views(r@) =~= crate::text::string_views(before).push(self.services@[i as int].definition_view().name@));
            assert(registered_names(self.services@).take(i + 1) =~= registered_names(self.services@).take(i as int).push(self.services@[i as int].definition_view().name@));
            i = i + 1;
        }
        assert(registered_names(self.services@).take(self.services@.len() as int) =~= registered_names(self.services@));
        r
    }

    /// The instance registered under a name, for changing it; the registry
    /// stays well formed when the instance keeps its name and port.
    pub fn get_service_mut(&mut self, service_name: &str) -> (r: Option<&mut ServiceInstance>)
        requires
            old(self).wf(),
        ensures
            final(self).used_ports() == old(self).used_ports(),
            final(self).port_range() == old(self).port_range(),
            match service_index(old(self).entries(), service_name@) {
                Some(i) => r matches Some(s) && *s == old(self).entries()[i]
                    && final(self).entries() == old(self).entries().update(i, *final(r->0))
                    && (final(r->0).definition_view().name@ == old(self).entries()[i].definition_view().name@
                        && final(r->0).port_view() == old(self).entries()[i].port_view() ==> final(self).wf()),
                None => r is None && final(self).entries() == old(self).entries() && final(self).wf(),
            },
    {
        match self.find(service_name) {
            Some(i) => {
                let ghost before = self.services@;
                let r = &mut self.services[i];
                proof {
                    lemma_update_keeps_names_ports(before, i as int, *final(r));
                }
                Some(r)
            },
            None => None,
        }
    }

    /// Starts the service registered under a name, given the outcome of
    /// binding its port; refuses one not registered and one that already
    /// runs, and leaves the service stopped when the bind failed.
    pub fn start_service(&mut self, service_name: &str, bound: Result<(), String>) -> (r: Result<(), RuntimeError>)
        requires
            old(self).wf(),
        ensures
            final(self).wf(),
            final(self).used_ports() == old(self).used_ports(),
            final(self).port_range() == old(self).port_range(),
            match service_index(old(self).entries(), service_name@) {
                None => r matches Err(e) && runtime_error_view(e) == not_found(service_name@)
                    && final(self).entries() == old(self).entries(),
                Some(i) => if old(self).entries()[i].running() {
                    r matches Err(e) && runtime_error_view(e) == already_running(service_name@)
                        && final(self).entries() == old(self).entries()
                } else {
                    match bound {
                        Ok(()) => r is Ok && final(self).entries().len() == old(self).entries().len()
                            && with_running(final(self).entries()[i], old(self).entries()[i], true)
                            && forall|j: int| 0 <= j < old(self).entries().len() && j != i
                                ==> #[trigger] final(self).entries()[j] == old(self).entries()[j],
                        Err(m) => r matches Err(e)
                            && runtime_error_view(e) == bind_failure(old(self).entries()[i].port_view(), m@)
                            && final(self).entries() == old(self).entries(),
                    }
                },
            },
    {
        match self.find(service_name) {
            None => Err(RuntimeError {
                message: concat3("Service '", service_name, "' not found"),
                suggestion: Some(String::from_str("Check that the service is registered")),
            }),
            Some(i) => {
                if self.services[i].is_running() {
                    return Err(RuntimeError {
                        message: concat3("Service '", service_name, "' is already running"),
                        suggestion: Some(String::from_str("Stop the service first or use --force to restart")),
                    });
                }
                let ghost before = self.services@;
                let inst = &mut self.services[i];
                let started = inst.start(bound);
                proof {
                    lemma_update_keeps_names_ports(before, i as int, *inst);
                    if started is Err {
                        assert(self.services@ =~= before);
                    }
                }
                started
            },
        }
    }

    /// Stops the service registered under a name; refuses one not
    /// registered and one that does not run.
    pub fn stop_service(&mut self, service_name: &str) -> (r: Result<(), RuntimeError>)
        requires
            old(self).wf(),
        ensures
            final(self).wf(),
            final(self).used_ports() == old(self).used_ports(),
            final(self).port_range() == old(self).port_range(),
            match service_index(old(self).entries(), service_name@) {
                None => r matches Err(e) && runtime_error_view(e) == not_found(service_name@)
                    && final(self).entries() == old(self).entries(),
                Some(i) => if !old(self).entries()[i].running() {
                    r matches Err(e) && runtime_error_view(e) == not_running(service_name@)
                        && final(self).entries() == old(self).entries()
                } else {
                    r is Ok && final(self).entries().len() == old(self).entries().len()
                        && with_running(final(self).entries()[i], old(self).entries()[i], false)
                        && forall|j: int| 0 <= j < old(self).entries().len() && j != i
                            ==> #[trigger] final(self).entries()[j] == old(self).entries()[j]
                },
            },
    {
        match self.find(service_name) {
            None => Err(RuntimeError {
                message: concat3("Service '", service_name, "' not found"),
                suggestion: Some(String::from_str("Check that the service is registered")),
            }),
            Some(i) => {
                if !self.services[i].is_running() {
                    return Err(RuntimeError {
                        message: concat3("Service '", service_name, "' is not running"),
                        suggestion: Some(String::from_str("Start the service first with 'apicentric simulator start'")),
                    });
                }
                let ghost before = self.services@;
                let inst = &mut self.services[i];
                inst.stop();
                proof {
                    lemma_update_keeps_names_ports(before, i as int, *inst);
                }
                Ok(())
            },
        }
    }

    /// Forces a scenario on every registered service, or lifts it.
    pub fn set_scenario_all(&mut self, scenario: Option<String>)
        requires
            old(self).wf(),
        ensures
            final(self).wf(),
            final(self).used_ports() == old(self).used_ports(),
            final(self).port_range() == old(self).port_range(),
            final(self).entries().len() == old(self).entries().len(),
            forall|j: int| 0 <= j < old(self).entries().len() ==> {
                let (a, b) = (#[trigger] final(self).entries()[j], old(self).entries()[j]);
                &&& a.definition_view() == b.definition_view()
                &&& a.port_view() == b.port_view()
                &&& a.running() == b.running()
                &&& a.state_view() == b.state_view()
                &&& opt_str_view(a.scenario()) == opt_str_view(scenario)
            },
    {
        let mut i: usize = 0;
        while i < self.services.len()
            invariant
                self.wf(),
                self.port_manager == old(self).port_manager,
                i <= self.services@.len(),
                self.services@.len() == old(self).services@.len(),
                forall|j: int| i <= j < self.services@.len() ==> #[trigger] self.services@[j] == old(self).services@[j],
                forall|j: int| 0 <= j < i ==> {
                    let (a, b) = (#[trigger] self.services@[j], old(self).services@[j]);
                    &&& a.definition_view() == b.definition_view()
                    &&& a.port_view() == b.port_view()
                    &&& a.running() == b.running()
                    &&& a.state_view() == b.state_view()
                    &&& opt_str_view(a.scenario()) == opt_str_view(scenario)
                },
            decreases self.services@.len() - i,
        {
            let copy = match &scenario {
                Some(x) => Some(x.clone()),
                None => None,
            };
            let ghost before = self.services@;
            let inst = &mut self.services[i];
            inst.set_scenario(copy);
            proof {
                lemma_update_keeps_names_ports(before, i as int, *inst);
            }
            i = i + 1;
        }
    }

    /// Starts every registered service, in registration order, each with
    /// the outcome of binding its port (`bound[j]` for the `j`-th service;
    /// the outcome for a service that already runs is not looked at); the
    /// error lists the services that already ran or could not bind.
    pub fn start_all_services(&mut self, bound: &Vec<Result<(), String>>) -> (r: Result<(), RuntimeError>)
        requires
            old(self).wf(),
            bound@.len() == old(self).entries().len(),
        ensures
            final(self).wf(),
            final(self).used_ports() == old(self).used_ports(),
            final(self).port_range() == old(self).port_range(),
            final(self).entries().len() == old(self).entries().len(),
            forall|j: int| 0 <= j < old(self).entries().len()
                ==> with_running(#[trigger] final(self).entries()[j], old(self).entries()[j],
                    runs_after_start(old(self).entries()[j], bound@[j])),
            start_failures(old(self).entries(), bound@).len() == 0 ==> r is Ok,
            start_failures(old(self).entries(), bound@).len() > 0 ==> (r matches Err(e) && runtime_error_view(e)
                == ("Failed to start some services:\n"@ + crate::text::joined(start_failures(old(self).entries(), bound@), "\n"@),
                    "Check service configurations and port availability"@)),
    {
        let mut failures: Vec<String> = Vec::new();
        let mut i: usize = 0;
        assert(old(self).services@.take(0) =~= Seq::<ServiceInstance>::empty());
        assert(crate::text::string_views(failures@) =~= Seq::<Seq<char>>::empty());
        while i < self.services.len()
            invariant
                self.wf(),
                self.port_manager == old(self).port_manager,
                i <= self.services@.len(),
                self.services@.len() == old(self).services@.len(),
                bound@.len() == old(self).services@.len(),
                forall|j: int| i <= j < self.services@.len() ==> #[trigger] self.services@[j] == old(self).services@[j],
                forall|j: int| 0 <= j < i ==> with_running(#[trigger] self.services@[j], old(self).services@[j],
                    runs_after_start(old(self).services@[j], bound@[j])),
                crate::text::string_views(failures@) == start_failures(old(self).services@.take(i as int), bound@.take(i as int)),
            decreases self.services@.len() - i,
        {
            let ghost olds = old(self).services@;
            assert(olds.take(i + 1).drop_last() =~= olds.take(i as int));
            assert(olds.take(i + 1).last() == olds[i as int]);
            assert(bound@.take(i + 1).take(i as int) =~= bound@.take(i as int));
            assert(bound@.take(i + 1)[i as int] == bound@[i as int]);
            let ghost fb = failures@;
            if self.services[i].is_running() {
                let name = self.services[i].name();
                let mut line = concat3("Failed to start service '", name.as_str(), "': Service '");
                line.append(name.as_str());
                line.append("' is already running");
                failures.push(line);
                assert(crate::text::string_views(failures@) =~= crate::text::string_views(fb).push(failures@.last()@));
            } else {
                let ghost before = self.services@;
                let outcome = match &bound[i] {
                    Ok(()) => Ok(()),
                    Err(m) => Err(m.clone()),
                };
                let name = self.services[i].name();
                let inst = &mut self.services[i];
                let started = inst.start(outcome);
                proof {
                    lemma_update_keeps_names_ports(before, i as int, *inst);
                }
                match started {
                    Ok(()) => {},
                    Err(e) => {
                        let line = concat3("Failed to start service '", name.as_str(), "': ");
                        let mut line = line;
                        line.append(e.message.as_str());
                        failures.push(line);
                        assert(crate::text::string_views(failures@) =~= crate::text::string_views(fb).push(failures@.last()@));
                    },
                }
            }
            i = i + 1;
        }
        assert(old(self).services@.take(old(self).services@.len() as int) =~= old(self).services@);
        assert(bound@.take(bound@.len() as int) =~= bound@);
        if failures.len() == 0 {
            Ok(())
        } else {
            let lines = crate::text::join(&failures, "\n");
            Err(RuntimeError {
                message: crate::text::concat2("Failed to start some services:\n", lines.as_str()),
                suggestion: Some(String::from_str("Check service configurations and port availability")),
            })
        }
    }

    /// Stops every registered service that runs.
    pub fn stop_all_services(&mut self) -> (r: Result<(), RuntimeError>)
        requires
            old(self).wf(),
        ensures
            r is Ok,
            final(self).wf(),
            final(self).used_ports() == old(self).used_ports(),
            final(self).port_range() == old(self).port_range(),
            final(self).entries().len() == old(self).entries().len(),
            forall|j: int| 0 <= j < old(self).entries().len()
                ==> with_running(#[trigger] final(self).entries()[j], old(self).entries()[j], false),
    {
        let mut i: usize = 0;
        while i < self.services.len()
            invariant
                self.wf(),
                self.port_manager == old(self).port_manager,
                i <= self.services@.len(),
                self.services@.len() == old(self).services@.len(),
                forall|j: int| i <= j < self.services@.len() ==> #[trigger] self.services@[j] == old(self).services@[j],
                forall|j: int| 0 <= j < i ==> with_running(#[trigger] self.services@[j], old(self).services@[j], false),
            decreases self.services@.len() - i,
        {
            let ghost before = self.services@;
            let inst = &mut self.services[i];
            inst.stop();
            proof {
                lemma_update_keeps_names_ports(before, i as int, *inst);
            }
            i = i + 1;
        }
        Ok(())
    }

    /// Stops and removes every service and frees every port, giving the
    /// stopped services back.
    pub fn clear_all_services(&mut self) -> (r: Vec<ServiceInstance>)
        requires
            old(self).wf(),
        ensures
            final(self).wf(),
            r@.len() == old(self).entries().len(),
            forall|j: int| 0 <= j < r@.len() ==> with_running(#[trigger] r@[j], old(self).entries()[j], false),
            final(self).entries() == Seq::<ServiceInstance>::empty(),
            final(self).used_ports() == Seq::<u16>::empty(),
            final(self).port_range() == old(self).port_range(),
    {
        let _ = self.stop_all_services();
        let mut r: Vec<ServiceInstance> = Vec::new();
        std::mem::swap(&mut r, &mut self.services);
        self.port_manager = PortManager::new(self.port_manager.range_value());
        assert(registered_names(self.services@) =~= Seq::<Seq<char>>::empty());
        assert(registered_ports(self.services@) =~= Seq::<u16>::empty());
        r
    }

    /// The descriptions of the services, sorted by name.
    #[verifier::rlimit(40)]
    pub fn list_services(&self) -> (r: Vec<ServiceInfo>)
        requires
            self.wf(),
        ensures
            r@.len() == self.entries().len(),
            sorted_by_name(r@),
            covers(r@, self.entries(), self.entries().len() as int),
    {
        let ghost es = self.services@;
        let ghost names = registered_names(es);
        let mut r: Vec<ServiceInfo> = Vec::new();
        let mut k: usize = 0;
        proof {
            reveal(all_describe);
            reveal(all_described);
        }
        while k < self.services.len()
            invariant
                k <= es.len(),
                es == self.services@,
                names == registered_names(es),
                names.no_duplicates(),
                r@.len() == k,
                sorted_by_name(r@),
                covers(r@, es, k as int),
            decreases es.len() - k,
        {
            let s = &self.services[k];
            let info = service_info(s.definition(), s.port(), s.is_running());
            assert(describes(info, es[k as int]));
            let mut pos: usize = 0;
            while pos < r.len() && !str_lt(info.name.as_str(), r[pos].name.as_str())
                invariant
                    pos <= r@.len(),
                    forall|a: int| 0 <= a < pos ==> !seq_lt(info.name@, #[trigger] r@[a].name@),
                decreases r@.len() - pos,
            {
                pos = pos + 1;
            }
            let ghost before = r@;
            proof {
                reveal(all_describe);
                assert forall|a: int| 0 <= a < before.len() implies #[trigger] before[a].name@ != info.name@ by {
                    let j = choose|j: int| 0 <= j < k && describes(before[a], es[j]);
                    assert(names[j] != names[k as int]);
                }
                if pos < before.len() {
                    assert(seq_lt(info.name@, before[pos as int].name@));
                }
                lemma_insert_keeps_order(before, info, pos as int);
                lemma_insert_keeps_descriptions(before, info, pos as int, es, k as int);
            }
            r.insert(pos, info);
            k = k + 1;
        }
        r
    }
}

/// Descriptions in strictly increasing order of name.
pub open spec fn sorted_by_name(r: Seq<ServiceInfo>) -> bool {
    forall|a: int, b: int| 0 <= a < b < r.len() ==> seq_lt(#[trigger] r[a].name@, #[trigger] r[b].name@)
}

/// Each description is of one of the first `k` services, and each of them
/// is described.
pub open spec fn covers(r: Seq<ServiceInfo>, es: Seq<ServiceInstance>, k: int) -> bool {
    &&& all_describe(r, es, k)
    &&& all_described(r, es, k)
}

/// Each description is of one of the first `k` services.
#[verifier::opaque]
pub open spec fn all_describe(r: Seq<ServiceInfo>, es: Seq<ServiceInstance>, k: int) -> bool {
    forall|i: int| 0 <= i < r.len() ==> exists|j: int| 0 <= j < k && describes(#[trigger] r[i], es[j])
}

/// Each of the first `k` services is described.
#[verifier::opaque]
pub open spec fn all_described(r: Seq<ServiceInfo>, es: Seq<ServiceInstance>, k: int) -> bool {
    forall|j: int| 0 <= j < k ==> exists|i: int| 0 <= i < r.len() && describes(r[i], #[trigger] es[j])
}

proof fn lemma_insert_keeps_order(before: Seq<ServiceInfo>, info: ServiceInfo, pos: int)
    requires
        0 <= pos <= before.len(),
        sorted_by_name(before),
        forall|a: int| 0 <= a < pos ==> !seq_lt(info.name@, #[trigger] before[a].name@),
        forall|a: int| 0 <= a < before.len() ==> #[trigger] before[a].name@ != info.name@,
        pos < before.len() ==> seq_lt(info.name@, before[pos].name@),
    ensures
        sorted_by_name(before.insert(pos, info)),
{
    let r = before.insert(pos, info);
    assert forall|a: int, b: int| 0 <= a < b < r.len() implies seq_lt(#[trigger] r[a].name@, #[trigger] r[b].name@) by {
        if b < pos {
            assert(r[a] == before[a] && r[b] == before[b]);
        } else if b == pos {
            assert(r[a] == before[a]);
            assert(!seq_lt(info.name@, before[a].name@));
            assert(before[a].name@ != info.name@);
            crate::text::lemma_seq_lt_total(info.name@, before[a].name@);
        } else if a == pos {
            assert(r[b] == before[b - 1]);
            if b - 1 > pos {
                crate::text::lemma_seq_lt_trans(info.name@, before[pos].name@, before[b - 1].name@);
            }
        } else if a < pos {
            assert(r[a] == before[a] && r[b] == before[b - 1]);
        } else {
            assert(r[a] == before[a - 1] && r[b] == before[b - 1]);
        }
    }
}

proof fn lemma_insert_keeps_descriptions(before: Seq<ServiceInfo>, info: ServiceInfo, pos: int, es: Seq<ServiceInstance>, k: int)
    requires
        0 <= pos <= before.len(),
        0 <= k < es.len(),
        covers(before, es, k),
        describes(info, es[k]),
    ensures
        covers(before.insert(pos, info), es, k + 1),
{
    lemma_insert_described(before, info, pos, es, k);
    lemma_insert_describing(before, info, pos, es, k);
}

proof fn lemma_insert_described(before: Seq<ServiceInfo>, info: ServiceInfo, pos: int, es: Seq<ServiceInstance>, k: int)
    requires
        0 <= pos <= before.len(),
        0 <= k < es.len(),
        all_describe(before, es, k),
        describes(info, es[k]),
    ensures
        all_describe(before.insert(pos, info), es, k + 1),
{
    reveal(all_describe);
    let r = before.insert(pos, info);
    assert forall|i: int| 0 <= i < r.len() implies exists|j: int| 0 <= j < k + 1 && describes(#[trigger] r[i], es[j]) by {
        if i < pos {
            assert(r[i] == before[i]);
            let j = choose|j: int| 0 <= j < k && describes(before[i], es[j]);
            assert(describes(r[i], es[j]));
        } else if i == pos {
            assert(describes(r[i], es[k]));
        } else {
            assert(r[i] == before[i - 1]);
            let j = choose|j: int| 0 <= j < k && describes(before[i - 1], es[j]);
            assert(describes(r[i], es[j]));
        }
    }
}

proof fn lemma_insert_describing(before: Seq<ServiceInfo>, info: ServiceInfo, pos: int, es: Seq<ServiceInstance>, k: int)
    requires
        0 <= pos <= before.len(),
        0 <= k < es.len(),
        all_described(before, es, k),
        describes(info, es[k]),
    ensures
        all_described(before.insert(pos, info), es, k + 1),
{
    reveal(all_described);
    let r = before.insert(pos, info);
    assert forall|j: int| 0 <= j < k + 1 implies exists|i: int| 0 <= i < r.len() && describes(r[i], #[trigger] es[j]) by {
        if j == k {
            assert(describes(r[pos], es[j]));
        } else {
            let i = choose|i: int| 0 <= i < before.len() && describes(before[i], es[j]);
            if i < pos {
                assert(r[i] == before[i]);
                assert(describes(r[i], es[j]));
            } else {
                assert(r[i + 1] == before[i]);
                assert(describes(r[i + 1], es[j]));
            }
        }
    }
}

proof fn lemma_update_keeps_names_ports(s: Seq<ServiceInstance>, i: int, x: ServiceInstance)
    requires
        0 <= i < s.len(),
    ensures
        x.definition_view().name@ == s[i].definition_view().name@ && x.port_view() == s[i].port_view() ==> {
            &&& registered_names(s.update(i, x)) == registered_names(s)
            &&& registered_ports(s.update(i, x)) == registered_ports(s)
            &&& forall|j: int| 0 <= j < s.len() ==> #[trigger] s.update(i, x)[j].port_view() == s[j].port_view()
        },
{
    if x.definition_view().name@ == s[i].definition_view().name@ && x.port_view() == s[i].port_view() {
        assert(registered_names(s.update(i, x)) =~= registered_names(s));
        assert(registered_ports(s.update(i, x)) =~= registered_ports(s));
    }
}

proof fn lemma_push_fresh<T>(s: Seq<T>, x: T)
    requires
        s.no_duplicates(),
        !s.contains(x),
    ensures
        s.push(x).no_duplicates(),
{
    assert forall|a: int, b: int| 0 <= a < b < s.push(x).len() implies s.push(x)[a] != s.push(x)[b] by {
        if b == s.len() {
            assert(s.contains(s[a]));
        }
    }
}

proof fn lemma_remove_no_dup<T>(s: Seq<T>, i: int)
    requires
        s.no_duplicates(),
        0 <= i < s.len(),
    ensures
        s.remove(i).no_duplicates(),
{
    let r = s.remove(i);
    assert forall|a: int, b: int| 0 <= a < b < r.len() implies r[a] != r[b] by {
        let ka = if a < i { a } else { a + 1 };
        let kb = if b < i { b } else { b + 1 };
        assert(r[a] == s[ka] && r[b] == s[kb]);
    }
}

/// Unregistering a service just registered, under a name not taken before,
/// gives the registry back its services and frees its port: the service is
/// found at the end, removing it leaves the earlier services, and releasing
/// its port leaves the ports used before.
pub proof fn law_unregister_undoes_register(entries: Seq<ServiceInstance>, used: Seq<u16>, s: ServiceInstance)
    requires
        service_index(entries, s.definition_view().name@) is None,
        !used.contains(s.port_view()),
    ensures
        service_index(entries.push(s), s.definition_view().name@) == Some(entries.len() as int),
        entries.push(s).remove(entries.len() as int) == entries,
        used.push(s.port_view()).filter(other_than(s.port_view())) == used,
{
    assert(entries.push(s).drop_last() =~= entries);
    assert(entries.push(s).remove(entries.len() as int) =~= entries);
    lemma_filter_other_than_absent(used, s.port_view());
    reveal(Seq::filter);
    assert(used.push(s.port_view()).drop_last() =~= used);
}

proof fn lemma_filter_other_than_absent(used: Seq<u16>, port: u16)
    requires
        !used.contains(port),
    ensures
        used.filter(other_than(port)) == used,
    decreases used.len(),
{
    reveal(Seq::filter);
    if used.len() > 0 {
        assert(!used.drop_last().contains(port)) by {
            if used.drop_last().contains(port) {
                let j = choose|j: int| 0 <= j < used.drop_last().len() && used.drop_last()[j] == port;
                assert(used[j] == port);
            }
        }
        lemma_filter_other_than_absent(used.drop_last(), port);
        assert(used[used.len() - 1] != port);
        assert(used.drop_last().push(used.last()) =~= used);
    }
}

} // verus!
