//! Plain records describing the simulator and its services.

use vstd::prelude::*;
use crate::config::ServiceDefinition;

verus! {

/// A change seen in the service definitions.
#[derive(Clone, Debug)]
pub enum ConfigChange {
    ServiceAdded(String),
    ServiceModified(String),
    ServiceRemoved(String),
}

/// What a running service looks like from outside.
#[derive(Clone, Debug)]
pub struct ServiceInfo {
    pub name: String,
    pub port: u16,
    pub base_path: String,
    pub endpoints_count: usize,
    pub is_running: bool,
}

/// The state of the simulator.
#[derive(Clone, Debug)]
pub struct SimulatorStatus {
    pub is_active: bool,
    pub services_count: usize,
    pub active_services: Vec<ServiceInfo>,
}

/// The outcome of calling an endpoint.
#[derive(Clone, Debug)]
pub struct TestResult {
    pub status: u16,
    pub body: String,
    pub duration_ms: u64,
}

/// The description of a service listening on a port.
pub fn service_info(definition: &ServiceDefinition, port: u16, is_running: bool) -> (r: ServiceInfo)
    ensures
        r.name@ == definition.name@,
        r.port == port,
        r.base_path@ == definition.server.base_path@,
        r.endpoints_count == definition.endpoints@.len(),
        r.is_running == is_running,
{
    ServiceInfo {
        name: definition.name.clone(),
        port,
        base_path: definition.server.base_path.clone(),
        endpoints_count: definition.endpoints.len(),
        is_running,
    }
}

/// The status of the simulator: whether it is active, and its running
/// services.
pub fn simulator_status(is_active: bool, active_services: Vec<ServiceInfo>) -> (r: SimulatorStatus)
    ensures
        r.is_active == is_active,
        r.services_count == active_services@.len(),
        r.active_services == active_services,
{
    let n = active_services.len();
    SimulatorStatus { is_active, services_count: n, active_services }
}

} // verus!
