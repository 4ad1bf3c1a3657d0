use apicentric::config::{ServerConfig, ServiceDefinition, SimulatorConfig};
use apicentric::lifecycle::SimulatorLifecycle;
use apicentric::ports::PortRange;
use apicentric::registry::ServiceRegistry;
use apicentric::router::RequestRouter;

fn service(name: &str, base_path: &str, port: Option<u16>) -> ServiceDefinition {
    ServiceDefinition {
        name: name.to_string(),
        version: None,
        description: None,
        server: ServerConfig { port, base_path: base_path.to_string(), proxy_base_url: None, cors: None, record_unknown: false },
        models: None,
        fixtures: None,
        bucket: None,
        endpoints: vec![],
        graphql: None,
        behavior: None,
    }
}

fn lifecycle(enabled: bool) -> SimulatorLifecycle {
    let config = SimulatorConfig {
        enabled,
        services_dir: "services".to_string(),
        port_range: PortRange { start: 9000, end: 9002 },
        db_path: "pulse.db".to_string(),
        global_behavior: None,
    };
    SimulatorLifecycle::new(config, ServiceRegistry::new(PortRange { start: 9000, end: 9002 }), RequestRouter::new())
}

#[test]
fn a_disabled_simulator_does_not_start() {
    let mut sim = lifecycle(false);
    let err = sim.start(vec![service("a", "/a", None)]).unwrap_err();
    assert_eq!(err.message, "API simulator is not enabled");
    assert_eq!(err.suggestion.as_deref(), Some("Enable in configuration"));
    assert!(!sim.is_active());
    assert_eq!(sim.service_registry().services_count(), 0);
}

#[test]
fn starting_registers_routes_and_starts_services() {
    let mut sim = lifecycle(true);
    let err = sim.start(vec![]).unwrap_err();
    assert_eq!(err.message, "No service definitions found");
    assert!(sim.ready_to_start().is_ok());
    sim.start(vec![service("users", "/api/users/", None), service("orders", "api/orders", Some(9002))]).unwrap();
    assert!(!sim.is_active());
    assert_eq!(sim.service_registry().running_services_count(), 0);
    sim.finish_start(&vec![Ok(()), Ok(())]).unwrap();
    assert!(sim.is_active());
    assert_eq!(sim.service_registry().services_count(), 2);
    assert_eq!(sim.service_registry().running_services_count(), 2);
    assert_eq!(sim.service_registry().get_service("users").unwrap().port(), 9000);
    assert_eq!(sim.service_registry().get_service("orders").unwrap().port(), 9002);
    assert_eq!(sim.route_registry().route_request("/api/users/1").as_deref(), Some("users"));
    assert_eq!(sim.route_registry().route_request("/api/orders").as_deref(), Some("orders"));
    let again = sim.start(vec![service("x", "/x", None)]).unwrap_err();
    assert_eq!(again.message, "API simulator is already running");
    assert_eq!(sim.ready_to_start().unwrap_err().message, "API simulator is already running");

    sim.stop().unwrap();
    assert!(!sim.is_active());
    assert_eq!(sim.service_registry().running_services_count(), 0);
    assert_eq!(sim.route_registry().routes_count(), 0);
    assert!(sim.stop().is_ok());
}

#[test]
fn a_refused_registration_stops_the_start() {
    let mut sim = lifecycle(true);
    let err = sim.start(vec![service("a", "/a", None), service("a", "/b", None), service("c", "/c", None)]).unwrap_err();
    assert_eq!(err.message, "Service 'a' is already registered");
    assert!(!sim.is_active());
    assert_eq!(sim.service_registry().services_count(), 1);
    assert_eq!(sim.service_registry().running_services_count(), 0);
    assert_eq!(sim.route_registry().routes_count(), 1);
}

#[test]
fn remote_services_and_reloads() {
    let mut sim = lifecycle(true);
    sim.start(vec![service("a", "/a", None)]).unwrap();
    sim.finish_start(&vec![Ok(())]).unwrap();
    sim.apply_remote_service(service("b", "/b", None)).unwrap();
    let err = sim.start_services(&vec![Ok(()), Ok(())]).unwrap_err();
    assert_eq!(err.message, "Failed to start some services:\nFailed to start service 'a': Service 'a' is already running");
    assert_eq!(sim.service_registry().services_count(), 2);
    assert_eq!(sim.service_registry().running_services_count(), 2);
    assert_eq!(sim.route_registry().route_request("/b/x").as_deref(), Some("b"));

    sim.reload_services_internal(vec![service("c", "/c", None)]).unwrap();
    assert_eq!(sim.service_registry().running_services_count(), 0);
    sim.start_services(&vec![Ok(())]).unwrap();
    assert_eq!(sim.service_registry().running_services_count(), 1);
    assert_eq!(sim.service_registry().service_names(), vec!["c".to_string()]);
    assert_eq!(sim.service_registry().get_service("c").unwrap().port(), 9000);
    assert_eq!(sim.route_registry().routes_count(), 1);
    assert!(sim.is_active());
}

#[test]
fn the_simulator_runs_only_when_every_port_was_bound() {
    let mut sim = lifecycle(true);
    sim.start(vec![service("a", "/a", None), service("b", "/b", None)]).unwrap();
    let err = sim.finish_start(&vec![Ok(()), Err("in use".to_string())]).unwrap_err();
    assert_eq!(err.message, "Failed to start some services:\nFailed to start service 'b': Failed to bind to port 9001: in use");
    assert!(!sim.is_active());
    assert_eq!(sim.service_registry().running_services_count(), 1);
}
