use apicentric::graphql::{check_graphql_schema, handle_graphql_body};
use apicentric::config::{EndpointDefinition, EndpointKind, ResponseDefinition, ServerConfig, ServiceDefinition};
use apicentric::graphql::{handle_graphql_request, initial_sse_frames, render_error_body, sse_frame, GraphQLMocks, GraphQLReply};
use apicentric::loading::{finish_load, finish_load_all, is_skipped_directory, LoadResult};
use apicentric::ports::PortRange;
use apicentric::registry::ServiceRegistry;
use apicentric::validation::LoadErrorType;

fn create_test_service_definition(name: &str, port: Option<u16>) -> ServiceDefinition {
    ServiceDefinition {
        name: name.to_string(),
        version: Some("1.0.0".to_string()),
        description: Some("Test service".to_string()),
        server: ServerConfig {
            port,
            base_path: format!("/api/{}", name),
            proxy_base_url: None,
            cors: None,
            record_unknown: false,
        },
        models: None,
        fixtures: None,
        bucket: None,
        endpoints: vec![EndpointDefinition {
            kind: EndpointKind::Http,
            method: "GET".to_string(),
            path: "/test".to_string(),
            header_match: None,
            description: None,
            parameters: None,
            request_body: None,
            responses: vec![(
                200,
                ResponseDefinition {
                    condition: None,
                    content_type: "application/json".to_string(),
                    body: r#"{"message": "test"}"#.to_string(),
                    schema: None,
                    script: None,
                    headers: None,
                    side_effects: None,
                },
            )],
            scenarios: None,
            stream: None,
        }],
        graphql: None,
        behavior: None,
    }
}

fn registry() -> ServiceRegistry {
    ServiceRegistry::new(PortRange { start: 9000, end: 9999 })
}

#[test]
fn test_service_registry_registration() {
    let mut registry = registry();
    let result = registry.register_service(create_test_service_definition("test-service", None));
    assert!(result.is_ok());
    assert_eq!(registry.services_count(), 1);
    assert!(registry.has_service("test-service"));
}

#[test]
fn test_service_registry_duplicate_registration() {
    let mut registry = registry();
    registry.register_service(create_test_service_definition("test-service", None)).unwrap();
    let result = registry.register_service(create_test_service_definition("test-service", None));
    assert!(result.is_err());
    let err = result.unwrap_err();
    assert_eq!(err.message, "Service 'test-service' is already registered");
    assert_eq!(registry.services_count(), 1);
}

#[test]
fn test_service_registry_unregistration() {
    let mut registry = registry();
    registry.register_service(create_test_service_definition("test-service", None)).unwrap();
    assert_eq!(registry.services_count(), 1);
    let result = registry.unregister_service("test-service");
    assert!(result.is_ok());
    assert_eq!(registry.services_count(), 0);
    assert!(!registry.has_service("test-service"));
    let again = registry.unregister_service("test-service").unwrap_err();
    assert_eq!(again.message, "Service 'test-service' is not registered");
    assert!(again.suggestion.is_none());
}

#[test]
fn test_service_registry_list_services() {
    let mut registry = registry();
    registry.register_service(create_test_service_definition("service-b", Some(9002))).unwrap();
    registry.register_service(create_test_service_definition("service-a", Some(9001))).unwrap();
    let services = registry.list_services();
    assert_eq!(services.len(), 2);
    assert_eq!(services[0].name, "service-a");
    assert_eq!(services[1].name, "service-b");
    assert_eq!(services[0].port, 9001);
    assert_eq!(services[1].port, 9002);
    assert_eq!(services[0].base_path, "/api/service-a");
    assert_eq!(services[0].endpoints_count, 1);
}

#[test]
fn registry_ports_are_assigned_and_freed() {
    let mut registry = ServiceRegistry::new(PortRange { start: 7000, end: 7001 });
    assert_eq!(registry.register_service(create_test_service_definition("a", None)).unwrap(), 7000);
    assert_eq!(registry.register_service(create_test_service_definition("b", None)).unwrap(), 7001);
    let full = registry.register_service(create_test_service_definition("c", None)).unwrap_err();
    assert_eq!(full.message, "No available ports in range 7000-7001");
    assert_eq!(full.suggestion.as_deref(), Some("Increase the port range or stop some services"));
    let taken = registry.register_service(create_test_service_definition("d", Some(7001))).unwrap_err();
    assert_eq!(taken.message, "Port 7001 is already in use");
    let removed = registry.unregister_service("a").unwrap();
    assert_eq!(removed.port(), 7000);
    assert_eq!(registry.register_service(create_test_service_definition("c", None)).unwrap(), 7000);
    assert_eq!(registry.service_names(), vec!["b".to_string(), "c".to_string()]);
    assert!(registry.start_service("b", Ok(())).is_ok());
    let missing = registry.start_service("zz", Ok(())).unwrap_err();
    assert_eq!(missing.message, "Service 'zz' not found");
    assert_eq!(missing.suggestion.as_deref(), Some("Check that the service is registered"));
    let again = registry.start_service("b", Ok(())).unwrap_err();
    assert_eq!(again.message, "Service 'b' is already running");
    assert_eq!(registry.running_services_count(), 1);
    assert!(registry.get_service("b").unwrap().is_running());
    let not_running = registry.stop_service("c").unwrap_err();
    assert_eq!(not_running.message, "Service 'c' is not running");
    let partial = registry.start_all_services(&vec![Ok(()), Ok(())]).unwrap_err();
    assert_eq!(partial.message, "Failed to start some services:\nFailed to start service 'b': Service 'b' is already running");
    assert_eq!(registry.running_services_count(), 2);
    assert!(registry.stop_all_services().is_ok());
    assert_eq!(registry.running_services_count(), 0);
    assert!(registry.start_all_services(&vec![Ok(()), Ok(())]).is_ok());
    registry.set_scenario_all(Some("busy".to_string()));
    assert_eq!(registry.get_service("c").unwrap().get_scenario().as_deref(), Some("busy"));
    if let Some(service) = registry.get_service_mut("c") {
        service.update_state("hits", apicentric::json::JsonValue::Number("1".to_string()));
    }
    assert!(registry.get_service("c").unwrap().get_state("hits").is_some());
    let cleared = registry.clear_all_services();
    assert_eq!(cleared.len(), 2);
    assert!(cleared.iter().all(|s| !s.is_running()));
    assert_eq!(registry.services_count(), 0);
    assert_eq!(registry.register_service(create_test_service_definition("e", Some(7001))).unwrap(), 7001);
}

fn mocks() -> GraphQLMocks {
    GraphQLMocks { schema: "type Query { a: Int }".into(), mocks: vec![("GetA".into(), "{\"a\": 1}".into())] }
}

#[test]
fn graphql_requests_are_answered() {
    let gql = mocks();
    assert!(handle_graphql_request(&gql, "GET", "/other", None).is_none());
    assert!(handle_graphql_request(&gql, "PUT", "/graphql", None).is_none());
    match handle_graphql_request(&gql, "GET", "/graphql", None) {
        Some(GraphQLReply::Schema(s)) => assert_eq!(s, "type Query { a: Int }"),
        _ => panic!("expected the schema"),
    }
    match handle_graphql_request(&gql, "POST", "/graphql", Some(Some("GetA".into()))) {
        Some(GraphQLReply::Render(t)) => assert_eq!(t, "{\"a\": 1}"),
        _ => panic!("expected a template"),
    }
    match handle_graphql_request(&gql, "POST", "/graphql", Some(Some("Nope".into()))) {
        Some(GraphQLReply::Error(400, b)) => assert_eq!(b, "{\"error\":\"Unknown operation Nope\"}"),
        _ => panic!("expected an error"),
    }
    match handle_graphql_request(&gql, "POST", "/graphql", Some(None)) {
        Some(GraphQLReply::Error(400, b)) => assert_eq!(b, "{\"error\":\"Missing operationName\"}"),
        _ => panic!("expected an error"),
    }
    match handle_graphql_request(&gql, "POST", "/graphql", None) {
        Some(GraphQLReply::Error(400, b)) => assert_eq!(b, "{\"error\":\"Invalid GraphQL request\"}"),
        _ => panic!("expected an error"),
    }
    assert_eq!(render_error_body("boom"), "{\"error\":\"boom\"}");
}

#[test]
fn event_stream_frames() {
    assert_eq!(sse_frame("hi"), "data: hi\n\n");
    let frames = initial_sse_frames(&vec![Ok("a".into()), Err("bad".into()), Ok("b".into())]);
    assert_eq!(frames, vec!["data: a\n\n".to_string(), "data: b\n\n".to_string()]);
}

#[test]
fn loading_skips_build_directories_and_duplicates() {
    for d in [".git", "node_modules", "target", "dist", "build"] {
        assert!(is_skipped_directory(d));
    }
    assert!(!is_skipped_directory("services"));
    let mut result = LoadResult::new();
    result.record_directory();
    result.record_file("a.yaml".into(), Ok(create_test_service_definition("svc", None)));
    result.record_file("b.yaml".into(), Ok(create_test_service_definition("svc", None)));
    result.record_file("c.yaml".into(), Err((LoadErrorType::Parsing, "bad yaml".into())));
    result.record_directory_error("sub".into(), "denied");
    assert_eq!(result.files_scanned, 3);
    assert_eq!(result.directories_scanned, 1);
    assert_eq!(result.services.len(), 1);
    assert!(result.is_successful());
    assert_eq!(result.service_names(), vec!["svc"]);
    assert!(result.get_service_by_name("svc").is_some());
    assert!(result.get_service_by_name("other").is_none());
    let dups = result.errors_by_type(LoadErrorType::DuplicateName);
    assert_eq!(dups.len(), 1);
    assert_eq!(dups[0].message, "Duplicate service name 'svc' (already defined in another file)");
    assert_eq!(dups[0].file_path, "b.yaml");
    assert_eq!(result.errors_by_type(LoadErrorType::DirectoryAccess)[0].message, "Failed to scan directory: denied");
    assert!(finish_load(result).is_ok());
    let mut empty = LoadResult::new();
    empty.record_directory();
    empty.record_file("x.yaml".into(), Err((LoadErrorType::Validation, "invalid".into())));
    let err = finish_load(empty).unwrap_err();
    assert_eq!(err.message, "No valid service definitions found. 1 errors encountered while scanning 1 files in 1 directories");
    let nothing = finish_load(LoadResult::new()).unwrap_err();
    assert_eq!(nothing.message, "No service definitions found after scanning 0 files in 0 directories");
    assert_eq!(nothing.suggestion.as_deref(), Some("Add YAML files with service definitions to the services directory"));
    let none = finish_load_all(vec![], true).unwrap_err();
    assert_eq!(none.message, "No valid service definitions found in services directory");
    assert_eq!(none.suggestion.as_deref(), Some("Fix the validation errors in existing YAML files or add new valid service definitions"));
    assert_eq!(finish_load_all(vec![create_test_service_definition("a", None)], false).unwrap().len(), 1);
}

#[test]
fn graphql_bodies_are_read_as_requests() {
    let gql = GraphQLMocks {
        schema: "type Query { user: String }".to_string(),
        mocks: vec![("GetUser".to_string(), "{\"data\":{}}".to_string())],
    };
    let body = br#"{"query":"query GetUser { user }","operationName":"GetUser"}"#;
    match handle_graphql_body(&gql, "POST", "/graphql", body) {
        Some(GraphQLReply::Render(t)) => assert_eq!(t, "{\"data\":{}}"),
        _ => panic!("expected a rendering"),
    }
    match handle_graphql_body(&gql, "POST", "/graphql", br#"{"query":"{ user }"}"#) {
        Some(GraphQLReply::Error(400, b)) => assert_eq!(b, "{\"error\":\"Missing operationName\"}"),
        _ => panic!("expected an error"),
    }
    match handle_graphql_body(&gql, "POST", "/graphql", br#"{"query":"{ a }","operationName":"Other"}"#) {
        Some(GraphQLReply::Error(400, b)) => assert_eq!(b, "{\"error\":\"Unknown operation Other\"}"),
        _ => panic!("expected an error"),
    }
    match handle_graphql_body(&gql, "POST", "/graphql", b"not json") {
        Some(GraphQLReply::Error(400, b)) => assert_eq!(b, "{\"error\":\"Invalid GraphQL request\"}"),
        _ => panic!("expected an error"),
    }
    match handle_graphql_body(&gql, "GET", "/graphql", b"") {
        Some(GraphQLReply::Schema(s)) => assert_eq!(s, "type Query { user: String }"),
        _ => panic!("expected the schema"),
    }
    assert!(handle_graphql_body(&gql, "POST", "/other", body).is_none());
    assert!(check_graphql_schema("type Query { user: String }").is_ok());
    let err = check_graphql_schema("type Query {").unwrap_err();
    assert!(err.message.starts_with("Invalid GraphQL schema: "));
    assert_eq!(err.suggestion.as_deref(), Some("Ensure the schema is valid SDL"));
}

#[test]
fn a_port_that_cannot_be_bound_leaves_the_service_stopped() {
    let mut registry = ServiceRegistry::new(PortRange { start: 7100, end: 7102 });
    registry.register_service(create_test_service_definition("a", None)).unwrap();
    registry.register_service(create_test_service_definition("b", None)).unwrap();
    let err = registry.start_service("a", Err("address in use".to_string())).unwrap_err();
    assert_eq!(err.message, "Failed to bind to port 7100: address in use");
    assert_eq!(err.suggestion.as_deref(), Some("Port may already be in use or unavailable"));
    assert!(!registry.get_service("a").unwrap().is_running());
    let all = registry.start_all_services(&vec![Ok(()), Err("denied".to_string())]).unwrap_err();
    assert_eq!(all.message, "Failed to start some services:\nFailed to start service 'b': Failed to bind to port 7101: denied");
    assert!(registry.get_service("a").unwrap().is_running());
    assert!(!registry.get_service("b").unwrap().is_running());
    assert_eq!(registry.running_services_count(), 1);
}
