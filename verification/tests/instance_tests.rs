use apicentric::config::{EndpointDefinition, EndpointKind, ResponseDefinition, ServerConfig, ServiceDefinition};
use apicentric::instance::ServiceInstance;
use apicentric::json::JsonValue;
use apicentric::strmap::StrMap;

fn s(v: &str) -> JsonValue {
    JsonValue::Str(v.to_string())
}

fn n(v: &str) -> JsonValue {
    JsonValue::Number(v.to_string())
}

fn user(id: &str, name: &str) -> JsonValue {
    JsonValue::Object(vec![("id".to_string(), n(id)), ("name".to_string(), s(name))])
}

fn field<'a>(v: &'a JsonValue, key: &str) -> &'a JsonValue {
    match v {
        JsonValue::Object(fields) => &fields.iter().find(|(k, _)| k == key).unwrap().1,
        _ => panic!("not an object"),
    }
}

fn items(v: &JsonValue) -> &Vec<JsonValue> {
    match v {
        JsonValue::Array(items) => items,
        _ => panic!("not an array"),
    }
}

fn response(body: &str) -> ResponseDefinition {
    ResponseDefinition {
        condition: None,
        content_type: "application/json".to_string(),
        body: body.to_string(),
        schema: None,
        script: None,
        headers: None,
        side_effects: None,
    }
}

fn endpoint(path: &str, description: &str, header_match: Option<Vec<(String, String)>>, body: &str) -> EndpointDefinition {
    EndpointDefinition {
        kind: EndpointKind::Http,
        method: "GET".to_string(),
        path: path.to_string(),
        header_match,
        description: Some(description.to_string()),
        parameters: None,
        request_body: None,
        responses: vec![(200, response(body))],
        scenarios: None,
        stream: None,
    }
}

fn definition(name: &str, fixtures: Option<Vec<(String, JsonValue)>>, endpoints: Vec<EndpointDefinition>) -> ServiceDefinition {
    ServiceDefinition {
        name: name.to_string(),
        version: Some("1.0.0".to_string()),
        description: Some("Test service".to_string()),
        server: ServerConfig { port: Some(8001), base_path: "/api/v1".to_string(), proxy_base_url: None, cors: None, record_unknown: false },
        models: None,
        fixtures,
        bucket: None,
        endpoints,
        graphql: None,
        behavior: None,
    }
}

fn users_fixture() -> Option<Vec<(String, JsonValue)>> {
    Some(vec![("users".to_string(), JsonValue::Array(vec![user("1", "Alice"), user("2", "Bob")]))])
}

fn create_test_service_definition() -> ServiceDefinition {
    definition("test-service", users_fixture(), vec![
        endpoint("/users", "Get all users", None, "{{ fixtures.users }}"),
        endpoint("/users/1", "Get user by ID", None, r#"{"id": 1, "name": "Alice"}"#),
    ])
}

fn create_test_service_definition_with_params() -> ServiceDefinition {
    definition("test-service-params", users_fixture(), vec![
        endpoint("/users/{id}", "Get user by ID", None, r#"{"id": "{{ params.id }}"}"#),
        endpoint("/users/{userId}/orders/{orderId}", "Get user order", None, r#"{"status": "found"}"#),
    ])
}

fn create_test_service_definition_with_header_match() -> ServiceDefinition {
    definition("test-service-headers", None, vec![
        endpoint("/headers", "Get with header match", Some(vec![("X-Test".to_string(), "true".to_string())]), r#"{"msg": "header matched"}"#),
        endpoint("/headers", "Get without header match", None, r#"{"msg": "default response"}"#),
    ])
}

fn users_of(service: &ServiceInstance) -> Vec<JsonValue> {
    let fixtures = service.get_fixtures();
    items(fixtures.get("users").unwrap()).iter().map(apicentric::json::json_clone).collect()
}

#[test]
fn service_instance_test_test_service_instance_creation() {
    let service = ServiceInstance::new(create_test_service_definition(), 8003);
    assert_eq!(service.name(), "test-service");
    assert_eq!(service.port(), 8003);
    assert_eq!(service.base_path(), "/api/v1");
    assert_eq!(service.endpoints_count(), 2);
    assert!(!service.is_running());
}

#[test]
fn service_instance_test_test_service_start_stop() {
    let mut service = ServiceInstance::new(create_test_service_definition(), 8002);
    assert!(!service.is_running());
    service.start(Ok(())).unwrap();
    assert!(service.is_running());
    service.stop();
    assert!(!service.is_running());
}

#[test]
fn service_instance_test_test_service_state_management() {
    let mut service = ServiceInstance::new(create_test_service_definition(), 8004);
    let users = service.get_state("users").unwrap();
    assert!(matches!(users, JsonValue::Array(_)));
    service.update_state("test_key", s("test_value"));
    assert_eq!(service.get_state("test_key").unwrap(), s("test_value"));
}

#[test]
fn service_instance_test_test_fixture_array_operations() {
    let mut service = ServiceInstance::new(create_test_service_definition(), 8010);
    service.state_mut().add_to_fixture_array("users", user("3", "Charlie")).unwrap();
    let users = users_of(&service);
    assert_eq!(users.len(), 3);
    assert_eq!(field(&users[2], "name"), &s("Charlie"));

    service.state_mut().update_fixture_array_item("users", 2, user("3", "Charles")).unwrap();
    assert_eq!(field(&users_of(&service)[2], "name"), &s("Charles"));

    let removed = service.state_mut().remove_from_fixture_array("users", 1).unwrap();
    assert_eq!(field(&removed, "name"), &s("Bob"));
    assert_eq!(users_of(&service).len(), 2);
}

#[test]
fn service_instance_test_test_fixture_array_operations_by_field() {
    let mut service = ServiceInstance::new(create_test_service_definition(), 8011);
    let found = service.state_mut().update_fixture_array_item_by_field("users", "id", &n("1"), user("1", "Alice Updated")).unwrap();
    assert!(found);
    assert_eq!(field(&users_of(&service)[0], "name"), &s("Alice Updated"));

    let removed = service.state_mut().remove_fixture_array_item_by_field("users", "id", &n("2")).unwrap();
    assert_eq!(field(&removed.unwrap(), "name"), &s("Bob"));
    assert_eq!(users_of(&service).len(), 1);
}

#[test]
fn service_instance_test_test_fixture_reset() {
    let mut service = ServiceInstance::new(create_test_service_definition(), 8012);
    service.state_mut().add_to_fixture_array("users", user("3", "Charlie")).unwrap();
    service.update_fixture("new_fixture", s("test"));
    assert_eq!(users_of(&service).len(), 3);
    assert!(service.get_fixtures().contains_key("new_fixture"));
    service.state_mut().reset_fixtures();
    assert_eq!(users_of(&service).len(), 2);
    assert!(!service.get_fixtures().contains_key("new_fixture"));
}

#[test]
fn service_instance_test_test_runtime_data_management() {
    let mut service = ServiceInstance::new(create_test_service_definition(), 8013);
    service.state_mut().set_runtime_data("session_id".to_string(), s("abc123"));
    service.state_mut().set_runtime_data("user_count".to_string(), n("42"));
    assert_eq!(service.state().get_runtime_data("session_id"), Some(&s("abc123")));
    assert!(service.state().has_runtime_data("session_id"));
    assert!(!service.state().has_runtime_data("nonexistent"));
    let removed = service.state_mut().remove_runtime_data("session_id").unwrap();
    assert_eq!(removed, s("abc123"));
    assert!(!service.state().has_runtime_data("session_id"));
    service.state_mut().clear_runtime_data();
    assert!(!service.state().has_runtime_data("user_count"));
    assert_eq!(service.get_state_info(), (1, 0));
}

#[test]
fn service_instance_test_test_endpoint_finding() {
    let service = ServiceInstance::new(create_test_service_definition(), 8005);
    let headers: StrMap<String> = StrMap::new();
    let endpoint = service.find_endpoint("GET", "/users", &headers);
    assert!(endpoint.is_some());
    assert_eq!(endpoint.unwrap().path, "/users");
    assert!(service.find_endpoint("POST", "/users", &headers).is_none());
    assert!(service.find_endpoint("get", "/users", &headers).is_some());
}

#[test]
fn service_instance_test_test_path_parameter_extraction() {
    let service = ServiceInstance::new(create_test_service_definition_with_params(), 8008);
    let headers: StrMap<String> = StrMap::new();
    let route_match = service.find_endpoint_with_params("GET", "/users/123", &headers).unwrap();
    assert_eq!(route_match.endpoint.path, "/users/{id}");
    assert_eq!(route_match.path_params.get("id"), Some(&"123".to_string()));

    let route_match = service.find_endpoint_with_params("GET", "/users/123/orders/456", &headers).unwrap();
    assert_eq!(route_match.path_params.get("userId"), Some(&"123".to_string()));
    assert_eq!(route_match.path_params.get("orderId"), Some(&"456".to_string()));

    assert!(service.find_endpoint_with_params("GET", "/products/123", &headers).is_none());
    let params = service.extract_path_parameters("/users/{id}", "/users/9").unwrap();
    assert_eq!(params.get("id"), Some(&"9".to_string()));
    assert!(service.extract_path_parameters("/users/{id}", "/items/9").is_none());
}

#[test]
fn service_instance_test_test_endpoint_header_matching() {
    let service = ServiceInstance::new(create_test_service_definition_with_header_match(), 8010);
    let mut headers: StrMap<String> = StrMap::new();
    let endpoint = service.find_endpoint("GET", "/headers", &headers).unwrap();
    assert_eq!(endpoint.description.as_deref(), Some("Get without header match"));
    headers.insert("x-test".to_string(), "true".to_string());
    let endpoint = service.find_endpoint("GET", "/headers", &headers).unwrap();
    assert_eq!(endpoint.description.as_deref(), Some("Get with header match"));
}

#[test]
fn instance_regex_matches_static() {
    let service = ServiceInstance::new(create_test_service_definition(), 8009);
    assert_eq!(service.endpoint_path_to_regex("/users/{id}"), "^/users/(?P<id>[^/]+)$");
    assert_eq!(service.endpoint_path_to_regex("/users/{userId}/orders/{orderId}"), "^/users/(?P<userId>[^/]+)/orders/(?P<orderId>[^/]+)$");
    assert_eq!(service.endpoint_path_to_regex("/users"), "^/users$");
}

#[test]
fn starting_twice_or_on_an_unbindable_port_is_refused() {
    let mut service = ServiceInstance::new(create_test_service_definition(), 8003);
    let err = service.start(Err("Address already in use (os error 98)".to_string())).unwrap_err();
    assert_eq!(err.message, "Failed to bind to port 8003: Address already in use (os error 98)");
    assert!(!service.is_running());
    service.start(Ok(())).unwrap();
    let again = service.start(Ok(())).unwrap_err();
    assert_eq!(again.message, "Service 'test-service' is already running");
    assert!(service.is_running());
}
