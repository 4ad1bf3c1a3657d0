use apicentric::config::{EndpointDefinition, EndpointKind, ServerConfig, ServiceDefinition};
use apicentric::endpoints::{endpoint_path_to_regex_static, extract_path_parameters_static, find_endpoint, headers_match};
use apicentric::soap::is_xml_content_type;
use apicentric::strmap::StrMap;

fn check_regex() {
    assert_eq!(endpoint_path_to_regex_static("/users/{id}"), "^/users/(?P<id>[^/]+)$");
    assert_eq!(
        endpoint_path_to_regex_static("/users/{userId}/orders/{orderId}"),
        "^/users/(?P<userId>[^/]+)/orders/(?P<orderId>[^/]+)$"
    );
    assert_eq!(endpoint_path_to_regex_static("/users"), "^/users$");
}

#[test]
fn service_test_endpoint_path_to_regex() {
    check_regex();
}

#[test]
fn service_instance_test_test_endpoint_path_to_regex() {
    check_regex();
}

#[test]
fn test_endpoint_path_to_regex_handles_unclosed_brace() {
    let pattern = endpoint_path_to_regex_static("/users/{id");
    assert!(pattern.contains("users"));
}

#[test]
fn detects_xml_content_types() {
    assert!(is_xml_content_type("text/xml"));
    assert!(is_xml_content_type("application/xml; charset=utf-8"));
    assert!(is_xml_content_type("application/soap+xml; action=Foo"));
    assert!(!is_xml_content_type("application/json"));
}

#[test]
fn special_characters_are_escaped() {
    assert_eq!(endpoint_path_to_regex_static("/a.b+c"), "^/a\\.b\\+c$");
}

#[test]
fn path_parameters_are_extracted() {
    let p = extract_path_parameters_static("/users/{id}/orders/{orderId}", "/users/7/orders/x9").unwrap();
    assert_eq!(p.get("id"), Some(&"7".to_string()));
    assert_eq!(p.get("orderId"), Some(&"x9".to_string()));
    assert!(extract_path_parameters_static("/users/{id}", "/users/7/extra").is_none());
    assert!(extract_path_parameters_static("/users", "/users").unwrap().is_empty());
}

fn endpoint(method: &str, path: &str, header: Option<(&str, &str)>, description: &str) -> EndpointDefinition {
    EndpointDefinition {
        kind: EndpointKind::Http,
        method: method.into(),
        path: path.into(),
        header_match: header.map(|(k, v)| vec![(k.to_string(), v.to_string())]),
        description: Some(description.into()),
        parameters: None,
        request_body: None,
        responses: Vec::new(),
        scenarios: None,
        stream: None,
    }
}

#[test]
fn endpoints_found_by_method_path_and_headers() {
    let svc = ServiceDefinition {
        name: "s".into(),
        version: None,
        description: None,
        server: ServerConfig { port: None, base_path: "/".into(), proxy_base_url: None, cors: None, record_unknown: false },
        models: None,
        fixtures: None,
        bucket: None,
        endpoints: vec![
            endpoint("GET", "/headers", Some(("x-mode", "a")), "Get with header match"),
            endpoint("GET", "/headers", None, "fallback"),
        ],
        graphql: None,
        behavior: None,
    };
    let mut headers: StrMap<String> = StrMap::new();
    headers.insert("x-mode".into(), "A".into());
    let e = find_endpoint(&svc, "get", "/headers", &headers).unwrap();
    assert_eq!(e.description.as_deref(), Some("Get with header match"));
    assert!(headers_match(&svc.endpoints[0], &headers));
    let e = find_endpoint(&svc, "GET", "/headers", &StrMap::new()).unwrap();
    assert_eq!(e.description.as_deref(), Some("fallback"));
    assert!(find_endpoint(&svc, "POST", "/headers", &StrMap::new()).is_none());
}
