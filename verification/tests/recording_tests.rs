use apicentric::config::{EndpointDefinition, EndpointKind, ParameterLocation};
use apicentric::endpoints::find_endpoint_with_params_static;
use apicentric::recording::{build_recorded_endpoint, is_dynamic_segment, looks_like_uuid, normalize_recorded_path};
use apicentric::recording_proxy::{
    encode_recorded_values, is_variable_segment, merge_into, merge_recorded_values, parameterize_path,
    recorded_service, upsert_recorded_endpoint,
};
use apicentric::strmap::StrMap;
use std::collections::HashMap;

const METADATA: &str = "x-apicentric-recorded-path-params";

#[test]
fn parameterize_path_detects_dynamic_segments() {
    let (templated, params, values) = parameterize_path("/users/123");

    assert_eq!(templated, "/users/{param1}");
    assert_eq!(params.len(), 1);
    assert_eq!(params[0].name, "param1");
    assert_eq!(values, vec![("param1".to_string(), "123".to_string())]);

    let (templated_other, _, other_values) = parameterize_path("/users/456");
    assert_eq!(templated_other, templated);
    assert_eq!(other_values, vec![("param1".to_string(), "456".to_string())]);
}

#[test]
fn upsert_collapses_similar_paths_into_one_endpoint() {
    let mut map: Vec<EndpointDefinition> = Vec::new();
    let headers: Vec<(String, String)> = Vec::new();

    upsert_recorded_endpoint(&mut map, "GET", "/users/123", 200, "application/json", "{\"id\":123}".to_string(), &headers);
    upsert_recorded_endpoint(&mut map, "GET", "/users/456", 200, "application/json", "{\"id\":456}".to_string(), &headers);

    assert_eq!(map.len(), 1);
    let endpoint = &map[0];
    assert_eq!(endpoint.path, "/users/{param1}");
    let params = endpoint.parameters.as_ref().expect("parameters should be recorded");
    assert_eq!(params[0].name, "param1");

    let response = &endpoint
        .responses
        .iter()
        .find(|(status, _)| *status == 200)
        .expect("response for status code should exist")
        .1;
    let headers_map = response.headers.as_ref().expect("metadata headers should exist");
    let metadata = &headers_map
        .iter()
        .find(|(k, _)| k == METADATA)
        .expect("metadata header should be present")
        .1;
    let parsed: HashMap<String, Vec<String>> = serde_json::from_str(metadata).unwrap();
    assert_eq!(parsed.get("param1"), Some(&vec!["123".to_string(), "456".to_string()]));
}

#[test]
fn replay_uses_parameterized_template() {
    let mut map: Vec<EndpointDefinition> = Vec::new();
    let headers: Vec<(String, String)> = Vec::new();
    upsert_recorded_endpoint(&mut map, "GET", "/users/123", 200, "application/json", "{\"id\":123}".to_string(), &headers);
    upsert_recorded_endpoint(&mut map, "GET", "/users/456", 200, "application/json", "{\"id\":456}".to_string(), &headers);
    let service = recorded_service(map);
    let route = find_endpoint_with_params_static(&service.endpoints, "GET", "/users/456", &StrMap::new())
        .expect("route should be found");
    assert_eq!(route.endpoint.path, "/users/{param1}");
    assert_eq!(route.path_params.get("param1"), Some(&"456".to_string()));
}

#[test]
fn variable_segments() {
    assert!(is_variable_segment("123"));
    assert!(is_variable_segment("550e8400-e29b-41d4-a716-446655440000"));
    assert!(is_variable_segment("{550e8400-e29b-41d4-a716-446655440000}"));
    assert!(is_variable_segment("urn:uuid:550e8400-e29b-41d4-a716-446655440000"));
    assert!(is_variable_segment("deadbeefdeadbeef"));
    assert!(is_variable_segment("ab12"));
    assert!(is_variable_segment("x_1~y"));
    assert!(!is_variable_segment("users"));
    assert!(!is_variable_segment("a1b"));
    assert!(!is_variable_segment("ab12!"));
    assert!(!is_variable_segment(""));
    assert!(!is_variable_segment("deadbeef"));
}

#[test]
fn upsert_keeps_other_endpoints_and_statuses() {
    let mut map: Vec<EndpointDefinition> = Vec::new();
    let headers = vec![("content-type".to_string(), "text/plain".to_string())];
    upsert_recorded_endpoint(&mut map, "GET", "/health", 200, "text/plain", "ok".to_string(), &headers);
    upsert_recorded_endpoint(&mut map, "POST", "/health", 201, "text/plain", "made".to_string(), &headers);
    upsert_recorded_endpoint(&mut map, "GET", "/health", 503, "text/plain", "down".to_string(), &headers);
    upsert_recorded_endpoint(&mut map, "GET", "/health", 200, "text/plain", "ok again".to_string(), &headers);
    assert_eq!(map.len(), 2);
    assert_eq!(map[0].method, "GET");
    assert!(map[0].parameters.is_none());
    assert_eq!(map[0].responses.len(), 2);
    assert_eq!(map[0].responses[0].0, 200);
    assert_eq!(map[0].responses[0].1.body, "ok again");
    assert_eq!(map[0].responses[1].0, 503);
    let h = map[0].responses[0].1.headers.as_ref().unwrap();
    assert_eq!(h, &vec![("content-type".to_string(), "text/plain".to_string())]);
    assert_eq!(map[1].method, "POST");
    assert_eq!(map[1].kind, EndpointKind::Http);
    assert!(map[1].responses[0].1.headers.is_some());
}

#[test]
fn merging_recorded_values() {
    let none: Vec<(String, String)> = Vec::new();
    assert_eq!(merge_recorded_values(None, &none), None);
    let old = "{\"a\":[\"1\"]}".to_string();
    assert_eq!(merge_recorded_values(Some(&old), &none), Some(old.clone()));
    let new = vec![("a".to_string(), "2".to_string()), ("a".to_string(), "1".to_string())];
    let merged = merge_recorded_values(Some(&old), &new).unwrap();
    assert_eq!(merged, "{\"a\":[\"1\",\"2\"]}");
    let single = "{\"a\":\"x\"}".to_string();
    let merged = merge_recorded_values(Some(&single), &new).unwrap();
    assert_eq!(merged, "{\"a\":[\"x\",\"2\",\"1\"]}");
    let broken = "not json".to_string();
    let merged = merge_recorded_values(Some(&broken), &new).unwrap();
    assert_eq!(merged, "{\"a\":[\"2\",\"1\"]}");
}

#[test]
fn merge_into_and_encode() {
    let mut m: StrMap<Vec<String>> = StrMap::new();
    merge_into(&mut m, &vec![("p\"1".to_string(), "v\n".to_string()), ("q".to_string(), "z".to_string())]);
    assert_eq!(encode_recorded_values(&m), "{\"p\\\"1\":[\"v\\n\"],\"q\":[\"z\"]}");
    assert_eq!(encode_recorded_values(&StrMap::new()), "{}");
}

#[test]
fn recorded_endpoint_for_unknown_request() {
    let (endpoint, path) = build_recorded_endpoint("get", "/orders/42/items/ab12cd");
    assert_eq!(path, "/orders/{param1}/items/{param2}");
    assert_eq!(endpoint.method, "GET");
    assert_eq!(endpoint.path, path);
    let params = endpoint.parameters.as_ref().unwrap();
    assert_eq!(params.len(), 2);
    assert_eq!(params[1].name, "param2");
    assert_eq!(params[1].location, ParameterLocation::Path);
    assert_eq!(endpoint.responses.len(), 1);
    assert_eq!(endpoint.responses[0].0, 200);
    assert_eq!(
        endpoint.responses[0].1.body,
        "{\"message\":\"Respuesta placeholder generada automáticamente\",\"method\":\"get\",\"path\":\"/orders/{param1}/items/{param2}\"}"
    );
    let (plain, p) = build_recorded_endpoint("POST", "/health");
    assert_eq!(p, "/health");
    assert!(plain.parameters.is_none());
}

#[test]
fn normalizing_recorded_paths() {
    let (path, params) = normalize_recorded_path("/users/-5/x/a.b");
    assert_eq!(path, "/users/{param1}/x/{param2}");
    assert_eq!(params.len(), 2);
    assert_eq!(params[0].description.as_deref(), Some("Valor capturado automáticamente desde '-5'."));
    assert!(is_dynamic_segment("12345678901234567890"));
    assert!(!is_dynamic_segment("99999999999999999999"));
    assert!(looks_like_uuid("550e8400e29b41d4a716446655440000"));
    assert!(!looks_like_uuid("550e8400"));
}
