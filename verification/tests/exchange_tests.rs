use apicentric::config::{
    ScenarioDefinition, ScenarioResponse, CorsConfig, EndpointDefinition, EndpointKind, ResponseDefinition, ServerConfig, ServiceDefinition, SideEffect,
};
use apicentric::exchange::{handler_step, rotations_in_range, HandlerAction, HandlerEvent, HandlerProgress, IncomingRequest};
use apicentric::graphql::GraphQLMocks;
use apicentric::instance::ServiceInstance;
use apicentric::json::JsonValue;
use apicentric::strmap::StrMap;

fn response(condition: Option<&str>, body: &str) -> ResponseDefinition {
    ResponseDefinition {
        condition: condition.map(|c| c.to_string()),
        content_type: "application/json".to_string(),
        body: body.to_string(),
        schema: None,
        script: None,
        headers: None,
        side_effects: None,
    }
}

fn endpoint(method: &str, path: &str, responses: Vec<(u16, ResponseDefinition)>) -> EndpointDefinition {
    EndpointDefinition {
        kind: EndpointKind::Http,
        method: method.to_string(),
        path: path.to_string(),
        header_match: None,
        description: None,
        parameters: None,
        request_body: None,
        responses,
        scenarios: None,
        stream: None,
    }
}

fn create_test_service_definition() -> ServiceDefinition {
    ServiceDefinition {
        name: "test-service".to_string(),
        version: Some("1.0.0".to_string()),
        description: Some("Test service".to_string()),
        server: ServerConfig { port: Some(8001), base_path: "/api/v1".to_string(), proxy_base_url: None, cors: None, record_unknown: false },
        models: None,
        fixtures: None,
        bucket: None,
        endpoints: vec![
            endpoint("GET", "/users", vec![(200, response(None, "{{ fixtures.users }}"))]),
            endpoint("GET", "/users/1", vec![(200, response(None, r#"{"id": 1, "name": "Alice"}"#))]),
        ],
        graphql: None,
        behavior: None,
    }
}

fn request(method: &str, path: &str, headers: &[(&str, &str)], body: &str) -> IncomingRequest {
    let mut table: StrMap<String> = StrMap::new();
    for (k, v) in headers {
        table.insert(k.to_string(), v.to_string());
    }
    IncomingRequest {
        method: method.to_string(),
        path: path.to_string(),
        query: None,
        headers: table,
        body: body.as_bytes().to_vec(),
        body_text: body.to_string(),
    }
}

fn start(instance: &mut ServiceInstance, req: IncomingRequest, gql: Option<GraphQLMocks>) -> (HandlerProgress, HandlerAction) {
    assert!(rotations_in_range(instance));
    handler_step(instance, HandlerProgress::Idle, HandlerEvent::Start(req, gql))
}

#[test]
fn service_test_proxy_disabled_returns_not_found() {
    let mut definition = create_test_service_definition();
    definition.server.proxy_base_url = None;
    let mut service = ServiceInstance::new(definition, 8050);
    let (progress, action) = start(&mut service, request("GET", "/api/v1/unknown", &[], ""), None);
    assert!(matches!(progress, HandlerProgress::Done));
    match action {
        HandlerAction::Reply(reply) => {
            assert_eq!(reply.status, 404);
            assert_eq!(
                reply.body,
                r#"{"error": "Endpoint not found", "method": "GET", "path": "/unknown", "service": "test-service"}"#
            );
            assert_eq!(reply.log.last().unwrap().status, 404);
            assert_eq!(reply.log.last().unwrap().endpoint, None);
            assert_eq!(reply.log.last().unwrap().path, "/api/v1/unknown");
            assert_eq!(reply.log.last().unwrap().service, "test-service");
            assert!(!reply.save_definition);
        }
        _ => panic!("expected a reply"),
    }
    assert_eq!(service.endpoints_count(), 2);
}

#[test]
fn service_test_proxy_forwards_unmatched_requests() {
    let mut definition = create_test_service_definition();
    definition.server.proxy_base_url = Some("http://127.0.0.1:9999/".to_string());
    let mut service = ServiceInstance::new(definition, 8051);
    let mut req = request("POST", "/api/v1/unknown", &[("x-test-header", "abc")], "hello");
    req.query = Some("a=1".to_string());
    let (progress, action) = start(&mut service, req, None);
    match action {
        HandlerAction::Forward(url) => assert_eq!(url, "http://127.0.0.1:9999/unknown?a=1"),
        _ => panic!("expected forwarding"),
    }
    let (done, relay) = handler_step(&mut service, progress, HandlerEvent::Forwarded(Ok(200)));
    assert!(matches!(done, HandlerProgress::Done));
    match relay {
        HandlerAction::Relay(log) => {
            assert_eq!(log.len(), 3);
            assert_eq!(log[0].method, "DEBUG");
            assert_eq!(log[0].path, "Request Origin: none");
            assert_eq!(log[1].path, "Request body: hello");
            assert_eq!(log[2].status, 200);
            assert_eq!(log[2].method, "POST");
        }
        _ => panic!("expected the upstream reply to be relayed"),
    }
}

#[test]
fn a_failed_forward_is_answered_502() {
    let mut definition = create_test_service_definition();
    definition.server.proxy_base_url = Some("http://127.0.0.1:9".to_string());
    let mut service = ServiceInstance::new(definition, 8052);
    let (progress, _) = start(&mut service, request("GET", "/api/v1/unknown", &[], ""), None);
    let (_, action) = handler_step(&mut service, progress, HandlerEvent::Forwarded(Err("connection refused".to_string())));
    match action {
        HandlerAction::Reply(reply) => {
            assert_eq!(reply.status, 502);
            assert_eq!(reply.body, r#"{"error": "Proxy request failed", "details": "connection refused"}"#);
            assert_eq!(reply.log.last().unwrap().status, 502);
        }
        _ => panic!("expected a reply"),
    }
}

#[test]
fn test_unknown_route_recording_creates_endpoint() {
    let mut definition = create_test_service_definition();
    definition.name = "orders".to_string();
    definition.server.base_path = "/api".to_string();
    definition.server.record_unknown = true;
    let mut service = ServiceInstance::new(definition, 8053);
    let (progress, action) = start(&mut service, request("GET", "/api/orders/42", &[], ""), None);
    assert!(matches!(progress, HandlerProgress::Done));
    match action {
        HandlerAction::Reply(reply) => {
            assert_eq!(reply.status, 409);
            assert!(reply.body.contains("registr"));
            assert!(reply.save_definition);
            assert_eq!(reply.log.last().unwrap().status, 409);
            assert_eq!(reply.headers[0], ("content-type".to_string(), "application/json".to_string()));
            assert_eq!(reply.headers[1], ("access-control-allow-origin".to_string(), "*".to_string()));
        }
        _ => panic!("expected a reply"),
    }
    let recorded = service.endpoints().iter().find(|ep| ep.path == "/orders/{param1}" && ep.method == "GET");
    assert!(recorded.is_some(), "expected recorded endpoint in service");
}

#[test]
fn a_preflight_is_answered_204_and_logged() {
    let mut definition = create_test_service_definition();
    definition.server.cors = Some(CorsConfig {
        enabled: true,
        origins: vec!["https://app.example".to_string()],
        methods: Some(vec!["GET".to_string(), "POST".to_string()]),
        headers: None,
    });
    let mut service = ServiceInstance::new(definition, 8054);
    let req = request("OPTIONS", "/api/v1/users", &[("origin", "HTTPS://APP.EXAMPLE"), ("access-control-request-headers", "x-token")], "");
    let (progress, action) = start(&mut service, req, None);
    assert!(matches!(progress, HandlerProgress::Done));
    match action {
        HandlerAction::Reply(reply) => {
            assert_eq!(reply.status, 204);
            assert_eq!(reply.body, "");
            assert_eq!(reply.headers, vec![
                ("access-control-allow-origin".to_string(), "HTTPS://APP.EXAMPLE".to_string()),
                ("access-control-allow-methods".to_string(), "GET, POST".to_string()),
                ("access-control-allow-headers".to_string(), "x-token".to_string()),
                ("access-control-max-age".to_string(), "86400".to_string()),
            ]);
            assert_eq!(reply.log.len(), 3);
            assert_eq!(reply.log[0].path, "Request Origin: HTTPS://APP.EXAMPLE");
            assert_eq!(reply.log[0].method, "DEBUG");
            assert_eq!(reply.log[1].path, "CORS preflight response sent");
            assert_eq!(reply.log[1].status, 204);
            assert_eq!(reply.log.last().unwrap().status, 204);
            assert_eq!(reply.log.last().unwrap().method, "OPTIONS");
        }
        _ => panic!("expected a reply"),
    }
}

#[test]
fn an_endpoint_answers_through_its_conditions_and_templates() {
    let mut definition = create_test_service_definition();
    let mut answer = response(None, "{{ fixtures.users }}");
    answer.headers = Some(vec![("x-total".to_string(), "{{ count }}".to_string()), ("x-plain".to_string(), "yes".to_string())]);
    answer.side_effects = Some(vec![SideEffect {
        action: "set_runtime_data".to_string(),
        target: "last".to_string(),
        value: "{{ request }}".to_string(),
    }]);
    definition.endpoints[0].responses = vec![(403, response(Some("{{ request.headers.deny }}"), r#"{"error":"denied"}"#)), (201, answer)];
    let mut service = ServiceInstance::new(definition, 8055);
    let (progress, action) = start(&mut service, request("GET", "/api/v1/users", &[], ""), None);
    match &action {
        HandlerAction::Render(templates) => assert_eq!(templates, &vec!["{{ request.headers.deny }}".to_string(), String::new()]),
        _ => panic!("expected the conditions to be rendered"),
    }
    let (progress, action) = handler_step(&mut service, progress, HandlerEvent::Rendered(vec![Ok("false".to_string()), Ok(String::new())]));
    match &action {
        HandlerAction::Render(templates) => assert_eq!(templates.len(), 4),
        _ => panic!("expected the response templates to be rendered"),
    }
    let rendered = vec![
        Ok("[1,2]".to_string()),
        Ok("\"GET\"".to_string()),
        Ok("2".to_string()),
        Err("not rendered".to_string()),
    ];
    let (progress, action) = handler_step(&mut service, progress, HandlerEvent::Rendered(rendered));
    assert!(matches!(progress, HandlerProgress::Done));
    match action {
        HandlerAction::Reply(reply) => {
            assert_eq!(reply.status, 201);
            assert_eq!(reply.body, "[1,2]");
            assert_eq!(reply.headers, vec![
                ("content-type".to_string(), "application/json".to_string()),
                ("x-total".to_string(), "2".to_string()),
                ("x-plain".to_string(), "yes".to_string()),
                ("access-control-allow-origin".to_string(), "*".to_string()),
            ]);
            assert_eq!(reply.log.last().unwrap().endpoint, Some(0));
            assert_eq!(reply.log.last().unwrap().status, 201);
        }
        _ => panic!("expected a reply"),
    }
    assert_eq!(service.get_state("last"), Some(JsonValue::Str("GET".to_string())));
}

#[test]
fn an_endpoint_without_answering_response_gives_500() {
    let mut definition = create_test_service_definition();
    definition.endpoints[1].responses = vec![];
    let mut service = ServiceInstance::new(definition, 8056);
    let (progress, _) = start(&mut service, request("GET", "/api/v1/users/1", &[], ""), None);
    let (_, action) = handler_step(&mut service, progress, HandlerEvent::Rendered(vec![]));
    match action {
        HandlerAction::Reply(reply) => {
            assert_eq!(reply.status, 500);
            assert_eq!(reply.body, r#"{"error": "No response definition found"}"#);
            assert_eq!(reply.log.last().unwrap().endpoint, Some(1));
        }
        _ => panic!("expected a reply"),
    }
}

#[test]
fn a_body_template_that_renders_blank_fails_the_request() {
    let mut service = ServiceInstance::new(create_test_service_definition(), 8057);
    let (progress, _) = start(&mut service, request("GET", "/api/v1/users", &[], ""), None);
    let (progress, _) = handler_step(&mut service, progress, HandlerEvent::Rendered(vec![Ok(String::new())]));
    let (_, action) = handler_step(&mut service, progress, HandlerEvent::Rendered(vec![Ok("  ".to_string())]));
    match action {
        HandlerAction::Fail(e, log) => {
            assert_eq!(log.len(), 1);
            assert_eq!(
                e.message,
                "Failed to process template for GET /api/v1/users in service 'test-service': Template rendering produced empty body"
            );
            assert_eq!(e.suggestion.as_deref(), Some("Check template syntax and fixture availability"));
        }
        _ => panic!("expected a failure"),
    }
}

#[test]
fn a_script_result_overrides_the_body() {
    let mut definition = create_test_service_definition();
    definition.endpoints[1].responses[0].1.script = Some("scripts/user.rhai".to_string());
    let mut service = ServiceInstance::new(definition, 8058);
    let (progress, action) = start(&mut service, request("GET", "/api/v1/users/1", &[], ""), None);
    let (progress, _) = handler_step(&mut service, progress, HandlerEvent::Rendered(vec![Ok(String::new())]));
    let _ = action;
    let progress = match progress {
        HandlerProgress::Script(..) => progress,
        _ => panic!("expected the script to run"),
    };
    let result = JsonValue::Object(vec![("seen".to_string(), JsonValue::Bool(true))]);
    let (progress, action) = handler_step(&mut service, progress, HandlerEvent::ScriptRan(Ok(result)));
    match &action {
        HandlerAction::Render(templates) => assert_eq!(templates, &vec![r#"{"seen":true}"#.to_string()]),
        _ => panic!("expected the body to be rendered"),
    }
    assert_eq!(service.get_state("seen"), Some(JsonValue::Bool(true)));
    let (_, action) = handler_step(&mut service, progress, HandlerEvent::Rendered(vec![Err("unused".to_string())]));
    match action {
        HandlerAction::Reply(reply) => assert_eq!(reply.body, r#"{"seen":true}"#),
        _ => panic!("expected a reply"),
    }
}

#[test]
fn logs_and_graphql_requests() {
    let mut service = ServiceInstance::new(create_test_service_definition(), 8059);
    let mut req = request("GET", "/api/v1/__apicentric/logs", &[], "");
    req.query = Some("limit=5&status=404".to_string());
    let (progress, action) = start(&mut service, req, None);
    match &action {
        HandlerAction::ListLogs(q) => {
            assert_eq!(q.limit, 5);
            assert_eq!(q.status, Some(404));
        }
        _ => panic!("expected the log to be listed"),
    }
    let (_, action) = handler_step(&mut service, progress, HandlerEvent::LogsListed("[]".to_string()));
    match action {
        HandlerAction::Reply(reply) => {
            assert_eq!(reply.status, 200);
            assert_eq!(reply.body, "[]");
        }
        _ => panic!("expected a reply"),
    }

    let mocks = GraphQLMocks { schema: "type Query { a: Int }".to_string(), mocks: vec![("GetA".to_string(), "{\"a\":1}".to_string())] };
    let (_, action) = start(&mut service, request("GET", "/api/v1/graphql", &[], ""), Some(mocks));
    match action {
        HandlerAction::Reply(reply) => {
            assert_eq!(reply.status, 200);
            assert_eq!(reply.body, "type Query { a: Int }");
        }
        _ => panic!("expected the schema"),
    }
    let mocks = GraphQLMocks { schema: "type Query { a: Int }".to_string(), mocks: vec![("GetA".to_string(), "{\"a\":1}".to_string())] };
    let body = r#"{"query":"query GetA { a }","operationName":"GetA"}"#;
    let (progress, action) = start(&mut service, request("POST", "/api/v1/graphql", &[], body), Some(mocks));
    match &action {
        HandlerAction::Render(templates) => assert_eq!(templates, &vec!["{\"a\":1}".to_string()]),
        _ => panic!("expected the mock to be rendered"),
    }
    let (_, action) = handler_step(&mut service, progress, HandlerEvent::Rendered(vec![Err("boom".to_string())]));
    match action {
        HandlerAction::Reply(reply) => {
            assert_eq!(reply.status, 500);
            assert_eq!(reply.body, "{\"error\":\"boom\"}");
        }
        _ => panic!("expected a reply"),
    }
}

#[test]
fn rotation_counters_stay_in_range_across_requests() {
    let mut definition = create_test_service_definition();
    definition.endpoints[1].scenarios = Some(vec![
        ScenarioDefinition {
            name: None,
            conditions: None,
            response: ScenarioResponse { status: 200, definition: response(None, "first") },
            strategy: None,
        },
        ScenarioDefinition {
            name: None,
            conditions: None,
            response: ScenarioResponse { status: 201, definition: response(None, "second") },
            strategy: None,
        },
    ]);
    let mut service = ServiceInstance::new(definition, 8060);
    let mut bodies = Vec::new();
    for _ in 0..5 {
        assert!(rotations_in_range(&service));
        let (progress, _) =
            handler_step(&mut service, HandlerProgress::Idle, HandlerEvent::Start(request("GET", "/api/v1/users/1", &[], ""), None));
        let (_, action) = handler_step(&mut service, progress, HandlerEvent::Rendered(vec![Ok(String::new())]));
        match action {
            HandlerAction::Reply(reply) => bodies.push((reply.status, reply.body)),
            _ => panic!("expected a reply"),
        }
    }
    assert!(rotations_in_range(&service));
    assert_eq!(bodies[0], (200, "first".to_string()));
    assert_eq!(bodies[1], (201, "second".to_string()));
    assert_eq!(bodies[2], (200, "first".to_string()));
    assert_eq!(bodies[4], (200, "first".to_string()));
}

#[test]
fn a_later_mock_for_an_operation_replaces_the_earlier() {
    let mut mocks = GraphQLMocks::new("type Query { a: Int }".to_string());
    mocks.set_mock("GetA".to_string(), "1".to_string());
    mocks.set_mock("GetB".to_string(), "2".to_string());
    mocks.set_mock("GetA".to_string(), "3".to_string());
    assert_eq!(mocks.mocks, vec![("GetA".to_string(), "3".to_string()), ("GetB".to_string(), "2".to_string())]);
    assert_eq!(mocks.schema, "type Query { a: Int }");
}
