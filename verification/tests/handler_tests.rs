use apicentric::admin::{admin_access, AdminAccess};
use apicentric::handler::{proxy_error_body, script_body_text};
use apicentric::json::to_json_string;
use apicentric::handler::script_context;
use apicentric::handler::apply_script_result;
use apicentric::config::SideEffect;
use apicentric::handler::parse_request_body;
use apicentric::handler::process_side_effect;
use apicentric::handler::{header_value, recorded_reply_body, response_headers};
use apicentric::json::JsonValue;
use apicentric::state::ServiceState;
use apicentric::config::{CorsConfig, EndpointDefinition, EndpointKind, ResponseDefinition};
use apicentric::handler::{
    cors_allow_headers, cors_allow_methods, cors_allow_origin, cors_headers, decide_route, is_truthy, logs_query,
    not_found_body, parse_query, preflight_headers, process_response_body_template, proxy_target_url,
    relative_request_path, select_response, status_or_ok, RequestRoute,
};
use apicentric::strmap::StrMap;

fn response(status_condition: Option<&str>) -> ResponseDefinition {
    ResponseDefinition {
        condition: status_condition.map(|c| c.to_string()),
        content_type: "application/json".into(),
        body: "{}".into(),
        schema: None,
        script: None,
        headers: None,
        side_effects: None,
    }
}

fn endpoint(method: &str, path: &str) -> EndpointDefinition {
    EndpointDefinition {
        kind: EndpointKind::Http,
        method: method.into(),
        path: path.into(),
        header_match: None,
        description: None,
        parameters: None,
        request_body: None,
        responses: Vec::new(),
        scenarios: None,
        stream: None,
    }
}

fn cors(origins: &[&str], methods: Option<Vec<&str>>, headers: Option<Vec<&str>>) -> Option<CorsConfig> {
    Some(CorsConfig {
        enabled: true,
        origins: origins.iter().map(|s| s.to_string()).collect(),
        methods: methods.map(|v| v.iter().map(|s| s.to_string()).collect()),
        headers: headers.map(|v| v.iter().map(|s| s.to_string()).collect()),
    })
}

#[test]
fn query_strings_are_parsed_last_value_winning() {
    let q = parse_query("a=1&b=2&a=3&flag&c=x=y&=v");
    assert_eq!(q.get("a"), Some(&"3".to_string()));
    assert_eq!(q.get("b"), Some(&"2".to_string()));
    assert_eq!(q.get("flag"), None);
    assert_eq!(q.get("c"), Some(&"x".to_string()));
    assert_eq!(q.get(""), Some(&"v".to_string()));
    assert!(parse_query("").is_empty());
}

#[test]
fn relative_paths_under_base() {
    assert_eq!(relative_request_path("/api/users", "/api"), "/users");
    assert_eq!(relative_request_path("/api", "/api"), "/");
    assert_eq!(relative_request_path("/apiusers", "/api"), "/users");
    assert_eq!(relative_request_path("/other", "/api"), "/other");
    assert_eq!(relative_request_path("/users", "/"), "/users");
}

#[test]
fn truthiness_of_rendered_conditions() {
    assert!(is_truthy(" yes "));
    assert!(!is_truthy("  "));
    assert!(!is_truthy(" null\n"));
    assert!(!is_truthy("false"));
    assert!(is_truthy("False"));
}

#[test]
fn statuses_out_of_range_fall_back_to_ok() {
    assert_eq!(status_or_ok(404), 404);
    assert_eq!(status_or_ok(99), 200);
    assert_eq!(status_or_ok(1000), 200);
    assert_eq!(status_or_ok(999), 999);
}

#[test]
fn bodies_and_urls() {
    assert_eq!(
        not_found_body("GET", "/x", "svc"),
        "{\"error\": \"Endpoint not found\", \"method\": \"GET\", \"path\": \"/x\", \"service\": \"svc\"}"
    );
    assert_eq!(proxy_target_url("http://up/", "/a", Some("q=1")), "http://up/a?q=1");
    assert_eq!(proxy_target_url("http://up//", "/a", None), "http://up/a");
}

#[test]
fn cors_origin_methods_headers() {
    assert_eq!(cors_allow_origin(&None, "http://x"), "*");
    assert_eq!(cors_allow_origin(&cors(&["HTTP://X"], None, None), "http://x"), "http://x");
    assert_eq!(cors_allow_origin(&cors(&["http://y"], None, None), "http://x"), "*");
    assert_eq!(cors_allow_origin(&cors(&["http://x", "*"], None, None), "http://x"), "*");
    assert_eq!(cors_allow_methods(&None), "GET, POST, PUT, DELETE, PATCH, OPTIONS");
    assert_eq!(cors_allow_methods(&cors(&[], Some(vec!["GET", "POST"]), None)), "GET, POST");
    assert_eq!(cors_allow_headers(Some("X-A"), &cors(&[], None, Some(vec!["X-B"]))), "X-A");
    assert_eq!(cors_allow_headers(None, &cors(&[], None, Some(vec!["X-B", "X-C"]))), "X-B, X-C");
    assert_eq!(cors_allow_headers(None, &None), "Content-Type, Authorization");
}

#[test]
fn cors_header_lists() {
    let pre = preflight_headers(&None, "o", None);
    assert_eq!(pre.len(), 4);
    assert_eq!(pre[3], ("access-control-max-age".to_string(), "86400".to_string()));
    let plain = cors_headers(&None, "o");
    assert_eq!(plain, vec![("access-control-allow-origin".to_string(), "*".to_string())]);
    let full = cors_headers(&cors(&["o"], None, None), "o");
    assert_eq!(full.len(), 3);
    assert_eq!(full[0].1, "o");
}

#[test]
fn response_selection_order() {
    let rs = vec![(500, response(Some("{{a}}"))), (201, response(None)), (200, response(Some("{{b}}")))];
    assert_eq!(select_response(&rs, &vec![false, false, true]), Some(2));
    assert_eq!(select_response(&rs, &vec![false, false, false]), Some(1));
    let only_conditions = vec![(500, response(Some("x"))), (200, response(Some("y")))];
    assert_eq!(select_response(&only_conditions, &vec![false, false]), Some(1));
    let no_ok = vec![(500, response(Some("x"))), (404, response(Some("y")))];
    assert_eq!(select_response(&no_ok, &vec![false, false]), Some(0));
    assert_eq!(select_response(&Vec::new(), &Vec::new()), None);
}

#[test]
fn template_processing_outcomes() {
    assert_eq!(process_response_body_template("plain", Err("unused".into())).unwrap(), "plain");
    assert_eq!(process_response_body_template("{{x}}", Ok("done".into())).unwrap(), "done");
    let empty = process_response_body_template("{{x}}", Ok("  ".into())).unwrap_err();
    assert_eq!(empty.message, "Template rendering produced empty body");
    let fixture = process_response_body_template("{{ fixtures.users }}", Err("boom".into())).unwrap_err();
    assert_eq!(fixture.message, "Template rendering failed: boom");
    assert_eq!(fixture.suggestion.as_deref(), Some("Fixture reference error: Ensure fixtures contain the referenced data"));
    let syntax = process_response_body_template("{{#if}}", Err("bad".into())).unwrap_err();
    assert_eq!(syntax.suggestion.as_deref(), Some("Template syntax error: Check Handlebars template syntax"));
}

#[test]
fn routes_of_requests() {
    let eps = vec![endpoint("GET", "/users/{id}")];
    let headers: StrMap<String> = StrMap::new();
    assert!(matches!(decide_route("GET", "/__apicentric/logs", &eps, &headers, &None, None, false), RequestRoute::Logs));
    match decide_route("get", "/users/7", &eps, &headers, &None, None, false) {
        RequestRoute::Endpoint(m) => {
            assert_eq!(m.endpoint_index, 0);
            assert_eq!(m.path_params.get("id"), Some(&"7".to_string()));
        },
        _ => panic!("expected an endpoint"),
    }
    match decide_route("GET", "/nope", &eps, &headers, &Some("http://up/".into()), Some("a=1"), true) {
        RequestRoute::Proxy(url) => assert_eq!(url, "http://up/nope?a=1"),
        _ => panic!("expected a proxy"),
    }
    assert!(matches!(decide_route("GET", "/nope", &eps, &headers, &None, None, true), RequestRoute::Record));
    assert!(matches!(decide_route("GET", "/nope", &eps, &headers, &None, None, false), RequestRoute::NotFound));
}

#[test]
fn logs_listing_parameters() {
    let q = logs_query(&parse_query("limit=5&status=404&method=GET"));
    assert_eq!(q.limit, 5);
    assert_eq!(q.status, Some(404));
    assert_eq!(q.method.as_deref(), Some("GET"));
    assert!(q.route.is_none());
    let d = logs_query(&parse_query("limit=x&status=70000&route=/a"));
    assert_eq!(d.limit, 100);
    assert_eq!(d.status, None);
    assert_eq!(d.route.as_deref(), Some("/a"));
    assert_eq!(logs_query(&parse_query("limit=+7")).limit, 7);
}

fn jstr(v: &str) -> apicentric::json::JsonValue {
    apicentric::json::JsonValue::Str(v.to_string())
}

#[test]
fn side_effects_change_fixtures_and_runtime_data() {
    let effect = |action: &str, target: &str| SideEffect { action: action.into(), target: target.into(), value: String::new() };
    let mut state = ServiceState::new(None, None);
    process_side_effect(&effect("add_to_fixture", "users"), &mut state, r#"{"id": 1}"#).unwrap();
    process_side_effect(&effect("add_to_fixture", "users"), &mut state, r#"{"id": 2}"#).unwrap();
    match state.get_fixture("users") {
        Some(JsonValue::Array(items)) => assert_eq!(items.len(), 2),
        other => panic!("unexpected fixture {:?}", other),
    }
    process_side_effect(&effect("update_fixture", "config"), &mut state, "\"on\"").unwrap();
    assert_eq!(state.get_fixture("config"), Some(&jstr("on")));
    let err = process_side_effect(&effect("add_to_fixture", "config"), &mut state, "1").unwrap_err();
    assert_eq!(err.message, "Fixture 'config' is not an array");
    process_side_effect(&effect("remove_from_fixture", "config"), &mut state, "null").unwrap();
    assert!(!state.has_fixture("config"));
    process_side_effect(&effect("set_runtime_data", "token"), &mut state, "\"abc\"").unwrap();
    assert_eq!(state.get_runtime_data("token"), Some(&jstr("abc")));
    process_side_effect(&effect("remove_runtime_data", "token"), &mut state, "0").unwrap();
    assert!(!state.has_runtime_data("token"));
    let err = process_side_effect(&effect("explode", "x"), &mut state, "0").unwrap_err();
    assert_eq!(err.message, "Unknown side effect action: explode");
    assert_eq!(
        err.suggestion.as_deref(),
        Some("Use supported actions: add_to_fixture, update_fixture, remove_from_fixture, set_runtime_data, remove_runtime_data")
    );
    let err = process_side_effect(&effect("set_runtime_data", "x"), &mut state, "{oops").unwrap_err();
    assert!(err.message.starts_with("Failed to parse side effect value as JSON: "));
    assert_eq!(err.suggestion.as_deref(), Some("Ensure side effect value templates produce valid JSON"));
    assert!(!state.has_runtime_data("x"));
}

#[test]
fn request_bodies_by_content_type() {
    assert_eq!(parse_request_body("", "application/json"), None);
    assert_eq!(parse_request_body("{\"a\": true}", "application/json"),
        Some(JsonValue::Object(vec![("a".to_string(), JsonValue::Bool(true))])));
    assert_eq!(parse_request_body("not json", "text/plain"), None);
    let form = parse_request_body("name=Ann+Lee&b=1&name=Bo%21", "Application/X-WWW-Form-Urlencoded; charset=utf-8").unwrap();
    assert_eq!(form, JsonValue::Object(vec![("b".to_string(), jstr("1")), ("name".to_string(), jstr("Bo!"))]));
}

#[test]
fn recorded_reply_and_response_headers() {
    assert_eq!(
        recorded_reply_body("GET", "/api/users/42", "/users/{id}"),
        "{\"error\":\"Endpoint registrado\",\"message\":\"Se registró automáticamente GET /api/users/42 como /users/{id}\",\"method\":\"GET\",\"recorded_path\":\"/users/{id}\"}"
    );
    assert_eq!(header_value("plain", Ok("ignored".into())), "plain");
    assert_eq!(header_value("{{x}}", Ok("rendered".into())), "rendered");
    assert_eq!(header_value("{{x}}", Err("bad".into())), "{{x}}");
    let own = vec![("X-A".to_string(), "1".to_string())];
    let none = response_headers("text/plain", &own, &None, "http://o");
    assert_eq!(none, vec![
        ("content-type".to_string(), "text/plain".to_string()),
        ("X-A".to_string(), "1".to_string()),
        ("access-control-allow-origin".to_string(), "*".to_string()),
    ]);
    let with_cors = response_headers("application/json", &vec![], &cors(&["http://o"], None, None), "HTTP://O");
    assert_eq!(with_cors.len(), 4);
    assert_eq!(with_cors[1], ("access-control-allow-origin".to_string(), "HTTP://O".to_string()));
}

#[test]
fn script_context_lays_out_the_request() {
    let mut query: StrMap<String> = StrMap::new();
    query.insert("z".to_string(), "1".to_string());
    query.insert("a".to_string(), "2".to_string());
    let headers: StrMap<String> = StrMap::new();
    let mut params: StrMap<String> = StrMap::new();
    params.insert("id".to_string(), "7".to_string());
    let mut fixtures: StrMap<JsonValue> = StrMap::new();
    fixtures.insert("users".to_string(), JsonValue::Array(vec![]));
    let runtime: StrMap<JsonValue> = StrMap::new();
    let ctx = script_context("POST", "/users/7", &query, &headers, &None, &params, &fixtures, &runtime);
    let expected = JsonValue::Object(vec![
        ("fixtures".to_string(), JsonValue::Object(vec![("users".to_string(), JsonValue::Array(vec![]))])),
        ("params".to_string(), JsonValue::Object(vec![("id".to_string(), JsonValue::Str("7".to_string()))])),
        ("request".to_string(), JsonValue::Object(vec![
            ("body".to_string(), JsonValue::Null),
            ("headers".to_string(), JsonValue::Object(vec![])),
            ("method".to_string(), JsonValue::Str("POST".to_string())),
            ("path".to_string(), JsonValue::Str("/users/7".to_string())),
            ("query".to_string(), JsonValue::Object(vec![
                ("a".to_string(), JsonValue::Str("2".to_string())),
                ("z".to_string(), JsonValue::Str("1".to_string())),
            ])),
        ])),
        ("runtime".to_string(), JsonValue::Object(vec![])),
    ]);
    assert_eq!(ctx, expected);
}

#[test]
fn script_results_store_runtime_data() {
    let mut state = ServiceState::new(None, None);
    let result = JsonValue::Object(vec![
        ("count".to_string(), JsonValue::Number("3".to_string())),
        ("name".to_string(), JsonValue::Str("x".to_string())),
    ]);
    let body = apply_script_result(&mut state, apicentric::json::json_clone(&result));
    assert_eq!(body, Some(result));
    assert_eq!(state.get_runtime_data("count"), Some(&JsonValue::Number("3".to_string())));
    assert_eq!(state.get_runtime_data("name"), Some(&JsonValue::Str("x".to_string())));
    assert_eq!(apply_script_result(&mut state, JsonValue::Null), None);
    assert_eq!(apply_script_result(&mut state, JsonValue::Str("text".to_string())), Some(JsonValue::Str("text".to_string())));
    assert_eq!(state.runtime_data_count(), 2);
}

#[test]
fn compact_json_matches_serde() {
    let v = JsonValue::Object(vec![
        ("a".to_string(), JsonValue::Array(vec![JsonValue::Number("1".to_string()), JsonValue::Null, JsonValue::Bool(true)])),
        ("b".to_string(), JsonValue::Str("q\"x\n".to_string())),
        ("c".to_string(), JsonValue::Object(vec![])),
        ("d".to_string(), JsonValue::Array(vec![])),
    ]);
    let parsed: serde_json::Value = serde_json::from_str(r#"{"d": [], "c": {}, "b": "q\"x\n", "a": [1, null, true]}"#).unwrap();
    let expected = serde_json::to_string(&parsed).unwrap();
    assert_eq!(to_json_string(&v), expected);
    assert_eq!(script_body_text(&JsonValue::Str("plain".to_string())), "plain");
    assert_eq!(script_body_text(&v), expected);
    assert_eq!(script_body_text(&JsonValue::Number("30".to_string())), "30");
    assert_eq!(proxy_error_body("refused"), r#"{"error": "Proxy request failed", "details": "refused"}"#);
}

#[test]
fn admin_access_needs_the_bearer_token() {
    assert_eq!(admin_access(None, None), AdminAccess::Allowed);
    assert_eq!(admin_access(None, Some("Basic abc")), AdminAccess::Allowed);
    assert_eq!(admin_access(Some("secret"), None), AdminAccess::Unauthorized);
    assert_eq!(admin_access(Some("secret"), Some("Basic secret")), AdminAccess::Unauthorized);
    assert_eq!(admin_access(Some("secret"), Some("Bearer secret")), AdminAccess::Allowed);
    assert_eq!(admin_access(Some("secret"), Some("Bearer wrong")), AdminAccess::Forbidden);
    assert_eq!(admin_access(Some("secret"), Some("Bearer Bearer secret")), AdminAccess::Allowed);
    assert_eq!(admin_access(Some("secret"), Some("bearer secret")), AdminAccess::Unauthorized);
}
