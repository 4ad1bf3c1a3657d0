use apicentric::config::{
    EndpointDefinition, EndpointKind, ResponseDefinition, ScenarioConditions, ScenarioDefinition, ScenarioResponse,
    ScenarioStrategy,
};
use apicentric::json::JsonValue;
use apicentric::scenario::match_scenario;
use apicentric::state::ServiceState;
use apicentric::strmap::StrMap;

fn s(v: &str) -> JsonValue {
    JsonValue::Str(v.to_string())
}

fn n(v: &str) -> JsonValue {
    JsonValue::Number(v.to_string())
}

fn obj(fields: Vec<(&str, JsonValue)>) -> JsonValue {
    JsonValue::Object(fields.into_iter().map(|(k, v)| (k.to_string(), v)).collect())
}

fn response(status: u16, body: &str) -> ScenarioResponse {
    ScenarioResponse {
        status,
        definition: ResponseDefinition {
            condition: None,
            content_type: "application/json".to_string(),
            body: body.to_string(),
            schema: None,
            script: None,
            headers: None,
            side_effects: None,
        },
    }
}

fn scenario(name: Option<&str>, conditions: Option<ScenarioConditions>, status: u16, strategy: Option<ScenarioStrategy>) -> ScenarioDefinition {
    ScenarioDefinition { name: name.map(|v| v.to_string()), conditions, response: response(status, "{}"), strategy }
}

fn endpoint_with(scenarios: Vec<ScenarioDefinition>) -> EndpointDefinition {
    EndpointDefinition {
        kind: EndpointKind::Http,
        method: "GET".to_string(),
        path: "/test".to_string(),
        header_match: None,
        description: None,
        parameters: None,
        request_body: None,
        responses: Vec::new(),
        scenarios: Some(scenarios),
        stream: None,
    }
}

fn table(pairs: &[(&str, &str)]) -> StrMap<String> {
    let mut m = StrMap::new();
    for (k, v) in pairs {
        m.insert(k.to_string(), v.to_string());
    }
    m
}

fn conditional_endpoint() -> EndpointDefinition {
    endpoint_with(vec![
        scenario(
            Some("query"),
            Some(ScenarioConditions { query: Some(vec![("mode".into(), "1".into())]), headers: None, body: None }),
            200,
            None,
        ),
        scenario(
            Some("header"),
            Some(ScenarioConditions { query: None, headers: Some(vec![("x-scn".into(), "hdr".into())]), body: None }),
            201,
            None,
        ),
        scenario(
            Some("body"),
            Some(ScenarioConditions { query: None, headers: None, body: Some(vec![("kind".into(), s("b"))]) }),
            202,
            None,
        ),
        scenario(Some("error"), None, 500, None),
    ])
}

fn check_scenario_matching() {
    let endpoint = conditional_endpoint();
    let mut state = ServiceState::new(None, None);

    let res = match_scenario(&endpoint, &mut state, 0, None, &table(&[("mode", "1")]), &StrMap::new(), &None);
    assert_eq!(res.unwrap().0, 200);

    let res = match_scenario(&endpoint, &mut state, 0, None, &StrMap::new(), &table(&[("x-scn", "hdr")]), &None);
    assert_eq!(res.unwrap().0, 201);

    let body = Some(obj(vec![("kind", s("b"))]));
    let res = match_scenario(&endpoint, &mut state, 0, None, &StrMap::new(), &StrMap::new(), &body);
    assert_eq!(res.unwrap().0, 202);

    let res = match_scenario(&endpoint, &mut state, 0, Some("error".to_string()), &StrMap::new(), &StrMap::new(), &None);
    assert_eq!(res.unwrap().0, 500);
}

#[test]
fn service_test_scenario_matching() {
    check_scenario_matching();
}

#[test]
fn service_instance_test_test_scenario_matching() {
    check_scenario_matching();
}

#[test]
fn scenario_conditions_need_every_pair() {
    let endpoint = conditional_endpoint();
    let mut state = ServiceState::new(None, None);
    let header_case = match_scenario(&endpoint, &mut state, 0, None, &StrMap::new(), &table(&[("x-scn", "HDR")]), &None);
    assert_eq!(header_case.unwrap().0, 201);
    let wrong_query = match_scenario(&endpoint, &mut state, 0, None, &table(&[("mode", "2")]), &StrMap::new(), &None);
    assert!(wrong_query.is_none());
    let not_object = Some(s("b"));
    let res = match_scenario(&endpoint, &mut state, 0, None, &StrMap::new(), &StrMap::new(), &not_object);
    assert!(res.is_none());
}

#[test]
fn scenario_rotation_sequential() {
    let endpoint = endpoint_with(vec![
        scenario(None, None, 200, Some(ScenarioStrategy::Sequential)),
        scenario(None, None, 201, None),
        scenario(None, None, 202, None),
    ]);
    let mut state = ServiceState::new(None, None);
    let mut seen = Vec::new();
    for _ in 0..5 {
        let (status, _) = match_scenario(&endpoint, &mut state, 3, None, &StrMap::new(), &StrMap::new(), &None).unwrap();
        seen.push(status);
    }
    assert_eq!(seen, vec![200, 201, 202, 200, 201]);
    let (other, _) = match_scenario(&endpoint, &mut state, 4, None, &StrMap::new(), &StrMap::new(), &None).unwrap();
    assert_eq!(other, 200);
}

#[test]
fn scenario_rotation_random_stays_in_candidates() {
    let endpoint = endpoint_with(vec![
        scenario(None, None, 200, Some(ScenarioStrategy::Random)),
        scenario(Some("named"), None, 299, None),
        scenario(None, None, 201, None),
    ]);
    let mut state = ServiceState::new(None, None);
    for _ in 0..20 {
        let (status, _) = match_scenario(&endpoint, &mut state, 0, None, &StrMap::new(), &StrMap::new(), &None).unwrap();
        assert!(status == 200 || status == 201);
    }
}

fn check_state_operations() {
    let mut state = ServiceState::new(None, None);

    state.set_runtime_data("key1".to_string(), s("value1"));
    assert_eq!(state.get_runtime_data("key1"), Some(&s("value1")));

    state.set_fixture("fixture1".to_string(), obj(vec![("data", s("test"))]));
    assert_eq!(state.get_fixture("fixture1"), Some(&obj(vec![("data", s("test"))])));

    assert_eq!(state.get_runtime_data("nonexistent"), None);
    assert_eq!(state.get_fixture("nonexistent"), None);

    let mut bucket = state.bucket();
    bucket.set("foo".to_string(), n("123"));
    assert_eq!(bucket.get("foo"), Some(n("123")));
}

#[test]
fn service_test_service_state_operations() {
    check_state_operations();
}

#[test]
fn service_instance_test_test_service_state_operations() {
    check_state_operations();
}

#[test]
fn fixture_array_operations() {
    let mut state = ServiceState::new(None, None);
    state.add_to_fixture_array("users", obj(vec![("id", n("1"))])).unwrap();
    state.add_to_fixture_array("users", obj(vec![("id", n("2"))])).unwrap();
    assert_eq!(state.get_fixture("users"), Some(&JsonValue::Array(vec![obj(vec![("id", n("1"))]), obj(vec![("id", n("2"))])])));

    state.update_fixture_array_item("users", 0, obj(vec![("id", n("9"))])).unwrap();
    let removed = state.remove_from_fixture_array("users", 1).unwrap();
    assert_eq!(removed, obj(vec![("id", n("2"))]));
    assert_eq!(state.get_fixture("users"), Some(&JsonValue::Array(vec![obj(vec![("id", n("9"))])])));

    let err = state.remove_from_fixture_array("users", 5).unwrap_err();
    assert_eq!(err.message, "Index 5 out of bounds for fixture array 'users'");
    let err = state.update_fixture_array_item("missing", 0, JsonValue::Null).unwrap_err();
    assert_eq!(err.message, "Fixture 'missing' not found");
    state.set_fixture("scalar".to_string(), n("1"));
    let err = state.add_to_fixture_array("scalar", JsonValue::Null).unwrap_err();
    assert_eq!(err.message, "Fixture 'scalar' is not an array");
    assert_eq!(err.suggestion.as_deref(), Some("Use add_to_fixture_array only with array fixtures"));
}

#[test]
fn fixture_array_operations_by_field() {
    let mut state = ServiceState::new(None, None);
    state.set_fixture(
        "users".to_string(),
        JsonValue::Array(vec![
            obj(vec![("id", n("1")), ("name", s("a"))]),
            obj(vec![("id", n("2")), ("name", s("b"))]),
            s("not an object"),
        ]),
    );
    assert!(state.update_fixture_array_item_by_field("users", "id", &n("2"), obj(vec![("id", n("2")), ("name", s("B"))])).unwrap());
    assert!(!state.update_fixture_array_item_by_field("users", "id", &n("7"), JsonValue::Null).unwrap());
    let removed = state.remove_fixture_array_item_by_field("users", "name", &s("a")).unwrap();
    assert_eq!(removed, Some(obj(vec![("id", n("1")), ("name", s("a"))])));
    assert_eq!(
        state.get_fixture("users"),
        Some(&JsonValue::Array(vec![obj(vec![("id", n("2")), ("name", s("B"))]), s("not an object")]))
    );
    assert_eq!(state.remove_fixture_array_item_by_field("users", "id", &s("2")).unwrap(), None);
}

#[test]
fn fixture_reset_restores_initial_values() {
    let mut initial = StrMap::new();
    initial.insert("count".to_string(), n("1"));
    let mut state = ServiceState::new(Some(initial), None);
    state.set_fixture("count".to_string(), n("2"));
    state.set_fixture("extra".to_string(), JsonValue::Bool(true));
    assert_eq!(state.fixture_count(), 2);
    state.reset_fixtures();
    assert_eq!(state.get_fixture("count"), Some(&n("1")));
    assert!(!state.has_fixture("extra"));
    assert_eq!(state.fixture_count(), 1);
}

#[test]
fn runtime_data_management() {
    let mut state = ServiceState::new(None, None);
    state.set_runtime_data("a".to_string(), n("1"));
    state.set_runtime_data("b".to_string(), n("2"));
    assert_eq!(state.runtime_data_count(), 2);
    assert_eq!(state.remove_runtime_data("a"), Some(n("1")));
    assert!(!state.has_runtime_data("a"));
    state.clear_runtime_data();
    assert_eq!(state.runtime_data_count(), 0);
}

#[test]
fn response_index_rotation() {
    let mut state = ServiceState::new(None, None);
    assert_eq!(state.next_response_index(1, 2, ScenarioStrategy::Sequential), 0);
    assert_eq!(state.next_response_index(1, 2, ScenarioStrategy::Sequential), 1);
    assert_eq!(state.next_response_index(1, 2, ScenarioStrategy::Sequential), 0);
    assert_eq!(state.next_response_index(2, 2, ScenarioStrategy::Sequential), 0);
    assert!(state.next_response_index(1, 3, ScenarioStrategy::Random) < 3);
}
