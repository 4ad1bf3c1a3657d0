use apicentric::text::char_is_whitespace;
use apicentric::config::{
    BehaviorConfig, EndpointDefinition, EndpointKind, LatencyConfig, RequestBodyDefinition, ResponseDefinition,
    ServerConfig, ServiceDefinition, SimulatorConfig,
};
use apicentric::json::JsonValue;
use apicentric::ports::PortRange;
use apicentric::strmap::StrMap;
use apicentric::validation::{
    service_file_name, sort_loaded_services, ConfigError,
    summarize, validate_consistency, validate_non_empty_string, validate_schema_references, validate_service_schema,
    validate_unique_name, ConfigFileLoader, ConfigValidator, LoadError, LoadErrorType,
};

fn ok_response() -> ResponseDefinition {
    ResponseDefinition {
        condition: None,
        content_type: "application/json".to_string(),
        body: r#"{"message": "test"}"#.to_string(),
        schema: None,
        script: None,
        headers: None,
        side_effects: None,
    }
}

fn endpoint(method: &str, path: &str) -> EndpointDefinition {
    EndpointDefinition {
        kind: EndpointKind::Http,
        method: method.to_string(),
        path: path.to_string(),
        header_match: None,
        description: None,
        parameters: None,
        request_body: None,
        responses: vec![(200, ok_response())],
        scenarios: None,
        stream: None,
    }
}

fn service(name: &str, base_path: &str, port: Option<u16>, endpoints: Vec<EndpointDefinition>) -> ServiceDefinition {
    ServiceDefinition {
        name: name.to_string(),
        version: Some("1.0.0".to_string()),
        description: Some("Test service".to_string()),
        server: ServerConfig { port, base_path: base_path.to_string(), proxy_base_url: None, cors: None, record_unknown: false },
        models: None,
        fixtures: None,
        bucket: None,
        endpoints,
        graphql: None,
        behavior: None,
    }
}

#[test]
fn test_service_definition_validation() {
    let service = service("test-service", "/api/v1", Some(8001), vec![endpoint("GET", "/test")]);
    assert!(service.validate().is_ok());
}

#[test]
fn test_invalid_endpoint_method() {
    let service = service("test-service", "/api", None, vec![endpoint("INVALID", "/test")]);
    let result = service.validate();
    assert!(result.is_err());
    let errors = result.unwrap_err();
    assert!(errors.iter().any(|e| e.field.contains("method")));
}

#[test]
fn test_schema_reference_validation() {
    let mut ep = endpoint("POST", "/test");
    ep.request_body = Some(RequestBodyDefinition {
        required: true,
        schema: Some("NonExistentModel".to_string()),
        content_type: Some("application/json".to_string()),
    });
    let service = service("test-service", "/api", None, vec![ep]);
    let result = service.validate();
    assert!(result.is_err());
    let errors = result.unwrap_err();
    assert!(errors.iter().any(|e| e.field.contains("request_body.schema")));
    assert_eq!(errors[0].message, "Schema reference 'NonExistentModel' used but no models are defined");
    let direct = validate_schema_references(&service).unwrap_err();
    assert_eq!(direct.len(), 1);
    assert_eq!(direct[0].field, "endpoints[0].request_body.schema");
}

fn s(v: &str) -> JsonValue {
    JsonValue::Str(v.to_string())
}

fn n(v: &str) -> JsonValue {
    JsonValue::Number(v.to_string())
}

fn obj(fields: Vec<(&str, JsonValue)>) -> JsonValue {
    JsonValue::Object(fields.into_iter().map(|(k, v)| (k.to_string(), v)).collect())
}

fn typed(t: &str) -> JsonValue {
    obj(vec![("type", s(t))])
}

#[test]
fn test_model_validation() {
    let user = obj(vec![
        ("properties", obj(vec![("id", typed("integer")), ("name", typed("string"))])),
        ("required", JsonValue::Array(vec![s("id"), s("name")])),
        ("type", s("object")),
    ]);
    let invalid = obj(vec![("properties", obj(vec![("field", typed("string"))]))]);
    let mut service = service("test-service", "/api", None, vec![endpoint("GET", "/test")]);
    service.models = Some(vec![("InvalidModel".to_string(), invalid), ("User".to_string(), user)]);
    let result = service.validate();
    assert!(result.is_err());
    let errors = result.unwrap_err();
    assert!(errors.iter().any(|e| e.field.contains("InvalidModel.type")));
}

#[test]
fn test_fixture_validation_against_models() {
    let user = obj(vec![
        ("properties", obj(vec![("email", typed("string")), ("id", typed("integer")), ("name", typed("string"))])),
        ("required", JsonValue::Array(vec![s("id"), s("name")])),
        ("type", s("object")),
    ]);
    let fixture = JsonValue::Array(vec![
        obj(vec![("email", s("alice@example.com")), ("id", n("1")), ("name", s("Alice"))]),
        obj(vec![("id", s("invalid")), ("name", s("Bob"))]),
    ]);
    let mut service = service("test-service", "/api", None, vec![endpoint("GET", "/test")]);
    service.models = Some(vec![("User".to_string(), user)]);
    service.fixtures = Some(vec![("User".to_string(), fixture)]);
    let result = service.validate();
    assert!(result.is_err());
    let errors = result.unwrap_err();
    assert!(errors.iter().any(|e| e.field.contains("fixtures.User[1].id")));
}

#[test]
fn model_errors_name_each_problem() {
    let svc = service("svc", "/", None, vec![endpoint("GET", "/a")]);
    let models = vec![
        ("Blank".to_string(), obj(vec![("type", s("object"))])),
        ("Scalar".to_string(), s("not a schema")),
        ("NoType".to_string(), obj(vec![])),
        ("Ok".to_string(), obj(vec![("properties", obj(vec![])), ("type", s("object"))])),
    ];
    let errors = svc.validate_models(&models).unwrap_err();
    assert_eq!(errors.len(), 3);
    assert_eq!(errors[0].field, "models.Blank.properties");
    assert_eq!(errors[0].message, "Object type models should have a 'properties' field");
    assert_eq!(errors[1].field, "models.Scalar");
    assert_eq!(errors[1].message, "Model schema must be a JSON object");
    assert_eq!(errors[2].field, "models.NoType.type");
    assert!(svc.validate_models(&vec![("Ok".to_string(), obj(vec![("type", s("string"))]))]).is_ok());
    let blank = svc.validate_models(&vec![(" ".to_string(), obj(vec![("type", s("string"))]))]).unwrap_err();
    assert_eq!(blank[0].field, "models. ");
}

#[test]
fn fixture_item_checks_required_and_types() {
    let svc = service("svc", "/", None, vec![endpoint("GET", "/a")]);
    let schema = obj(vec![
        ("properties", obj(vec![("age", typed("integer")), ("name", typed("string"))])),
        ("required", JsonValue::Array(vec![s("name"), n("3")])),
    ]);
    let item = obj(vec![("age", n("4.5")), ("extra", JsonValue::Bool(true))]);
    let errors = svc.validate_fixture_item_basic(&item, &schema, "fixtures.P").unwrap_err();
    assert_eq!(errors.len(), 1);
    assert_eq!(errors[0].field, "fixtures.P.name");
    assert_eq!(errors[0].message, "Required field 'name' is missing");
    assert_eq!(errors[0].suggestion.as_deref(), Some("Add the required field 'name' to the fixture item"));
    let wrong = obj(vec![("age", s("x")), ("name", s("n"))]);
    let errors = svc.validate_fixture_item_basic(&wrong, &schema, "p").unwrap_err();
    assert_eq!(errors[0].field, "p.age");
    assert_eq!(errors[0].message, "Expected type 'integer' but found 'string'");
    let not_object = svc.validate_fixture_item_basic(&s("x"), &schema, "p").unwrap_err();
    assert_eq!(not_object[0].message, "Expected object type for fixture item");
    assert!(svc.validate_fixture_item_basic(&s("x"), &typed("string"), "p").is_ok());
    let fixtures = vec![("Other".to_string(), s("x")), ("P".to_string(), wrong)];
    let models = vec![("P".to_string(), schema)];
    let errors = svc.validate_fixtures_against_models(&fixtures, &models).unwrap_err();
    assert_eq!(errors[0].field, "fixtures.P.age");
}

#[test]
fn test_yaml_file_detection() {
    let loader = ConfigFileLoader::new("test".to_string());
    assert_eq!(loader.root, "test");
    assert!(ConfigFileLoader::is_yaml("service.yaml"));
    assert!(ConfigFileLoader::is_yaml("service.yml"));
    assert!(ConfigFileLoader::is_yaml("SERVICE.YAML"));
    assert!(ConfigFileLoader::is_yaml("service.YML"));
    assert!(!ConfigFileLoader::is_yaml("service.json"));
    assert!(!ConfigFileLoader::is_yaml("service.txt"));
    assert!(!ConfigFileLoader::is_yaml("service"));
    assert!(!ConfigFileLoader::is_yaml(".yaml"));
    assert!(ConfigFileLoader::is_yaml("dir/a.b.yml"));
}

#[test]
fn duplicate_name_validator_fails() {
    let mut ep = endpoint("GET", "/health");
    ep.responses = Vec::new();
    let mut svc = service("svc", "/api", None, vec![ep]);
    svc.version = None;
    svc.description = None;
    let mut names: StrMap<()> = StrMap::new();
    validate_unique_name(&svc, &mut names).unwrap();
    let err = validate_unique_name(&svc, &mut names).unwrap_err();
    assert!(err.message.contains("Duplicate"));
}

#[test]
fn summary_calculates_success_rate() {
    let summary = summarize(
        4,
        vec![LoadError { file_path: "a.yaml".to_string(), error_type: LoadErrorType::Validation, message: "err".into() }],
    );
    assert_eq!(summary.valid_count, 3);
    assert_eq!(summary.invalid_count, 1);
    let rate = summary.valid_count as f64 / summary.total_files as f64 * 100.0;
    assert!((rate - 75.0).abs() < f64::EPSILON);
    assert!(!summary.is_all_valid());
    assert!(summarize(2, Vec::new()).is_all_valid());
    assert!(!summarize(0, Vec::new()).is_all_valid());
}

#[test]
fn consistency_checks() {
    let dup = service("svc", "/api", None, vec![endpoint("get", "/a"), endpoint("GET", "/a")]);
    let err = validate_consistency(&dup).unwrap_err();
    assert_eq!(err.message, "Duplicate endpoint found: GET /a");
    assert_eq!(err.suggestion.as_deref(), Some("Each endpoint must have a unique method-path combination"));

    let mut ep = endpoint("POST", "/b");
    ep.request_body = Some(RequestBodyDefinition { required: true, schema: Some("User".into()), content_type: None });
    let mut with_models = service("svc", "/api", None, vec![ep]);
    with_models.models = Some(vec![("Order".to_string(), JsonValue::Object(vec![]))]);
    let err = validate_consistency(&with_models).unwrap_err();
    assert_eq!(err.message, "Referenced model 'User' not found in service 'svc'");
    with_models.models = Some(vec![("User".to_string(), JsonValue::Object(vec![]))]);
    assert!(validate_consistency(&with_models).is_ok());
    with_models.models = None;
    assert!(validate_consistency(&with_models).is_ok());
}

#[test]
fn server_and_response_errors() {
    let bad = service("", "api", Some(80), Vec::new());
    let errors = bad.validate().unwrap_err();
    let fields: Vec<&str> = errors.iter().map(|e| e.field.as_str()).collect();
    assert!(fields.contains(&"name"));
    assert!(fields.contains(&"endpoints"));
    let mut resp = ok_response();
    resp.content_type = " ".into();
    let errs = resp.validate_with_status_code(200).unwrap_err();
    assert_eq!(errs[0].field, "content_type");
    assert_eq!(errs[0].message, "content_type cannot be empty");
    assert_eq!(validate_non_empty_string("x", "f").is_ok(), true);
    let schema = validate_service_schema(&bad).unwrap_err();
    assert!(schema.message.starts_with("Service validation failed for '':"));
}

#[test]
fn behavior_and_simulator_configuration() {
    let b = BehaviorConfig { latency: Some(LatencyConfig { min_ms: 10, max_ms: 5 }), rate_limiting: None };
    let errs = b.validate().unwrap_err();
    assert_eq!(errs[0].field, "behavior.latency");
    let mut cfg = SimulatorConfig::default_config();
    assert!(!cfg.enabled);
    assert_eq!(cfg.services_dir, "services");
    assert!(cfg.validate().is_ok());
    cfg.port_range = PortRange { start: 9000, end: 8000 };
    let errs = cfg.validate().unwrap_err();
    assert!(errs.iter().any(|e| e.field == "port_range"));
    assert!(SimulatorConfig::check_environment_override(false, Some("YES")));
    assert!(!SimulatorConfig::check_environment_override(true, Some("no")));
    assert!(SimulatorConfig::check_environment_override(true, None));
    assert_eq!(cfg.effective_enabled_state(Some("On")), (true, true));
}

#[test]
fn loaded_files_are_sorted_into_services_and_failures() {
    let good = service("users", "/api/users", None, vec![endpoint("GET", "/a")]);
    let again = service("users", "/api/other", None, vec![endpoint("GET", "/b")]);
    let invalid = service("orders", "/api/orders", None, vec![endpoint("INVALID", "/c")]);
    let invalid_again = service("orders", "/api/orders2", None, vec![endpoint("GET", "/d")]);
    let broken: Result<ServiceDefinition, ConfigError> =
        Err(ConfigError { message: "Invalid YAML".to_string(), suggestion: None });
    let (services, summary) = sort_loaded_services(vec![
        ("a.yaml".to_string(), Ok(good)),
        ("b.yaml".to_string(), Ok(again)),
        ("c.yaml".to_string(), broken),
        ("d.yaml".to_string(), Ok(invalid)),
        ("e.yaml".to_string(), Ok(invalid_again)),
    ]);
    assert_eq!(services.len(), 1);
    assert_eq!(services[0].name, "users");
    assert_eq!(summary.total_files, 5);
    assert_eq!(summary.invalid_count, 4);
    assert_eq!(summary.valid_count, 1);
    assert_eq!(summary.errors[0].file_path, "b.yaml");
    assert_eq!(summary.errors[0].error_type, LoadErrorType::DuplicateName);
    assert_eq!(summary.errors[0].message, "Duplicate service name 'users'");
    assert_eq!(summary.errors[1].error_type, LoadErrorType::Parsing);
    assert_eq!(summary.errors[1].message, "Invalid YAML");
    assert_eq!(summary.errors[2].error_type, LoadErrorType::Validation);
    assert!(summary.errors[2].message.starts_with("Service validation failed for 'orders':"));
    assert_eq!(summary.errors[3].error_type, LoadErrorType::DuplicateName);
}

#[test]
fn service_file_names_keep_the_last_component() {
    assert_eq!(service_file_name("../../etc/passwd").unwrap(), "passwd");
    assert_eq!(service_file_name("shop.yaml").unwrap(), "shop.yaml");
    let err = service_file_name("..").unwrap_err();
    assert_eq!(err.message, "Invalid path: no filename");
    assert_eq!(err.suggestion.as_deref(), Some("Provide a valid filename"));
}

#[test]
fn white_space_is_the_unicode_white_space_list() {
    for c in ['\t', '\n', '\u{0B}', '\u{0C}', '\r', ' ', '\u{85}', '\u{A0}', '\u{1680}', '\u{2000}', '\u{200A}',
        '\u{2028}', '\u{2029}', '\u{202F}', '\u{205F}', '\u{3000}'] {
        assert!(char_is_whitespace(c), "{:?}", c);
        assert_eq!(char_is_whitespace(c), c.is_whitespace());
    }
    for c in ['a', '\u{0}', '\u{1F}', '\u{200B}', '\u{FEFF}', '\u{180E}', '\u{2060}'] {
        assert!(!char_is_whitespace(c), "{:?}", c);
        assert_eq!(char_is_whitespace(c), c.is_whitespace());
    }
}
