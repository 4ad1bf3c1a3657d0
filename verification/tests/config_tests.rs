use apicentric::config::{ServerConfig, ServiceDefinition, SimulatorConfig};
use apicentric::loading::LoadResult;
use apicentric::ports::PortRange;
use apicentric::validation::{summarize, ConfigValidator, LoadError, LoadErrorType};

fn bare_service(name: &str, base_path: &str) -> ServiceDefinition {
    ServiceDefinition {
        name: name.to_string(),
        version: None,
        description: None,
        server: ServerConfig { port: None, base_path: base_path.to_string(), proxy_base_url: None, cors: None, record_unknown: false },
        models: None,
        fixtures: None,
        bucket: None,
        endpoints: vec![],
        graphql: None,
        behavior: None,
    }
}

fn config(enabled: bool, start: u16, end: u16) -> SimulatorConfig {
    SimulatorConfig {
        enabled,
        services_dir: "services".to_string(),
        port_range: PortRange { start, end },
        db_path: "pulse.db".to_string(),
        global_behavior: None,
    }
}

fn load_error(path: &str, error_type: LoadErrorType, message: &str) -> LoadError {
    LoadError { file_path: path.to_string(), error_type, message: message.to_string() }
}

#[test]
fn test_simulator_config_validation() {
    let config = config(true, 8000, 8999);
    assert!(config.validate().is_ok());
}

#[test]
fn test_invalid_port_range() {
    let config = config(true, 9000, 8000);
    let result = config.validate();
    assert!(result.is_err());
    let errors = result.unwrap_err();
    assert!(errors.iter().any(|e| e.field == "port_range"));
}

#[test]
fn test_validation_summary() {
    let summary = summarize(2, vec![load_error("invalid.yaml", LoadErrorType::Validation, "missing fields")]);
    assert_eq!(summary.valid_count, 1);
    assert_eq!(summary.invalid_count, 1);
    assert_eq!(summary.total_files, 2);
    assert!(!summary.is_all_valid());
    assert_eq!(summary.errors.len(), 1);
}

#[test]
fn test_load_result_utilities() {
    let services = vec![bare_service("service1", "/api/service1"), bare_service("service2", "/api/service2")];
    let errors = vec![
        load_error("error1.yaml", LoadErrorType::Validation, "Validation error"),
        load_error("error2.yaml", LoadErrorType::Parsing, "Parsing error"),
    ];
    let result = LoadResult { services, errors, files_scanned: 4, directories_scanned: 2 };

    assert!(result.is_successful());
    assert_eq!(result.service_names(), vec!["service1", "service2"]);
    assert!(result.get_service_by_name("service1").is_some());
    assert!(result.get_service_by_name("nonexistent").is_none());

    let validation_errors = result.errors_by_type(LoadErrorType::Validation);
    assert_eq!(validation_errors.len(), 1);
    assert_eq!(validation_errors[0].message, "Validation error");
}

#[test]
fn test_environment_variable_override() {
    let config = config(false, 8000, 8999);
    assert!(!SimulatorConfig::check_environment_override(config.enabled, None));
    assert!(SimulatorConfig::check_environment_override(config.enabled, Some("true")));
    for true_value in ["true", "TRUE", "1", "yes", "YES", "on", "ON"] {
        assert!(SimulatorConfig::check_environment_override(config.enabled, Some(true_value)), "Failed for value: {}", true_value);
    }
    for false_value in ["false", "FALSE", "0", "no", "NO", "off", "OFF"] {
        assert!(!SimulatorConfig::check_environment_override(config.enabled, Some(false_value)), "Failed for value: {}", false_value);
    }
}

#[test]
fn test_effective_enabled_state() {
    let config = config(false, 8000, 8999);
    let (enabled, env_override) = config.effective_enabled_state(None);
    assert!(!enabled);
    assert!(!env_override);
    let (enabled, env_override) = config.effective_enabled_state(Some("true"));
    assert!(enabled);
    assert!(env_override);
}

#[test]
fn test_default_config() {
    let config = SimulatorConfig::default_config();
    assert!(!config.effective_enabled_state(None).0);
    assert!(config.effective_enabled_state(Some("true")).0);
    assert_eq!(config.services_dir, "services");
    assert_eq!(config.port_range.start, 8000);
    assert_eq!(config.port_range.end, 8999);
    assert_eq!(config.db_path, "pulse.db");
}
