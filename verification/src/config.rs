//! Service definitions and simulator configuration, as plain values.
//!
//! Maps that the configuration iterates over are kept as lists of pairs in
//! their declared order.

use vstd::prelude::*;
use crate::ports::PortRange;

verus! {

/// Type of endpoint supported by the simulator.
#[derive(Clone, Copy, Debug, PartialEq, Eq)]
pub enum EndpointKind {
    /// Standard HTTP request/response endpoint.
    Http,
    /// WebSocket endpoint.
    WebSocket,
    /// Server Sent Events endpoint.
    Sse,
}

impl Default for EndpointKind {
    fn default() -> (k: Self)
        ensures
            k == EndpointKind::Http,
    {
        EndpointKind::Http
    }
}

/// Configuration for a periodic message.
#[derive(Clone, Debug)]
pub struct PeriodicMessage {
    /// Interval in milliseconds between messages.
    pub interval_ms: u64,
    /// Message template rendered each interval.
    pub message: String,
}

/// Configuration for streaming style endpoints (WebSocket/SSE).
#[derive(Clone, Debug)]
pub struct StreamConfig {
    /// Messages sent immediately after connection establishment.
    pub initial: Vec<String>,
    /// Periodic message configuration.
    pub periodic: Option<PeriodicMessage>,
}

/// Parameter location (path, query, header).
#[derive(Clone, Copy, Debug, PartialEq, Eq)]
pub enum ParameterLocation {
    Path,
    Query,
    Header,
}

/// Parameter definition for endpoints.
#[derive(Clone, Debug)]
pub struct ParameterDefinition {
    pub name: String,
    pub location: ParameterLocation,
    pub param_type: String,
    pub required: bool,
    pub description: Option<String>,
}

/// Request body definition.
#[derive(Clone, Debug)]
pub struct RequestBodyDefinition {
    pub required: bool,
    /// Reference to a model name.
    pub schema: Option<String>,
    pub content_type: Option<String>,
}

/// Side effects that can be triggered by responses.
#[derive(Clone, Debug)]
pub struct SideEffect {
    pub action: String,
    pub target: String,
    /// Template string.
    pub value: String,
}

/// Response definition with templating support.
#[derive(Clone, Debug)]
pub struct ResponseDefinition {
    /// Template condition for conditional responses.
    pub condition: Option<String>,
    pub content_type: String,
    /// Template string.
    pub body: String,
    /// Reference to a model name.
    pub schema: Option<String>,
    /// Path of a script producing the response.
    pub script: Option<String>,
    pub headers: Option<Vec<(String, String)>>,
    pub side_effects: Option<Vec<SideEffect>>,
}

/// Strategy for auto-selecting scenarios.
#[derive(Clone, Copy, Debug, PartialEq, Eq)]
pub enum ScenarioStrategy {
    Sequential,
    Random,
}

/// Conditions evaluated against incoming requests.
#[derive(Clone, Debug)]
pub struct ScenarioConditions {
    pub query: Option<Vec<(String, String)>>,
    pub headers: Option<Vec<(String, String)>>,
    pub body: Option<Vec<(String, crate::json::JsonValue)>>,
}

/// Response associated with a scenario.
#[derive(Clone, Debug)]
pub struct ScenarioResponse {
    /// HTTP status code for the response.
    pub status: u16,
    pub definition: ResponseDefinition,
}

/// Scenario definition for conditional responses.
#[derive(Clone, Debug)]
pub struct ScenarioDefinition {
    /// Optional scenario name for manual selection.
    pub name: Option<String>,
    /// Conditions that must be satisfied for this scenario.
    pub conditions: Option<ScenarioConditions>,
    /// Response to return when this scenario matches.
    pub response: ScenarioResponse,
    /// Strategy for selecting this scenario when multiple are available.
    pub strategy: Option<ScenarioStrategy>,
}

/// Endpoint definition.
#[derive(Clone, Debug)]
pub struct EndpointDefinition {
    /// Type of endpoint (HTTP/WebSocket/SSE).
    pub kind: EndpointKind,
    pub method: String,
    pub path: String,
    /// Headers that must match for this endpoint to trigger.
    pub header_match: Option<Vec<(String, String)>>,
    pub description: Option<String>,
    pub parameters: Option<Vec<ParameterDefinition>>,
    pub request_body: Option<RequestBodyDefinition>,
    /// Responses by status code, in declaration order.
    pub responses: Vec<(u16, ResponseDefinition)>,
    /// Scenario-based responses with matching conditions.
    pub scenarios: Option<Vec<ScenarioDefinition>>,
    /// Streaming configuration for WebSocket/SSE endpoints.
    pub stream: Option<StreamConfig>,
}

/// CORS configuration.
#[derive(Clone, Debug)]
pub struct CorsConfig {
    pub enabled: bool,
    pub origins: Vec<String>,
    pub methods: Option<Vec<String>>,
    pub headers: Option<Vec<String>>,
}

/// Server configuration for a service.
#[derive(Clone, Debug)]
pub struct ServerConfig {
    pub port: Option<u16>,
    pub base_path: String,
    /// Base URL to proxy requests to when no local endpoint matches.
    pub proxy_base_url: Option<String>,
    pub cors: Option<CorsConfig>,
    pub record_unknown: bool,
}

/// GraphQL configuration for a service.
#[derive(Clone, Debug)]
pub struct GraphQLConfig {
    /// Path to the GraphQL schema file (.graphql).
    pub schema_path: String,
    /// Operation names and their template files.
    pub mocks: Vec<(String, String)>,
}

/// Latency simulation configuration.
#[derive(Clone, Copy, Debug)]
pub struct LatencyConfig {
    pub min_ms: u64,
    pub max_ms: u64,
}

/// Rate limiting configuration.
#[derive(Clone, Copy, Debug)]
pub struct RateLimitingConfig {
    pub enabled: bool,
    pub requests_per_minute: u32,
}

/// Behavior configuration for simulation (latency and rate limiting).
#[derive(Clone, Copy, Debug)]
pub struct BehaviorConfig {
    pub latency: Option<LatencyConfig>,
    pub rate_limiting: Option<RateLimitingConfig>,
}

/// Service definition.
#[derive(Clone, Debug)]
pub struct ServiceDefinition {
    pub name: String,
    pub version: Option<String>,
    pub description: Option<String>,
    pub server: ServerConfig,
    /// The models (JSON Schema definitions) the service declares, by name.
    pub models: Option<Vec<(String, crate::json::JsonValue)>>,
    /// The fixtures the service starts with, by name.
    pub fixtures: Option<Vec<(String, crate::json::JsonValue)>>,
    /// The initial contents of the shared data bucket, by name.
    pub bucket: Option<Vec<(String, crate::json::JsonValue)>>,
    pub endpoints: Vec<EndpointDefinition>,
    pub graphql: Option<GraphQLConfig>,
    pub behavior: Option<BehaviorConfig>,
}

/// Main simulator configuration.
#[derive(Clone, Debug)]
pub struct SimulatorConfig {
    /// Whether the simulator is enabled.
    pub enabled: bool,
    /// Directory containing service definition YAML files.
    pub services_dir: String,
    /// Port range for automatic port assignment.
    pub port_range: PortRange,
    /// Path to the database for persistent storage.
    pub db_path: String,
    /// Global behavior settings.
    pub global_behavior: Option<BehaviorConfig>,
}

/// Configuration for a Bluetooth Low Energy (BLE) peripheral.
#[derive(Clone, Debug)]
pub struct BluetoothConfig {
    /// The local name of the device advertised.
    pub local_name: String,
    /// GATT services.
    pub services: Vec<GattService>,
    /// Advertising interval in milliseconds.
    pub advertising_interval: Option<u64>,
}

/// A GATT service definition.
#[derive(Clone, Debug)]
pub struct GattService {
    /// Service UUID (16-bit or 128-bit).
    pub uuid: String,
    /// Characteristics within this service.
    pub characteristics: Vec<GattCharacteristic>,
    /// Whether this is a primary service.
    pub primary: bool,
}

/// A GATT characteristic definition.
#[derive(Clone, Debug)]
pub struct GattCharacteristic {
    /// Characteristic UUID.
    pub uuid: String,
    /// User-friendly name for logging/UI.
    pub name: Option<String>,
    /// Properties (read, write, notify, indicate).
    pub properties: Vec<CharacteristicProperty>,
    /// Initial value (hex string or text).
    pub value: Option<String>,
    /// Descriptors.
    pub descriptors: Vec<GattDescriptor>,
}

/// GATT characteristic properties.
#[derive(Clone, Copy, Debug, PartialEq, Eq)]
pub enum CharacteristicProperty {
    Read,
    Write,
    WriteWithoutResponse,
    Notify,
    Indicate,
    Broadcast,
}

/// A GATT descriptor.
#[derive(Clone, Debug)]
pub struct GattDescriptor {
    pub uuid: String,
    pub value: String,
}

/// The default of a service's `primary` flag.
pub fn default_true() -> (b: bool)
    ensures
        b,
{
    true
}

/// The default path of the simulator database.
pub fn default_db_path() -> (p: String)
    ensures
        p@ == "pulse.db"@,
{
    String::from_str("pulse.db")
}

impl SimulatorConfig {
    /// The configuration used when none is given: disabled, services in
    /// `services`, ports 8000 to 8999.
    pub fn default_config() -> (c: Self)
        ensures
            !c.enabled,
            c.services_dir@ == "services"@,
            c.port_range.start == 8000 && c.port_range.end == 8999,
            c.db_path@ == "pulse.db"@,
            c.global_behavior is None,
    {
        SimulatorConfig {
            enabled: false,
            services_dir: String::from_str("services"),
            port_range: PortRange { start: 8000, end: 8999 },
            db_path: default_db_path(),
            global_behavior: None,
        }
    }

    /// Whether the simulator is enabled, given the value of the
    /// `PULSE_API_SIMULATOR` environment variable (if it is set): a set
    /// variable decides, and only `true`, `1`, `yes` and `on` (in any case)
    /// enable.
    pub fn check_environment_override(config_enabled: bool, env_value: Option<&str>) -> (b: bool)
        ensures
            match env_value {
                Some(v) => b == (crate::text::unicode_lower(v@) == "true"@ || crate::text::unicode_lower(v@) == "1"@
                    || crate::text::unicode_lower(v@) == "yes"@ || crate::text::unicode_lower(v@) == "on"@),
                None => b == config_enabled,
            },
    {
        match env_value {
            Some(value) => {
                let normalized = crate::text::to_lowercase(value);
                let n = normalized.as_str();
                crate::text::str_eq(n, "true") || crate::text::str_eq(n, "1") || crate::text::str_eq(n, "yes")
                    || crate::text::str_eq(n, "on")
            },
            None => config_enabled,
        }
    }

    /// The effective enabled state and whether the environment variable was
    /// set.
    pub fn effective_enabled_state(&self, env_value: Option<&str>) -> (r: (bool, bool))
        ensures
            r.1 == env_value is Some,
            r.0 == match env_value {
                Some(v) => crate::text::unicode_lower(v@) == "true"@ || crate::text::unicode_lower(v@) == "1"@
                    || crate::text::unicode_lower(v@) == "yes"@ || crate::text::unicode_lower(v@) == "on"@,
                None => self.enabled,
            },
    {
        (Self::check_environment_override(self.enabled, env_value), env_value.is_some())
    }
}

} // verus!
