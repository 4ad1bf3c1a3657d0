//! The catalogue of ready-made service definitions that can be installed,
//! and the pure parts of installing one.

use vstd::prelude::*;
use crate::json::{get_member, json_data, member, parse_yaml, yaml_parsed, JsonData, JsonValue};
use crate::text::{concat2, replace_all, replaced, str_eq, to_lowercase, unicode_lower};

verus! {

/// An entry of the catalogue.
#[derive(Clone, Debug)]
pub struct MarketplaceItem {
    pub id: String,
    pub name: String,
    pub description: String,
    /// `SaaS`, `Device`, `Template` or `IoT Twin`.
    pub category: String,
    pub logo_url: Option<String>,
    pub definition_url: String,
}

/// An entry as seen in specifications: id, name, description, category and
/// definition URL (no entry has a logo).
pub type ItemView = (Seq<char>, Seq<char>, Seq<char>, Seq<char>, Seq<char>);

/// The view of an entry without a logo.
pub open spec fn item_view(i: MarketplaceItem) -> ItemView {
    (i.id@, i.name@, i.description@, i.category@, i.definition_url@)
}

/// The catalogue, in order.
pub open spec fn catalog() -> Seq<ItemView> {
    seq![
        ("stripe"@, "Stripe API"@, "Mock Stripe API with payments, customers, and subscriptions."@, "SaaS"@, "https://raw.githubusercontent.com/stripe/openapi/master/openapi/spec3.yaml"@),
        ("slack"@, "Slack API"@, "Mock Slack Web API for messaging and channels."@, "SaaS"@, "https://raw.githubusercontent.com/slackapi/slack-api-specs/master/web-api/slack_web_api.yaml"@),
        ("github"@, "GitHub API"@, "Mock GitHub REST API for repositories and issues."@, "SaaS"@, "https://raw.githubusercontent.com/github/rest-api-description/main/descriptions/api.github.com/api.github.com.yaml"@),
        ("openai"@, "OpenAI API"@, "Mock OpenAI API for chat completions and embeddings."@, "SaaS"@, "https://raw.githubusercontent.com/openai/openai-openapi/master/openapi.yaml"@),
        ("kubernetes"@, "Kubernetes API"@, "Mock Kubernetes API (Core) for pods, services, and deployments."@, "SaaS"@, "https://raw.githubusercontent.com/kubernetes/kubernetes/master/api/openapi-spec/swagger.json"@),
        ("sendgrid"@, "SendGrid API"@, "Mock SendGrid v3 API for email delivery and marketing."@, "SaaS"@, "https://raw.githubusercontent.com/sendgrid/sendgrid-oai/master/oai_stoplight.json"@),
        ("digitalocean"@, "DigitalOcean API"@, "Mock DigitalOcean Public API for droplets and volumes."@, "SaaS"@, "https://raw.githubusercontent.com/digitalocean/openapi/main/specification/DigitalOcean-public.yaml"@),
        ("petstore"@, "PetStore"@, "Standard Swagger PetStore example API."@, "Template"@, "https://petstore.swagger.io/v2/swagger.json"@),
        ("philips-hue"@, "Philips Hue"@, "Mock Philips Hue Bridge API for smart lights."@, "Device"@, "https://raw.githubusercontent.com/dummy/hue-spec/main/hue.yaml"@),
        ("sonos"@, "Sonos"@, "Mock Sonos Control API for smart speakers."@, "Device"@, "https://raw.githubusercontent.com/sonos/sonos-developer-portal/master/static/specs/openapi.yaml"@),
        ("acme-sensor"@, "Acme Smart Sensor"@, "IoT Sensor API for reading temperature, humidity, and device status."@, "Device"@, "https://raw.githubusercontent.com/pmaojo/apicentric/main/examples/acme-sensor.yaml"@),
        ("smart-thermostat"@, "Smart Thermostat"@, "Digital Twin of a smart thermostat (temperature, humidity). MQTT."@, "IoT Twin"@, "https://raw.githubusercontent.com/pmaojo/apicentric/main/examples/iot/smart-thermostat.yaml"@),
        ("industrial-pump"@, "Industrial Pump"@, "Digital Twin of an industrial pump (RPM, flow, temp). Modbus TCP."@, "IoT Twin"@, "https://raw.githubusercontent.com/pmaojo/apicentric/main/examples/iot/industrial-pump.yaml"@),
        ("solar-inverter"@, "Solar Inverter"@, "Digital Twin of a solar inverter (power, voltage). Modbus TCP."@, "IoT Twin"@, "https://raw.githubusercontent.com/pmaojo/apicentric/main/examples/iot/solar-inverter.yaml"@),
        ("weather-station"@, "Weather Station"@, "Digital Twin of a weather station (wind, temp, humidity). MQTT."@, "IoT Twin"@, "https://raw.githubusercontent.com/pmaojo/apicentric/main/examples/iot/weather-station.yaml"@),
        ("smart-meter"@, "Smart Meter"@, "Digital Twin of a smart energy meter. MQTT."@, "IoT Twin"@, "https://raw.githubusercontent.com/pmaojo/apicentric/main/examples/iot/smart-meter.yaml"@),
        ("victron-energy-system"@, "Victron Energy System"@, "Digital Twin of Victron GX device (Batt Voltage, SoC, PV Power). Modbus TCP."@, "IoT Twin"@, "https://raw.githubusercontent.com/pmaojo/apicentric/main/examples/iot/victron-energy-system.yaml"@),
        ("schneider-pm5300"@, "Schneider PM5300"@, "Digital Twin of Schneider Power Meter (Currents, Voltages). Modbus TCP."@, "IoT Twin"@, "https://raw.githubusercontent.com/pmaojo/apicentric/main/examples/iot/schneider-pm5300.yaml"@),
        ("zigbee-env-sensor"@, "Zigbee Env Sensor"@, "Digital Twin of Zigbee2MQTT Sensor (Temp, Hum, Battery). MQTT."@, "IoT Twin"@, "https://raw.githubusercontent.com/pmaojo/apicentric/main/examples/iot/zigbee-env-sensor.yaml"@),
        ("iot/sensors/temperature-industrial"@, "Industrial Temperature Sensor"@, "Industrial temperature monitoring with configurable thresholds and alerts."@, "Template"@, "https://raw.githubusercontent.com/pmaojo/apicentric/main/examples/iot/sensors/temperature-industrial.yaml"@),
        ("iot/sensors/humidity-industrial"@, "Industrial Humidity Sensor"@, "Precision humidity measurement for environmental monitoring and HVAC."@, "Template"@, "https://raw.githubusercontent.com/pmaojo/apicentric/main/examples/iot/sensors/humidity-industrial.yaml"@),
        ("iot/sensors/pressure-gauge"@, "Pressure Gauge"@, "High-precision pressure monitoring for pipelines and tanks."@, "Template"@, "https://raw.githubusercontent.com/pmaojo/apicentric/main/examples/iot/sensors/pressure-gauge.yaml"@),
        ("iot/sensors/vibration-monitor"@, "Vibration Monitor"@, "Predictive maintenance sensor detecting anomalies in rotating machinery."@, "Template"@, "https://raw.githubusercontent.com/pmaojo/apicentric/main/examples/iot/sensors/vibration-monitor.yaml"@),
        ("iot/sensors/flow-meter"@, "Flow Meter"@, "Liquid and gas flow measurement for process control."@, "Template"@, "https://raw.githubusercontent.com/pmaojo/apicentric/main/examples/iot/sensors/flow-meter.yaml"@),
        ("iot/controllers/plc-siemens"@, "PLC Controller"@, "Programmable Logic Controller simulation with Modbus/OPC-UA interfaces."@, "Template"@, "https://raw.githubusercontent.com/pmaojo/apicentric/main/examples/iot/controllers/plc-siemens.yaml"@),
        ("iot/smarthome/smart-bulb"@, "Smart Bulb"@, "Intelligent RGB lighting with dimming and scene control."@, "Template"@, "https://raw.githubusercontent.com/pmaojo/apicentric/main/examples/iot/smarthome/smart-bulb.yaml"@),
        ("iot/smarthome/smart-lock"@, "Smart Lock"@, "Connected lock with access logs and remote control."@, "Template"@, "https://raw.githubusercontent.com/pmaojo/apicentric/main/examples/iot/smarthome/smart-lock.yaml"@),
        ("iot/smarthome/thermostat-nest"@, "Smart Thermostat Pro"@, "Climate control with scheduling and energy reports."@, "Template"@, "https://raw.githubusercontent.com/pmaojo/apicentric/main/examples/iot/smarthome/thermostat-nest.yaml"@),
        ("iot/smarthome/motion-sensor"@, "Motion Sensor"@, "PIR-based occupancy detection for security and automation."@, "Template"@, "https://raw.githubusercontent.com/pmaojo/apicentric/main/examples/iot/smarthome/motion-sensor.yaml"@),
        ("iot/smarthome/ip-camera"@, "IP Camera"@, "Video streaming device with motion detection simulation."@, "Template"@, "https://raw.githubusercontent.com/pmaojo/apicentric/main/examples/iot/smarthome/ip-camera.yaml"@),
        ("iot/automotive/gps-tracker"@, "GPS Tracker"@, "Real-time vehicle location tracking with history."@, "Template"@, "https://raw.githubusercontent.com/pmaojo/apicentric/main/examples/iot/automotive/gps-tracker.yaml"@),
        ("iot/automotive/obd2-scanner"@, "OBD-II Scanner"@, "Vehicle diagnostics including engine codes, RPM, and fuel."@, "Template"@, "https://raw.githubusercontent.com/pmaojo/apicentric/main/examples/iot/automotive/obd2-scanner.yaml"@),
        ("iot/automotive/fuel-level"@, "Fuel Level Sensor"@, "Tank monitoring for fleet management."@, "Template"@, "https://raw.githubusercontent.com/pmaojo/apicentric/main/examples/iot/automotive/fuel-level.yaml"@),
        ("iot/energy/smart-meter-electric"@, "Electric Smart Meter"@, "Electric meter with real-time consumption and demand response."@, "Template"@, "https://raw.githubusercontent.com/pmaojo/apicentric/main/examples/iot/energy/smart-meter-electric.yaml"@),
        ("iot/energy/wind-turbine"@, "Wind Turbine"@, "Turbine telemetry including wind speed and power curve."@, "Template"@, "https://raw.githubusercontent.com/pmaojo/apicentric/main/examples/iot/energy/wind-turbine.yaml"@),
        ("iot/agriculture/soil-moisture"@, "Soil Moisture Sensor"@, "Agricultural sensor for irrigation optimization."@, "Template"@, "https://raw.githubusercontent.com/pmaojo/apicentric/main/examples/iot/agriculture/soil-moisture.yaml"@),
        ("iot/manufacturing/conveyor-system"@, "Conveyor System"@, "Production line conveyor with speed control and item counting."@, "Template"@, "https://raw.githubusercontent.com/pmaojo/apicentric/main/examples/iot/manufacturing/conveyor-system.yaml"@),
        ("iot/manufacturing/robot-arm-6dof"@, "6-DOF Robot Arm"@, "Six-axis robotic arm with joint positions and gripper status."@, "Template"@, "https://raw.githubusercontent.com/pmaojo/apicentric/main/examples/iot/manufacturing/robot-arm-6dof.yaml"@),
        ("iot/manufacturing/sorting-machine"@, "Sorting Machine"@, "Automated sorting with sensors and actuators."@, "Template"@, "https://raw.githubusercontent.com/pmaojo/apicentric/main/examples/iot/manufacturing/sorting-machine.yaml"@),
        ("iot/gateway/edge-gateway"@, "Edge Gateway"@, "Protocol translator aggregating sensors via MQTT and HTTP."@, "Template"@, "https://raw.githubusercontent.com/pmaojo/apicentric/main/examples/iot/gateway/edge-gateway.yaml"@)
    ]
}

/// The views of a list of entries.
pub open spec fn items_view(v: Seq<MarketplaceItem>) -> Seq<ItemView> {
    v.map_values(|i: MarketplaceItem| item_view(i))
}

/// No entry has a logo.
pub open spec fn no_logos(v: Seq<MarketplaceItem>) -> bool {
    forall|k: int| 0 <= k < v.len() ==> (#[trigger] v[k]).logo_url is None
}

fn item(id: &str, name: &str, description: &str, category: &str, url: &str) -> (r: MarketplaceItem)
    ensures
        item_view(r) == (id@, name@, description@, category@, url@),
        r.logo_url is None,
{
    MarketplaceItem {
        id: String::from_str(id),
        name: String::from_str(name),
        description: String::from_str(description),
        category: String::from_str(category),
        logo_url: None,
        definition_url: String::from_str(url),
    }
}

/// The catalogue of installable service definitions.
pub fn get_marketplace_items() -> (r: Vec<MarketplaceItem>)
    ensures
        items_view(r@) == catalog(),
        no_logos(r@),
{
    let mut v: Vec<MarketplaceItem> = Vec::new();
    v.push(item("stripe", "Stripe API", "Mock Stripe API with payments, customers, and subscriptions.", "SaaS", "https://raw.githubusercontent.com/stripe/openapi/master/openapi/spec3.yaml"));
    v.push(item("slack", "Slack API", "Mock Slack Web API for messaging and channels.", "SaaS", "https://raw.githubusercontent.com/slackapi/slack-api-specs/master/web-api/slack_web_api.yaml"));
    v.push(item("github", "GitHub API", "Mock GitHub REST API for repositories and issues.", "SaaS", "https://raw.githubusercontent.com/github/rest-api-description/main/descriptions/api.github.com/api.github.com.yaml"));
    v.push(item("openai", "OpenAI API", "Mock OpenAI API for chat completions and embeddings.", "SaaS", "https://raw.githubusercontent.com/openai/openai-openapi/master/openapi.yaml"));
    v.push(item("kubernetes", "Kubernetes API", "Mock Kubernetes API (Core) for pods, services, and deployments.", "SaaS", "https://raw.githubusercontent.com/kubernetes/kubernetes/master/api/openapi-spec/swagger.json"));
    v.push(item("sendgrid", "SendGrid API", "Mock SendGrid v3 API for email delivery and marketing.", "SaaS", "https://raw.githubusercontent.com/sendgrid/sendgrid-oai/master/oai_stoplight.json"));
    v.push(item("digitalocean", "DigitalOcean API", "Mock DigitalOcean Public API for droplets and volumes.", "SaaS", "https://raw.githubusercontent.com/digitalocean/openapi/main/specification/DigitalOcean-public.yaml"));
    v.push(item("petstore", "PetStore", "Standard Swagger PetStore example API.", "Template", "https://petstore.swagger.io/v2/swagger.json"));
    v.push(item("philips-hue", "Philips Hue", "Mock Philips Hue Bridge API for smart lights.", "Device", "https://raw.githubusercontent.com/dummy/hue-spec/main/hue.yaml"));
    v.push(item("sonos", "Sonos", "Mock Sonos Control API for smart speakers.", "Device", "https://raw.githubusercontent.com/sonos/sonos-developer-portal/master/static/specs/openapi.yaml"));
    v.push(item("acme-sensor", "Acme Smart Sensor", "IoT Sensor API for reading temperature, humidity, and device status.", "Device", "https://raw.githubusercontent.com/pmaojo/apicentric/main/examples/acme-sensor.yaml"));
    v.push(item("smart-thermostat", "Smart Thermostat", "Digital Twin of a smart thermostat (temperature, humidity). MQTT.", "IoT Twin", "https://raw.githubusercontent.com/pmaojo/apicentric/main/examples/iot/smart-thermostat.yaml"));
    v.push(item("industrial-pump", "Industrial Pump", "Digital Twin of an industrial pump (RPM, flow, temp). Modbus TCP.", "IoT Twin", "https://raw.githubusercontent.com/pmaojo/apicentric/main/examples/iot/industrial-pump.yaml"));
    v.push(item("solar-inverter", "Solar Inverter", "Digital Twin of a solar inverter (power, voltage). Modbus TCP.", "IoT Twin", "https://raw.githubusercontent.com/pmaojo/apicentric/main/examples/iot/solar-inverter.yaml"));
    v.push(item("weather-station", "Weather Station", "Digital Twin of a weather station (wind, temp, humidity). MQTT.", "IoT Twin", "https://raw.githubusercontent.com/pmaojo/apicentric/main/examples/iot/weather-station.yaml"));
    v.push(item("smart-meter", "Smart Meter", "Digital Twin of a smart energy meter. MQTT.", "IoT Twin", "https://raw.githubusercontent.com/pmaojo/apicentric/main/examples/iot/smart-meter.yaml"));
    v.push(item("victron-energy-system", "Victron Energy System", "Digital Twin of Victron GX device (Batt Voltage, SoC, PV Power). Modbus TCP.", "IoT Twin", "https://raw.githubusercontent.com/pmaojo/apicentric/main/examples/iot/victron-energy-system.yaml"));
    v.push(item("schneider-pm5300", "Schneider PM5300", "Digital Twin of Schneider Power Meter (Currents, Voltages). Modbus TCP.", "IoT Twin", "https://raw.githubusercontent.com/pmaojo/apicentric/main/examples/iot/schneider-pm5300.yaml"));
    v.push(item("zigbee-env-sensor", "Zigbee Env Sensor", "Digital Twin of Zigbee2MQTT Sensor (Temp, Hum, Battery). MQTT.", "IoT Twin", "https://raw.githubusercontent.com/pmaojo/apicentric/main/examples/iot/zigbee-env-sensor.yaml"));
    v.push(item("iot/sensors/temperature-industrial", "Industrial Temperature Sensor", "Industrial temperature monitoring with configurable thresholds and alerts.", "Template", "https://raw.githubusercontent.com/pmaojo/apicentric/main/examples/iot/sensors/temperature-industrial.yaml"));
    v.push(item("iot/sensors/humidity-industrial", "Industrial Humidity Sensor", "Precision humidity measurement for environmental monitoring and HVAC.", "Template", "https://raw.githubusercontent.com/pmaojo/apicentric/main/examples/iot/sensors/humidity-industrial.yaml"));
    v.push(item("iot/sensors/pressure-gauge", "Pressure Gauge", "High-precision pressure monitoring for pipelines and tanks.", "Template", "https://raw.githubusercontent.com/pmaojo/apicentric/main/examples/iot/sensors/pressure-gauge.yaml"));
    v.push(item("iot/sensors/vibration-monitor", "Vibration Monitor", "Predictive maintenance sensor detecting anomalies in rotating machinery.", "Template", "https://raw.githubusercontent.com/pmaojo/apicentric/main/examples/iot/sensors/vibration-monitor.yaml"));
    v.push(item("iot/sensors/flow-meter", "Flow Meter", "Liquid and gas flow measurement for process control.", "Template", "https://raw.githubusercontent.com/pmaojo/apicentric/main/examples/iot/sensors/flow-meter.yaml"));
    v.push(item("iot/controllers/plc-siemens", "PLC Controller", "Programmable Logic Controller simulation with Modbus/OPC-UA interfaces.", "Template", "https://raw.githubusercontent.com/pmaojo/apicentric/main/examples/iot/controllers/plc-siemens.yaml"));
    v.push(item("iot/smarthome/smart-bulb", "Smart Bulb", "Intelligent RGB lighting with dimming and scene control.", "Template", "https://raw.githubusercontent.com/pmaojo/apicentric/main/examples/iot/smarthome/smart-bulb.yaml"));
    v.push(item("iot/smarthome/smart-lock", "Smart Lock", "Connected lock with access logs and remote control.", "Template", "https://raw.githubusercontent.com/pmaojo/apicentric/main/examples/iot/smarthome/smart-lock.yaml"));
    v.push(item("iot/smarthome/thermostat-nest", "Smart Thermostat Pro", "Climate control with scheduling and energy reports.", "Template", "https://raw.githubusercontent.com/pmaojo/apicentric/main/examples/iot/smarthome/thermostat-nest.yaml"));
    v.push(item("iot/smarthome/motion-sensor", "Motion Sensor", "PIR-based occupancy detection for security and automation.", "Template", "https://raw.githubusercontent.com/pmaojo/apicentric/main/examples/iot/smarthome/motion-sensor.yaml"));
    v.push(item("iot/smarthome/ip-camera", "IP Camera", "Video streaming device with motion detection simulation.", "Template", "https://raw.githubusercontent.com/pmaojo/apicentric/main/examples/iot/smarthome/ip-camera.yaml"));
    v.push(item("iot/automotive/gps-tracker", "GPS Tracker", "Real-time vehicle location tracking with history.", "Template", "https://raw.githubusercontent.com/pmaojo/apicentric/main/examples/iot/automotive/gps-tracker.yaml"));
    v.push(item("iot/automotive/obd2-scanner", "OBD-II Scanner", "Vehicle diagnostics including engine codes, RPM, and fuel.", "Template", "https://raw.githubusercontent.com/pmaojo/apicentric/main/examples/iot/automotive/obd2-scanner.yaml"));
    v.push(item("iot/automotive/fuel-level", "Fuel Level Sensor", "Tank monitoring for fleet management.", "Template", "https://raw.githubusercontent.com/pmaojo/apicentric/main/examples/iot/automotive/fuel-level.yaml"));
    v.push(item("iot/energy/smart-meter-electric", "Electric Smart Meter", "Electric meter with real-time consumption and demand response.", "Template", "https://raw.githubusercontent.com/pmaojo/apicentric/main/examples/iot/energy/smart-meter-electric.yaml"));
    v.push(item("iot/energy/wind-turbine", "Wind Turbine", "Turbine telemetry including wind speed and power curve.", "Template", "https://raw.githubusercontent.com/pmaojo/apicentric/main/examples/iot/energy/wind-turbine.yaml"));
    v.push(item("iot/agriculture/soil-moisture", "Soil Moisture Sensor", "Agricultural sensor for irrigation optimization.", "Template", "https://raw.githubusercontent.com/pmaojo/apicentric/main/examples/iot/agriculture/soil-moisture.yaml"));
    v.push(item("iot/manufacturing/conveyor-system", "Conveyor System", "Production line conveyor with speed control and item counting.", "Template", "https://raw.githubusercontent.com/pmaojo/apicentric/main/examples/iot/manufacturing/conveyor-system.yaml"));
    v.push(item("iot/manufacturing/robot-arm-6dof", "6-DOF Robot Arm", "Six-axis robotic arm with joint positions and gripper status.", "Template", "https://raw.githubusercontent.com/pmaojo/apicentric/main/examples/iot/manufacturing/robot-arm-6dof.yaml"));
    v.push(item("iot/manufacturing/sorting-machine", "Sorting Machine", "Automated sorting with sensors and actuators.", "Template", "https://raw.githubusercontent.com/pmaojo/apicentric/main/examples/iot/manufacturing/sorting-machine.yaml"));
    v.push(item("iot/gateway/edge-gateway", "Edge Gateway", "Protocol translator aggregating sensors via MQTT and HTTP.", "Template", "https://raw.githubusercontent.com/pmaojo/apicentric/main/examples/iot/gateway/edge-gateway.yaml"));
    assert(items_view(v@) =~= catalog());
    v
}

/// The position of the first entry with the given id, if any.
pub open spec fn find_index(items: Seq<ItemView>, id: Seq<char>) -> Option<int>
    decreases items.len(),
{
    if items.len() == 0 {
        None
    } else {
        match find_index(items.drop_last(), id) {
            Some(k) => Some(k),
            None => if items.last().0 == id { Some(items.len() - 1) } else { None },
        }
    }
}

/// The message given when no entry has the requested id.
pub open spec fn not_found_message(id: Seq<char>) -> Seq<char> {
    "Template '"@ + id + "' not found"@
}

/// A template that cannot be installed: the message, the input field at
/// fault, if any, and advice, if any.
#[derive(Clone, Debug)]
pub struct TemplateError {
    pub message: String,
    pub field: Option<String>,
    pub suggestion: Option<String>,
}

/// A template error as plain values: message, field and suggestion.
pub open spec fn template_error_view(e: TemplateError) -> (Seq<char>, Option<Seq<char>>, Option<Seq<char>>) {
    (e.message@, match e.field {
        Some(f) => Some(f@),
        None => None,
    }, match e.suggestion {
        Some(s) => Some(s@),
        None => None,
    })
}

/// The error for an id that names no catalogue entry: it is the `template`
/// input that is wrong.
pub open spec fn unknown_template(id: Seq<char>) -> (Seq<char>, Option<Seq<char>>, Option<Seq<char>>) {
    (not_found_message(id), Some("template"@), Some("Check the list of available templates"@))
}

/// The catalogue entry with the given id, or the error saying it is unknown.
pub fn find_template(template_id: &str) -> (r: Result<MarketplaceItem, TemplateError>)
    ensures
        match find_index(catalog(), template_id@) {
            Some(k) => r matches Ok(item) && item_view(item) == catalog()[k],
            None => r matches Err(e) && template_error_view(e) == unknown_template(template_id@),
        },
{
    let items = get_marketplace_items();
    let ghost cat = catalog();
    let mut i: usize = 0;
    while i < items.len()
        invariant
            i <= items@.len(),
            items_view(items@) == cat,
            cat == catalog(),
            find_index(cat.take(i as int), template_id@) is None,
        decreases items@.len() - i,
    {
        proof {
            assert(cat.take(i + 1).drop_last() =~= cat.take(i as int));
            assert(cat.take(i + 1).last() == item_view(items@[i as int]));
        }
        if str_eq(items[i].id.as_str(), template_id) {
            proof {
                lemma_find_index_prefix(cat, template_id@, i as int);
            }
            return Ok(items[i].clone_item());
        }
        i = i + 1;
    }
    assert(cat.take(items@.len() as int) =~= cat);
    let mut msg = String::from_str("Template '");
    msg.append(template_id);
    msg.append("' not found");
    Err(TemplateError {
        message: msg,
        field: Some(String::from_str("template")),
        suggestion: Some(String::from_str("Check the list of available templates")),
    })
}

/// What a fetched template holds: an OpenAPI (or Swagger) document, or a
/// service definition, each as the parsed value.
#[derive(Debug)]
pub enum TemplateContent {
    OpenApi(JsonValue),
    Service(JsonValue),
}

/// Whether a parsed template is an OpenAPI document: it has an `openapi` or
/// a `swagger` member.
pub open spec fn is_openapi_document(d: JsonData) -> bool {
    member(d, "openapi"@) is Some || member(d, "swagger"@) is Some
}

/// The error for a template whose text is not YAML.
pub open spec fn unparsable_template(m: Seq<char>) -> (Seq<char>, Option<Seq<char>>, Option<Seq<char>>) {
    ("Failed to parse template YAML: "@ + m, None, Some("Check the template syntax"@))
}

/// Reads the text fetched for a catalogue template: refuses an id that names
/// no entry, then a text that is not YAML; else tells an OpenAPI document
/// (one with an `openapi` or `swagger` member) from a service definition.
pub fn read_template_content(template_id: &str, content: &str) -> (r: Result<TemplateContent, TemplateError>)
    ensures
        find_index(catalog(), template_id@) is None ==> (r matches Err(e)
            && template_error_view(e) == unknown_template(template_id@)),
        find_index(catalog(), template_id@) is Some ==> match yaml_parsed(content@) {
            Err(m) => r matches Err(e) && template_error_view(e) == unparsable_template(m),
            Ok(d) => if is_openapi_document(d) {
                r matches Ok(TemplateContent::OpenApi(v)) && json_data(v) == d
            } else {
                r matches Ok(TemplateContent::Service(v)) && json_data(v) == d
            },
        },
{
    match find_template(template_id) {
        Err(e) => return Err(e),
        Ok(_) => {},
    }
    match parse_yaml(content) {
        Err(m) => Err(TemplateError {
            message: concat2("Failed to parse template YAML: ", m.as_str()),
            field: None,
            suggestion: Some(String::from_str("Check the template syntax")),
        }),
        Ok(v) => {
            let openapi = get_member(&v, "openapi").is_some() || get_member(&v, "swagger").is_some();
            if openapi {
                Ok(TemplateContent::OpenApi(v))
            } else {
                Ok(TemplateContent::Service(v))
            }
        },
    }
}

/// A match found first in a prefix is the match of the whole sequence.
proof fn lemma_find_index_prefix(items: Seq<ItemView>, id: Seq<char>, i: int)
    requires
        0 <= i < items.len(),
        find_index(items.take(i), id) is None,
        items[i].0 == id,
    ensures
        find_index(items, id) == Some(i),
    decreases items.len(),
{
    if i < items.len() - 1 {
        assert(items.drop_last().take(i) =~= items.take(i));
        lemma_find_index_prefix(items.drop_last(), id, i);
    } else {
        assert(items.take(i) =~= items.drop_last());
    }
}

impl MarketplaceItem {
    /// A copy of the entry.
    pub fn clone_item(&self) -> (r: MarketplaceItem)
        ensures
            item_view(r) == item_view(*self),
            r.logo_url == self.logo_url,
    {
        MarketplaceItem {
            id: self.id.clone(),
            name: self.name.clone(),
            description: self.description.clone(),
            category: self.category.clone(),
            logo_url: match &self.logo_url {
                Some(l) => Some(l.clone()),
                None => None,
            },
            definition_url: self.definition_url.clone(),
        }
    }
}

/// The file name an installed service is saved under: its name in lower case
/// with spaces turned into dashes, then `.yaml`.
pub open spec fn template_file_name_of(name: Seq<char>) -> Seq<char> {
    replaced(unicode_lower(name), " "@, "-"@) + ".yaml"@
}

/// The file name an installed service is saved under.
pub fn template_file_name(name: &str) -> (r: String)
    ensures
        r@ == template_file_name_of(name@),
{
    let lower = to_lowercase(name);
    let dashed = replace_all(lower.as_str(), " ", "-");
    concat2(dashed.as_str(), ".yaml")
}

} // verus!
