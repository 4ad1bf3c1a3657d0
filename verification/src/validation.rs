//! Validation of service definitions and simulator configuration.

use vstd::prelude::*;
use crate::config::{
    BehaviorConfig, EndpointDefinition, ResponseDefinition, ServerConfig, ServiceDefinition, SimulatorConfig,
};
use crate::json::{data_field, fields_data, items_data, json_data, lemma_field_of_data, lemma_fields_data_ext,
    lemma_items_data_ext, object_get, JsonData, JsonValue};
use crate::strmap::StrMap;
use crate::text::{eq_ignore_ascii_case_spec, string_views, concat2, concat3, decimal, has_prefix, is_blank, is_blank_str, starts_with, to_uppercase,
    unicode_upper, usize_to_string};

verus! {

/// A problem found in a configuration value.
#[derive(Clone, Debug)]
pub struct ValidationError {
    pub field: String,
    pub message: String,
    pub suggestion: Option<String>,
}

/// A validation error as plain values: field, message and suggestion.
pub type ErrorView = (Seq<char>, Seq<char>, Option<Seq<char>>);

/// The view of an optional string.
pub open spec fn opt_view(o: Option<String>) -> Option<Seq<char>> {
    match o {
        Some(s) => Some(s@),
        None => None,
    }
}

/// The view of a validation error.
pub open spec fn error_view(e: ValidationError) -> ErrorView {
    (e.field@, e.message@, opt_view(e.suggestion))
}

/// The views of a list of validation errors.
pub open spec fn errors_view(es: Seq<ValidationError>) -> Seq<ErrorView> {
    es.map_values(|e: ValidationError| error_view(e))
}

/// A validation outcome as the list of its errors (empty when valid).
pub open spec fn outcome_errors(r: Result<(), Vec<ValidationError>>) -> Seq<ErrorView> {
    match r {
        Ok(_) => Seq::empty(),
        Err(es) => errors_view(es@),
    }
}

/// The result is `Ok` exactly when the expected error list is empty, and an
/// `Err` carries that list.
pub open spec fn reports(r: Result<(), Vec<ValidationError>>, expected: Seq<ErrorView>) -> bool {
    &&& (r is Ok <==> expected.len() == 0)
    &&& outcome_errors(r) == expected
}

/// The error for a required value that is blank.
pub open spec fn blank_error(field: Seq<char>) -> ErrorView {
    (field, field + " cannot be empty"@, Some("Provide a non-empty value"@))
}

/// Errors of the non-empty check of `value`.
pub open spec fn non_empty_errors(value: Seq<char>, field: Seq<char>) -> Seq<ErrorView> {
    if is_blank(value) { seq![blank_error(field)] } else { Seq::empty() }
}

/// The same errors, with `prefix` put before each field name.
pub open spec fn prefix_fields(es: Seq<ErrorView>, prefix: Seq<char>) -> Seq<ErrorView> {
    es.map_values(|e: ErrorView| (prefix + e.0, e.1, e.2))
}

/// Whether a URL parses, as `url::Url::parse` decides.
pub open spec fn url_parses(s: Seq<char>) -> bool {
    crate::urls::url_path_of(s) is Some
}

/// Whether a URL parses.
fn url_is_valid(s: &str) -> (b: bool)
    ensures
        b == url_parses(s@),
{
    crate::urls::parse_url_path(s).is_some()
}

/// Validation of a configuration value.
pub trait ConfigValidator {
    /// Checks the value, returning every problem found.
    fn validate(&self) -> Result<(), Vec<ValidationError>>;
}

fn make_error(field: &str, message: &str, suggestion: &str) -> (e: ValidationError)
    ensures
        error_view(e) == (field@, message@, Some(suggestion@)),
{
    ValidationError {
        field: String::from_str(field),
        message: String::from_str(message),
        suggestion: Some(String::from_str(suggestion)),
    }
}

/// Checks that a required value holds something other than whitespace.
pub fn validate_non_empty_string(value: &str, field: &str) -> (r: Result<(), ValidationError>)
    ensures
        r is Ok <==> !is_blank(value@),
        r matches Err(e) ==> error_view(e) == blank_error(field@),
{
    if is_blank_str(value) {
        Err(ValidationError {
            field: String::from_str(field),
            message: concat2(field, " cannot be empty"),
            suggestion: Some(String::from_str("Provide a non-empty value")),
        })
    } else {
        Ok(())
    }
}

fn push_error(errors: &mut Vec<ValidationError>, e: ValidationError)
    ensures
        errors_view(final(errors)@) == errors_view(old(errors)@).push(error_view(e)),
{
    let ghost before = errors@;
    errors.push(e);
    assert(errors_view(errors@) =~= errors_view(before).push(error_view(e)));
}

fn push_non_empty(errors: &mut Vec<ValidationError>, value: &str, field: &str)
    ensures
        errors_view(final(errors)@) == errors_view(old(errors)@) + non_empty_errors(value@, field@),
{
    match validate_non_empty_string(value, field) {
        Ok(()) => {
            assert(errors_view(errors@) =~= errors_view(errors@) + non_empty_errors(value@, field@));
        },
        Err(e) => {
            push_error(errors, e);
            assert(errors_view(errors@) =~= errors_view(old(errors)@) + non_empty_errors(value@, field@));
        },
    }
}

fn append_outcome(errors: &mut Vec<ValidationError>, r: Result<(), Vec<ValidationError>>)
    ensures
        errors_view(final(errors)@) == errors_view(old(errors)@) + outcome_errors(r),
{
    match r {
        Ok(()) => {
            assert(errors_view(errors@) =~= errors_view(errors@) + Seq::<ErrorView>::empty());
        },
        Err(es) => {
            let mut es = es;
            let ghost added = es@;
            errors.append(&mut es);
            assert(errors_view(errors@) =~= errors_view(old(errors)@) + errors_view(added));
        },
    }
}

fn finish(errors: Vec<ValidationError>) -> (r: Result<(), Vec<ValidationError>>)
    ensures
        reports(r, errors_view(errors@)),
{
    if errors.len() == 0 {
        assert(errors_view(errors@) =~= Seq::<ErrorView>::empty());
        Ok(())
    } else {
        Err(errors)
    }
}

/// Errors of a server configuration, in the order they are checked.
pub open spec fn server_errors(c: ServerConfig) -> Seq<ErrorView> {
    non_empty_errors(c.base_path@, "server.base_path"@)
    + (if !has_prefix(c.base_path@, "/"@) {
        seq![("server.base_path"@, "Base path must start with '/'"@, Some("Ensure base path starts with '/', e.g., '/api/v1'"@))]
    } else {
        Seq::empty()
    })
    + (match c.port {
        Some(p) => if p < 1024 {
            seq![("server.port"@, "Port should be >= 1024 to avoid system ports"@, Some("Use ports 1024 or higher"@))]
        } else {
            Seq::empty()
        },
        None => Seq::empty(),
    })
    + (match c.proxy_base_url {
        Some(u) => if !url_parses(u@) {
            seq![("server.proxy_base_url"@, "Invalid URL for proxy_base_url"@, Some("Provide a valid URL such as 'http://example.com'"@))]
        } else {
            Seq::empty()
        },
        None => Seq::empty(),
    })
}

impl ConfigValidator for ServerConfig {
    fn validate(&self) -> (r: Result<(), Vec<ValidationError>>)
        ensures
            reports(r, server_errors(*self)),
    {
        let mut errors: Vec<ValidationError> = Vec::new();
        assert(errors_view(errors@) =~= Seq::<ErrorView>::empty());
        push_non_empty(&mut errors, self.base_path.as_str(), "server.base_path");
        let ghost e1 = errors_view(errors@);
        if !starts_with(self.base_path.as_str(), "/") {
            push_error(&mut errors, make_error("server.base_path", "Base path must start with '/'",
                "Ensure base path starts with '/', e.g., '/api/v1'"));
        }
        let ghost e2 = errors_view(errors@);
        assert(e2 =~= e1 + (if !has_prefix(self.base_path@, "/"@) {
            seq![("server.base_path"@, "Base path must start with '/'"@, Some("Ensure base path starts with '/', e.g., '/api/v1'"@))]
        } else {
            Seq::<ErrorView>::empty()
        }));
        if let Some(port) = self.port {
            if port < 1024 {
                push_error(&mut errors, make_error("server.port", "Port should be >= 1024 to avoid system ports",
                    "Use ports 1024 or higher"));
            }
        }
        let ghost e3 = errors_view(errors@);
        if let Some(url) = &self.proxy_base_url {
            if !url_is_valid(url.as_str()) {
                push_error(&mut errors, make_error("server.proxy_base_url", "Invalid URL for proxy_base_url",
                    "Provide a valid URL such as 'http://example.com'"));
            }
        }
        assert(errors_view(errors@) =~= server_errors(*self));
        finish(errors)
    }
}

/// Errors of a response definition under a status code.
pub open spec fn response_errors(r: ResponseDefinition, status_code: u16) -> Seq<ErrorView> {
    non_empty_errors(r.content_type@, "content_type"@)
}

impl ResponseDefinition {
    /// Validate a response definition in the context of its status code.
    pub fn validate_with_status_code(&self, status_code: u16) -> (r: Result<(), Vec<ValidationError>>)
        ensures
            reports(r, response_errors(*self, status_code)),
    {
        let mut errors: Vec<ValidationError> = Vec::new();
        assert(errors_view(errors@) =~= Seq::<ErrorView>::empty());
        push_non_empty(&mut errors, self.content_type.as_str(), "content_type");
        assert(errors_view(errors@) =~= response_errors(*self, status_code));
        finish(errors)
    }
}

impl ConfigValidator for ResponseDefinition {
    fn validate(&self) -> (r: Result<(), Vec<ValidationError>>)
        ensures
            reports(r, response_errors(*self, 200)),
    {
        self.validate_with_status_code(200)
    }
}

/// The HTTP methods an endpoint may use.
pub open spec fn is_valid_method(upper: Seq<char>) -> bool {
    upper == "GET"@ || upper == "POST"@ || upper == "PUT"@ || upper == "DELETE"@ || upper == "PATCH"@
        || upper == "HEAD"@ || upper == "OPTIONS"@
}

/// Errors for one declared response: its status code range, then its own
/// errors under `responses.<code>.`.
pub open spec fn one_response_errors(status: u16, r: ResponseDefinition) -> Seq<ErrorView> {
    (if status < 100 || status > 599 {
        seq![("responses."@ + decimal(status as nat), "HTTP status code must be between 100 and 599"@,
            Some("Use valid HTTP status codes (100-599)"@))]
    } else {
        Seq::empty()
    }) + prefix_fields(response_errors(r, status), "responses."@ + decimal(status as nat) + "."@)
}

/// Errors of the declared responses, in order.
pub open spec fn responses_errors(rs: Seq<(u16, ResponseDefinition)>) -> Seq<ErrorView>
    decreases rs.len(),
{
    if rs.len() == 0 {
        Seq::empty()
    } else {
        responses_errors(rs.drop_last()) + one_response_errors(rs.last().0, rs.last().1)
    }
}

/// Errors of an endpoint definition, in the order they are checked.
pub open spec fn endpoint_errors(e: EndpointDefinition) -> Seq<ErrorView> {
    (if !is_valid_method(unicode_upper(e.method@)) {
        seq![("method"@, "Invalid HTTP method '"@ + e.method@ + "'. Must be one of: GET, POST, PUT, DELETE, PATCH, HEAD, OPTIONS"@,
            Some("Use a valid HTTP method like GET, POST, PUT, DELETE, etc."@))]
    } else {
        Seq::empty()
    })
    + non_empty_errors(e.path@, "path"@)
    + (if !has_prefix(e.path@, "/"@) {
        seq![("path"@, "Endpoint path must start with '/'"@, Some("Ensure path starts with '/', e.g., '/users'"@))]
    } else {
        Seq::empty()
    })
    + (if e.responses@.len() == 0 {
        seq![("responses"@, "Endpoint must have at least one response definition"@,
            Some("Add at least one response (e.g., 200 status)"@))]
    } else {
        Seq::empty()
    })
    + responses_errors(e.responses@)
}

fn is_valid_method_str(upper: &str) -> (b: bool)
    ensures
        b == is_valid_method(upper@),
{
    crate::text::str_eq(upper, "GET") || crate::text::str_eq(upper, "POST") || crate::text::str_eq(upper, "PUT")
        || crate::text::str_eq(upper, "DELETE") || crate::text::str_eq(upper, "PATCH")
        || crate::text::str_eq(upper, "HEAD") || crate::text::str_eq(upper, "OPTIONS")
}

/// Appends `es` with `prefix` put before each field name.
fn append_prefixed(errors: &mut Vec<ValidationError>, es: Vec<ValidationError>, prefix: &str)
    ensures
        errors_view(final(errors)@) == errors_view(old(errors)@) + prefix_fields(errors_view(es@), prefix@),
{
    let mut i: usize = 0;
    while i < es.len()
        invariant
            i <= es@.len(),
            errors_view(errors@) == errors_view(old(errors)@) + prefix_fields(errors_view(es@), prefix@).take(i as int),
        decreases es@.len() - i,
    {
        let e = &es[i];
        let ne = ValidationError {
            field: concat2(prefix, e.field.as_str()),
            message: e.message.clone(),
            suggestion: match &e.suggestion {
                Some(s) => Some(s.clone()),
                None => None,
            },
        };
        let ghost before = errors_view(errors@);
        push_error(errors, ne);
        proof {
            let pf = prefix_fields(errors_view(es@), prefix@);
            assert(pf[i as int] == error_view(ne));
            assert(pf.take(i + 1) =~= pf.take(i as int).push(pf[i as int]));
        }
        i = i + 1;
    }
    proof {
        let pf = prefix_fields(errors_view(es@), prefix@);
        assert(pf.take(es@.len() as int) =~= pf);
    }
}

impl ConfigValidator for EndpointDefinition {
    fn validate(&self) -> (r: Result<(), Vec<ValidationError>>)
        ensures
            reports(r, endpoint_errors(*self)),
    {
        let mut errors: Vec<ValidationError> = Vec::new();
        assert(errors_view(errors@) =~= Seq::<ErrorView>::empty());
        let upper = to_uppercase(self.method.as_str());
        if !is_valid_method_str(upper.as_str()) {
            let msg = concat3("Invalid HTTP method '", self.method.as_str(),
                "'. Must be one of: GET, POST, PUT, DELETE, PATCH, HEAD, OPTIONS");
            push_error(&mut errors, ValidationError {
                field: String::from_str("method"),
                message: msg,
                suggestion: Some(String::from_str("Use a valid HTTP method like GET, POST, PUT, DELETE, etc.")),
            });
        }
        let ghost e1 = errors_view(errors@);
        push_non_empty(&mut errors, self.path.as_str(), "path");
        if !starts_with(self.path.as_str(), "/") {
            push_error(&mut errors, make_error("path", "Endpoint path must start with '/'",
                "Ensure path starts with '/', e.g., '/users'"));
        }
        let ghost e3 = errors_view(errors@);
        if self.responses.len() == 0 {
            push_error(&mut errors, make_error("responses", "Endpoint must have at least one response definition",
                "Add at least one response (e.g., 200 status)"));
        }
        let ghost e4 = errors_view(errors@);
        let mut i: usize = 0;
        while i < self.responses.len()
            invariant
                i <= self.responses@.len(),
                errors_view(errors@) == e4 + responses_errors(self.responses@.take(i as int)),
            decreases self.responses@.len() - i,
        {
            let status_code = self.responses[i].0;
            let response = &self.responses[i].1;
            let ghost before = errors_view(errors@);
            if status_code < 100 || status_code > 599 {
                let field = concat2("responses.", usize_to_string(status_code as usize).as_str());
                push_error(&mut errors, ValidationError {
                    field,
                    message: String::from_str("HTTP status code must be between 100 and 599"),
                    suggestion: Some(String::from_str("Use valid HTTP status codes (100-599)")),
                });
            }
            let ghost mid = errors_view(errors@);
            if let Err(response_errors) = response.validate_with_status_code(status_code) {
                let prefix = concat3("responses.", usize_to_string(status_code as usize).as_str(), ".");
                append_prefixed(&mut errors, response_errors, prefix.as_str());
            } else {
                assert(prefix_fields(crate::validation::response_errors(*response, status_code),
                    "responses."@ + decimal(status_code as nat) + "."@) =~= Seq::<ErrorView>::empty());
            }
            proof {
                let rs = self.responses@.take(i + 1);
                assert(rs.drop_last() =~= self.responses@.take(i as int));
                assert(rs.last() == self.responses@[i as int]);
                assert(errors_view(errors@) =~= before + one_response_errors(status_code, *response));
            }
            i = i + 1;
        }
        proof {
            assert(self.responses@.take(self.responses@.len() as int) =~= self.responses@);
            assert(errors_view(errors@) =~= endpoint_errors(*self));
        }
        finish(errors)
    }
}

/// Errors of a behavior configuration.
pub open spec fn behavior_errors(b: BehaviorConfig) -> Seq<ErrorView> {
    (match b.latency {
        Some(l) => if l.min_ms > l.max_ms {
            seq![("behavior.latency"@, "Minimum latency must be less than or equal to maximum latency"@,
                Some("Ensure min_ms <= max_ms"@))]
        } else {
            Seq::empty()
        },
        None => Seq::empty(),
    }) + (match b.rate_limiting {
        Some(rl) => if rl.requests_per_minute == 0 {
            seq![("behavior.rate_limiting.requests_per_minute"@, "Requests per minute must be greater than 0"@,
                Some("Set a positive number of requests per minute"@))]
        } else {
            Seq::empty()
        },
        None => Seq::empty(),
    })
}

impl ConfigValidator for BehaviorConfig {
    fn validate(&self) -> (r: Result<(), Vec<ValidationError>>)
        ensures
            reports(r, behavior_errors(*self)),
    {
        let mut errors: Vec<ValidationError> = Vec::new();
        assert(errors_view(errors@) =~= Seq::<ErrorView>::empty());
        if let Some(latency) = &self.latency {
            if latency.min_ms > latency.max_ms {
                push_error(&mut errors, make_error("behavior.latency",
                    "Minimum latency must be less than or equal to maximum latency", "Ensure min_ms <= max_ms"));
            }
        }
        let ghost e1 = errors_view(errors@);
        if let Some(rate_limit) = &self.rate_limiting {
            if rate_limit.requests_per_minute == 0 {
                push_error(&mut errors, make_error("behavior.rate_limiting.requests_per_minute",
                    "Requests per minute must be greater than 0", "Set a positive number of requests per minute"));
            }
        }
        assert(errors_view(errors@) =~= behavior_errors(*self));
        finish(errors)
    }
}

/// Errors of a simulator configuration (besides the check of its services
/// directory on disk).
pub open spec fn simulator_errors(c: SimulatorConfig) -> Seq<ErrorView> {
    (if c.port_range.start >= c.port_range.end {
        seq![("port_range"@, "Port range start must be less than end"@, Some("Ensure start port is less than end port"@))]
    } else {
        Seq::empty()
    }) + (if c.port_range.start < 1024 {
        seq![("port_range.start"@, "Port range start should be >= 1024 to avoid system ports"@,
            Some("Use ports 1024 or higher"@))]
    } else {
        Seq::empty()
    }) + (match c.global_behavior {
        Some(b) => behavior_errors(b),
        None => Seq::empty(),
    })
}

impl ConfigValidator for SimulatorConfig {
    fn validate(&self) -> (r: Result<(), Vec<ValidationError>>)
        ensures
            reports(r, simulator_errors(*self)),
    {
        let mut errors: Vec<ValidationError> = Vec::new();
        assert(errors_view(errors@) =~= Seq::<ErrorView>::empty());
        if self.port_range.start >= self.port_range.end {
            push_error(&mut errors, make_error("port_range", "Port range start must be less than end",
                "Ensure start port is less than end port"));
        }
        let ghost e1 = errors_view(errors@);
        if self.port_range.start < 1024 {
            push_error(&mut errors, make_error("port_range.start",
                "Port range start should be >= 1024 to avoid system ports", "Use ports 1024 or higher"));
        }
        let ghost e2 = errors_view(errors@);
        if let Some(behavior) = &self.global_behavior {
            if let Err(behavior_errors) = behavior.validate() {
                append_prefixed(&mut errors, behavior_errors, "");
                proof {
                    let es = crate::validation::behavior_errors(*behavior);
                    assert(prefix_fields(es, ""@) =~= es) by {
                        assert forall|i: int| 0 <= i < es.len() implies prefix_fields(es, ""@)[i] == es[i] by {
                            reveal_strlit("");
                        assert(""@ + es[i].0 =~= es[i].0);
                        }
                    }
                }
            }
        }
        assert(errors_view(errors@) =~= simulator_errors(*self));
        finish(errors)
    }
}

/// Errors of the endpoints, each under `endpoints[<index>].`.
pub open spec fn endpoints_errors(eps: Seq<EndpointDefinition>) -> Seq<ErrorView>
    decreases eps.len(),
{
    if eps.len() == 0 {
        Seq::empty()
    } else {
        endpoints_errors(eps.drop_last()) + prefix_fields(endpoint_errors(eps.last()),
            "endpoints["@ + decimal((eps.len() - 1) as nat) + "]."@)
    }
}

/// Errors of a service definition, in the order they are checked.
pub open spec fn service_errors(s: ServiceDefinition) -> Seq<ErrorView> {
    non_empty_errors(s.name@, "name"@) + server_errors(s.server) + (if s.endpoints@.len() == 0 {
        seq![("endpoints"@, "Service must have at least one endpoint"@, Some("Add at least one endpoint definition"@))]
    } else {
        Seq::empty()
    }) + endpoints_errors(s.endpoints@) + (match s.models {
        Some(ms) => models_errors(fields_data(ms@)),
        None => Seq::empty(),
    }) + (match s.models {
        Some(ms) => match s.fixtures {
            Some(fx) => fixtures_errors(fields_data(fx@), fields_data(ms@)),
            None => Seq::empty(),
        },
        None => Seq::empty(),
    }) + schema_reference_errors(s.endpoints@, models_view(s)) + (match s.behavior {
        Some(b) => behavior_errors(b),
        None => Seq::empty(),
    })
}

impl ConfigValidator for ServiceDefinition {
    fn validate(&self) -> (r: Result<(), Vec<ValidationError>>)
        ensures
            reports(r, service_errors(*self)),
    {
        let mut errors: Vec<ValidationError> = Vec::new();
        assert(errors_view(errors@) =~= Seq::<ErrorView>::empty());
        push_non_empty(&mut errors, self.name.as_str(), "name");
        let ghost e1 = errors_view(errors@);
        if let Err(server_errors) = self.server.validate() {
            append_prefixed(&mut errors, server_errors, "");
            proof {
                let es = crate::validation::server_errors(self.server);
                assert(prefix_fields(es, ""@) =~= es) by {
                    assert forall|i: int| 0 <= i < es.len() implies prefix_fields(es, ""@)[i] == es[i] by {
                        reveal_strlit("");
                        assert(""@ + es[i].0 =~= es[i].0);
                    }
                }
            }
        }
        let ghost e2 = errors_view(errors@);
        if self.endpoints.len() == 0 {
            push_error(&mut errors, make_error("endpoints", "Service must have at least one endpoint",
                "Add at least one endpoint definition"));
        }
        let ghost e3 = errors_view(errors@);
        let mut i: usize = 0;
        while i < self.endpoints.len()
            invariant
                i <= self.endpoints@.len(),
                errors_view(errors@) == e3 + endpoints_errors(self.endpoints@.take(i as int)),
            decreases self.endpoints@.len() - i,
        {
            let ghost before = errors_view(errors@);
            let endpoint = &self.endpoints[i];
            if let Err(endpoint_errors) = endpoint.validate() {
                let prefix = concat3("endpoints[", usize_to_string(i).as_str(), "].");
                append_prefixed(&mut errors, endpoint_errors, prefix.as_str());
            } else {
                assert(prefix_fields(crate::validation::endpoint_errors(*endpoint),
                    "endpoints["@ + decimal(i as nat) + "]."@) =~= Seq::<ErrorView>::empty());
            }
            proof {
                let eps = self.endpoints@.take(i + 1);
                assert(eps.drop_last() =~= self.endpoints@.take(i as int));
                assert(eps.last() == self.endpoints@[i as int]);
                assert(eps.len() - 1 == i);
            }
            i = i + 1;
        }
        assert(self.endpoints@.take(self.endpoints@.len() as int) =~= self.endpoints@);
        match &self.models {
            Some(models) => {
                let r = self.validate_models(models);
                append_outcome(&mut errors, r);
            },
            None => {},
        }
        match &self.models {
            Some(models) => match &self.fixtures {
                Some(fixtures) => {
                    let r = self.validate_fixtures_against_models(fixtures, models);
                    append_outcome(&mut errors, r);
                },
                None => {},
            },
            None => {},
        }
        let r = validate_schema_references(self);
        append_outcome(&mut errors, r);
        let ghost e4 = errors_view(errors@);
        if let Some(behavior) = &self.behavior {
            if let Err(behavior_errors) = behavior.validate() {
                append_prefixed(&mut errors, behavior_errors, "");
                proof {
                    let es = crate::validation::behavior_errors(*behavior);
                    assert(prefix_fields(es, ""@) =~= es) by {
                        assert forall|i: int| 0 <= i < es.len() implies prefix_fields(es, ""@)[i] == es[i] by {
                            reveal_strlit("");
                        assert(""@ + es[i].0 =~= es[i].0);
                        }
                    }
                }
            }
        }
        assert(errors_view(errors@) =~= service_errors(*self));
        finish(errors)
    }
}

/// An error in a service configuration as a whole.
#[derive(Clone, Debug)]
pub struct ConfigError {
    pub message: String,
    pub suggestion: Option<String>,
}

/// The lines listing validation errors, one `- field: message` line each.
pub open spec fn format_errors(es: Seq<ErrorView>) -> Seq<char>
    decreases es.len(),
{
    if es.len() == 0 {
        Seq::empty()
    } else {
        format_errors(es.drop_last()) + "\n- "@ + es.last().0 + ": "@ + es.last().1
    }
}

/// Validate the basic structure of a service definition.
pub fn validate_service_schema(service: &ServiceDefinition) -> (r: Result<(), ConfigError>)
    ensures
        r is Ok <==> service_errors(*service).len() == 0,
        r matches Err(e) ==> e.message@ == "Service validation failed for '"@ + service.name@ + "':"@
            + format_errors(service_errors(*service)),
{
    match service.validate() {
        Ok(()) => Ok(()),
        Err(errors) => {
            let mut message = concat3("Service validation failed for '", service.name.as_str(), "':");
            let mut i: usize = 0;
            while i < errors.len()
                invariant
                    i <= errors@.len(),
                    errors_view(errors@) == service_errors(*service),
                    message@ == "Service validation failed for '"@ + service.name@ + "':"@
                        + format_errors(errors_view(errors@).take(i as int)),
                decreases errors@.len() - i,
            {
                let ghost before = message@;
                message.append("\n- ");
                message.append(errors[i].field.as_str());
                message.append(": ");
                message.append(errors[i].message.as_str());
                proof {
                    let ev = errors_view(errors@);
                    assert(ev.take(i + 1).drop_last() =~= ev.take(i as int));
                    assert(ev.take(i + 1).last() == error_view(errors@[i as int]));
                    assert(message@ =~= "Service validation failed for '"@ + service.name@ + "':"@
                        + format_errors(ev.take(i + 1)));
                }
                i = i + 1;
            }
            assert(errors_view(errors@).take(errors@.len() as int) =~= errors_view(errors@));
            Err(ConfigError {
                message,
                suggestion: Some(String::from_str("Fix the validation errors listed above")),
            })
        },
    }
}

/// Ensure service names are unique: record the name, failing when it was
/// already recorded.
pub fn validate_unique_name(service: &ServiceDefinition, names: &mut StrMap<()>) -> (r: Result<(), ConfigError>)
    requires
        old(names).wf(),
    ensures
        final(names).wf(),
        r is Ok <==> !old(names)@.contains_key(service.name@),
        final(names)@.dom() == old(names)@.dom().insert(service.name@),
        r matches Err(e) ==> e.message@ == "Duplicate service name '"@ + service.name@ + "'"@,
{
    if names.contains_key(service.name.as_str()) {
        names.insert(service.name.clone(), ());
        return Err(ConfigError {
            message: concat3("Duplicate service name '", service.name.as_str(), "'"),
            suggestion: Some(String::from_str("Ensure each service has a unique name")),
        });
    }
    names.insert(service.name.clone(), ());
    Ok(())
}

/// Types of errors that can occur during service loading.
#[derive(Clone, Copy, Debug, PartialEq, Eq, Structural)]
pub enum LoadErrorType {
    FileAccess,
    Parsing,
    Validation,
    DuplicateName,
    DirectoryAccess,
}

/// Detailed error information for service loading.
#[derive(Clone, Debug)]
pub struct LoadError {
    pub file_path: String,
    pub error_type: LoadErrorType,
    pub message: String,
}

/// Summary of validation results.
#[derive(Clone, Debug)]
pub struct ValidationSummary {
    pub valid_count: usize,
    pub invalid_count: usize,
    pub total_files: usize,
    pub errors: Vec<LoadError>,
}

impl ValidationSummary {
    /// Every file was valid, and there was at least one.
    pub fn is_all_valid(&self) -> (b: bool)
        ensures
            b == (self.invalid_count == 0 && self.valid_count > 0),
    {
        self.invalid_count == 0 && self.valid_count > 0
    }
}

/// Summarize the loading of `total_files` files of which `errors` failed.
pub fn summarize(total_files: usize, errors: Vec<LoadError>) -> (s: ValidationSummary)
    ensures
        s.invalid_count == errors@.len(),
        s.valid_count == if total_files >= errors@.len() { total_files - errors@.len() } else { 0 },
        s.total_files == total_files,
        s.errors@ == errors@,
{
    let invalid_count = errors.len();
    let valid_count = total_files.saturating_sub(invalid_count);
    ValidationSummary { valid_count, invalid_count, total_files, errors }
}

/// A load error as plain values: file, kind and message.
pub open spec fn load_error_view(e: LoadError) -> (Seq<char>, LoadErrorType, Seq<char>) {
    (e.file_path@, e.error_type, e.message@)
}

/// What sorting the files loaded in turn gives: the services kept, the
/// failures (a file that did not load; a service whose name was seen
/// before; a service that fails validation, whose name then counts as
/// seen), and the names seen.
pub open spec fn load_outcome(items: Seq<(String, Result<ServiceDefinition, ConfigError>)>)
    -> (Seq<ServiceDefinition>, Seq<(Seq<char>, LoadErrorType, Seq<char>)>, Set<Seq<char>>)
    decreases items.len(),
{
    if items.len() == 0 {
        (Seq::empty(), Seq::empty(), Set::empty())
    } else {
        load_step(load_outcome(items.drop_last()), items.last())
    }
}

/// One file taken in (see [`load_outcome`]).
pub open spec fn load_step(prev: (Seq<ServiceDefinition>, Seq<(Seq<char>, LoadErrorType, Seq<char>)>, Set<Seq<char>>),
    item: (String, Result<ServiceDefinition, ConfigError>))
    -> (Seq<ServiceDefinition>, Seq<(Seq<char>, LoadErrorType, Seq<char>)>, Set<Seq<char>>)
{
    let path = item.0@;
    match item.1 {
        Err(e) => (prev.0, prev.1.push((path, LoadErrorType::Parsing, e.message@)), prev.2),
        Ok(sv) => if prev.2.contains(sv.name@) {
            (prev.0, prev.1.push((path, LoadErrorType::DuplicateName,
                "Duplicate service name '"@ + sv.name@ + "'"@)), prev.2)
        } else if service_errors(sv).len() > 0 {
            (prev.0, prev.1.push((path, LoadErrorType::Validation, "Service validation failed for '"@ + sv.name@
                + "':"@ + format_errors(service_errors(sv)))), prev.2.insert(sv.name@))
        } else {
            (prev.0.push(sv), prev.1, prev.2.insert(sv.name@))
        },
    }
}

/// The views of load errors.
pub open spec fn load_errors_view(v: Seq<LoadError>) -> Seq<(Seq<char>, LoadErrorType, Seq<char>)> {
    v.map_values(|e: LoadError| load_error_view(e))
}

/// Takes in one loaded file (see [`load_step`]).
fn sort_one(file_path: String, loaded_one: Result<ServiceDefinition, ConfigError>, services: &mut Vec<ServiceDefinition>,
    errors: &mut Vec<LoadError>, names: &mut StrMap<()>)
    requires
        old(names).wf(),
    ensures
        final(names).wf(),
        final(errors)@.len() <= old(errors)@.len() + 1,
        (final(services)@, load_errors_view(final(errors)@), final(names)@.dom()) == load_step(
            (old(services)@, load_errors_view(old(errors)@), old(names)@.dom()), (file_path, loaded_one)),
{
    let ghost e0 = errors@;
    let ghost item = (file_path, loaded_one);
    match loaded_one {
        Err(e) => {
            errors.push(LoadError { file_path, error_type: LoadErrorType::Parsing, message: e.message });
        },
        Ok(service) => {
            match validate_unique_name(&service, &mut *names) {
                Err(e) => {
                    errors.push(LoadError { file_path, error_type: LoadErrorType::DuplicateName, message: e.message });
                    assert(names@.dom() =~= old(names)@.dom());
                },
                Ok(()) => match validate_service_schema(&service) {
                    Err(e) => {
                        errors.push(LoadError { file_path, error_type: LoadErrorType::Validation, message: e.message });
                    },
                    Ok(()) => {
                        services.push(service);
                    },
                },
            }
        },
    }
    assert(load_errors_view(errors@) =~= load_step((old(services)@, load_errors_view(e0), old(names)@.dom()), item).1);
}

/// Sorts the services loaded from the files of a directory, in file order
/// (see [`load_outcome`]), and summarises the failures.
pub fn sort_loaded_services(loaded: Vec<(String, Result<ServiceDefinition, ConfigError>)>)
    -> (r: (Vec<ServiceDefinition>, ValidationSummary))
    ensures
        r.0@ == load_outcome(loaded@).0,
        load_errors_view(r.1.errors@) == load_outcome(loaded@).1,
        r.1.total_files == loaded@.len(),
        r.1.invalid_count == load_outcome(loaded@).1.len(),
        r.1.valid_count == loaded@.len() - load_outcome(loaded@).1.len(),
{
    let ghost items = loaded@;
    let total = loaded.len();
    let mut rest = loaded;
    let mut services: Vec<ServiceDefinition> = Vec::new();
    let mut errors: Vec<LoadError> = Vec::new();
    let mut names: StrMap<()> = StrMap::new();
    let mut i: usize = 0;
    assert(items.take(0) =~= Seq::<(String, Result<ServiceDefinition, ConfigError>)>::empty());
    assert(load_errors_view(errors@) =~= Seq::<(Seq<char>, LoadErrorType, Seq<char>)>::empty());
    assert(names@.dom() =~= Set::<Seq<char>>::empty());
    while rest.len() > 0
        invariant
            i + rest@.len() == items.len(),
            total == items.len(),
            rest@ == items.skip(i as int),
            names.wf(),
            (services@, load_errors_view(errors@), names@.dom()) == load_outcome(items.take(i as int)),
            errors@.len() <= i,
        decreases rest@.len(),
    {
        assert(items.take(i + 1).drop_last() =~= items.take(i as int));
        assert(rest@[0] == items[i as int]);
        assert(items.take(i + 1).last() == items[i as int]);
        let (file_path, loaded_one) = rest.remove(0);
        assert(rest@ =~= items.skip(i + 1));
        sort_one(file_path, loaded_one, &mut services, &mut errors, &mut names);
        i = i + 1;
    }
    assert(items.take(i as int) =~= items);
    let summary = summarize(total, errors);
    (services, summary)
}

/// A summary counts each file once: with no more failures than files, the
/// valid and invalid counts add up to the total.
pub proof fn lemma_summary_counts_add_up(total_files: usize, failures: nat)
    requires
        failures <= total_files,
    ensures
        (if total_files >= failures { total_files - failures } else { 0int }) + failures == total_files,
{
}

/// The key telling endpoints apart: upper-case method, `:`, path.
pub open spec fn endpoint_key(e: EndpointDefinition) -> Seq<char> {
    unicode_upper(e.method@) + ":"@ + e.path@
}

/// The first endpoint whose key an earlier endpoint already has.
pub open spec fn first_duplicate(eps: Seq<EndpointDefinition>) -> Option<int>
    decreases eps.len(),
{
    if eps.len() == 0 {
        None
    } else {
        match first_duplicate(eps.drop_last()) {
            Some(j) => Some(j),
            None => if exists|i: int| 0 <= i < eps.len() - 1 && endpoint_key(#[trigger] eps[i]) == endpoint_key(eps.last()) {
                Some(eps.len() - 1)
            } else {
                None
            },
        }
    }
}

/// The first endpoint whose request body refers to a model not defined.
pub open spec fn first_missing_model(eps: Seq<EndpointDefinition>, models: Seq<Seq<char>>) -> Option<int>
    decreases eps.len(),
{
    if eps.len() == 0 {
        None
    } else {
        match first_missing_model(eps.drop_last(), models) {
            Some(j) => Some(j),
            None => if eps.last().request_body matches Some(rb) && rb.schema matches Some(s) && !models.contains(s@) {
                Some(eps.len() - 1)
            } else {
                None
            },
        }
    }
}

/// The view of a configuration error.
pub open spec fn config_error_view(e: ConfigError) -> (Seq<char>, Seq<char>) {
    (e.message@, match e.suggestion {
        Some(s) => s@,
        None => Seq::empty(),
    })
}

/// What checking a service's consistency gives: the first endpoint repeating
/// a method and path, else the first request body schema naming a model the
/// service does not define (when it defines models), else success.
pub open spec fn consistency_of(s: ServiceDefinition) -> Result<(), (Seq<char>, Seq<char>)> {
    let eps = s.endpoints@;
    match first_duplicate(eps) {
        Some(j) => Err(("Duplicate endpoint found: "@ + eps[j].method@ + " "@ + eps[j].path@,
            "Each endpoint must have a unique method-path combination"@)),
        None => match s.models {
            Some(ms) => match first_missing_model(eps, entry_names(ms@)) {
                Some(j) => Err(("Referenced model '"@ + eps[j].request_body->0.schema->0@ + "' not found in service '"@
                    + s.name@ + "'"@, "Define the model in the models section or remove the schema reference"@)),
                None => Ok(()),
            },
            None => Ok(()),
        },
    }
}

/// The names of named JSON entries.
pub open spec fn entry_names(entries: Seq<(String, JsonValue)>) -> Seq<Seq<char>> {
    entries.map_values(|p: (String, JsonValue)| p.0@)
}

/// Whether a model name is among the defined ones.
fn model_defined(models: &Vec<(String, JsonValue)>, name: &str) -> (b: bool)
    ensures
        b == entry_names(models@).contains(name@),
{
    let mut i: usize = 0;
    while i < models.len()
        invariant
            i <= models@.len(),
            forall|j: int| 0 <= j < i ==> models@[j].0@ != name@,
        decreases models@.len() - i,
    {
        if crate::text::str_eq(models[i].0.as_str(), name) {
            assert(entry_names(models@)[i as int] == name@);
            return true;
        }
        i = i + 1;
    }
    proof {
        if entry_names(models@).contains(name@) {
            let j = choose|j: int| 0 <= j < entry_names(models@).len() && entry_names(models@)[j] == name@;
            assert(models@[j].0@ == name@);
        }
    }
    false
}

/// Checks that a service is consistent: no two endpoints with the same
/// method (up to case) and path, and every request body schema names a
/// defined model.
pub fn validate_consistency(service: &ServiceDefinition) -> (r: Result<(), ConfigError>)
    ensures
        match consistency_of(*service) {
            Ok(()) => r is Ok,
            Err(e) => r matches Err(ce) && config_error_view(ce) == e && ce.suggestion is Some,
        },
{
    let eps = &service.endpoints;
    let ghost es = eps@;
    let mut keys: Vec<String> = Vec::new();
    let mut j: usize = 0;
    while j < eps.len()
        invariant
            es == eps@,
            es == service.endpoints@,
            j <= es.len(),
            keys@.len() == j,
            forall|i: int| 0 <= i < j ==> #[trigger] keys@[i]@ == endpoint_key(es[i]),
            first_duplicate(es.take(j as int)) is None,
        decreases es.len() - j,
    {
        let mut key = to_uppercase(eps[j].method.as_str());
        key.append(":");
        key.append(eps[j].path.as_str());
        let mut i: usize = 0;
        while i < j
            invariant
                es == eps@,
                j < es.len(),
                i <= j,
                keys@.len() == j,
                forall|m: int| 0 <= m < j ==> #[trigger] keys@[m]@ == endpoint_key(es[m]),
                key@ == endpoint_key(es[j as int]),
                es == service.endpoints@,
                first_duplicate(es.take(j as int)) is None,
                forall|m: int| 0 <= m < i ==> endpoint_key(#[trigger] es[m]) != endpoint_key(es[j as int]),
            decreases j - i,
        {
            if crate::text::str_eq(keys[i].as_str(), key.as_str()) {
                proof {
                    assert(es.take(j + 1).drop_last() =~= es.take(j as int));
                    assert(es.take(j + 1)[i as int] == es[i as int]);
                    assert(keys@[i as int]@ == endpoint_key(es[i as int]));
                    assert(es.take(j + 1).last() == es[j as int]);
                    assert(endpoint_key(es.take(j + 1)[i as int]) == endpoint_key(es.take(j + 1).last()));
                    assert(first_duplicate(es.take(j + 1)) == Some(j as int));
                    lemma_first_duplicate_prefix(es, j as int);
                }
                let mut message = String::from_str("Duplicate endpoint found: ");
                message.append(eps[j].method.as_str());
                message.append(" ");
                message.append(eps[j].path.as_str());
                return Err(ConfigError {
                    message,
                    suggestion: Some(String::from_str("Each endpoint must have a unique method-path combination")),
                });
            }
            i = i + 1;
        }
        proof {
            assert(es.take(j + 1).drop_last() =~= es.take(j as int));
            assert forall|m: int| 0 <= m < es.take(j + 1).len() - 1 implies endpoint_key(#[trigger] es.take(j + 1)[m])
                != endpoint_key(es.take(j + 1).last()) by {
                assert(es.take(j + 1)[m] == es[m]);
            }
        }
        keys.push(key);
        j = j + 1;
    }
    assert(es.take(es.len() as int) =~= es);
    match &service.models {
        Some(models) => {
            let mut k: usize = 0;
            while k < eps.len()
                invariant
                    es == eps@,
                    es == service.endpoints@,
                    first_duplicate(es) is None,
                    service.models matches Some(ms) && ms@ == models@,
                    k <= es.len(),
                    first_missing_model(es.take(k as int), entry_names(models@)) is None,
                decreases es.len() - k,
            {
                proof {
                    assert(es.take(k + 1).drop_last() =~= es.take(k as int));
                }
                if let Some(rb) = &eps[k].request_body {
                    if let Some(schema) = &rb.schema {
                        if !model_defined(models, schema.as_str()) {
                            proof {
                                lemma_first_missing_prefix(es, entry_names(models@), k as int);
                            }
                            let mut message = String::from_str("Referenced model '");
                            message.append(schema.as_str());
                            message.append("' not found in service '");
                            message.append(service.name.as_str());
                            message.append("'");
                            return Err(ConfigError {
                                message,
                                suggestion: Some(String::from_str(
                                    "Define the model in the models section or remove the schema reference",
                                )),
                            });
                        }
                    }
                }
                k = k + 1;
            }
            assert(es.take(es.len() as int) =~= es);
            Ok(())
        },
        None => Ok(()),
    }
}

proof fn lemma_first_duplicate_prefix(es: Seq<EndpointDefinition>, j: int)
    requires
        0 <= j < es.len(),
        first_duplicate(es.take(j + 1)) == Some(j),
    ensures
        first_duplicate(es) == Some(j),
    decreases es.len(),
{
    if j + 1 < es.len() {
        assert(es.drop_last().take(j + 1) =~= es.take(j + 1));
        lemma_first_duplicate_prefix(es.drop_last(), j);
    } else {
        assert(es.take(j + 1) =~= es);
    }
}

proof fn lemma_first_missing_prefix(es: Seq<EndpointDefinition>, models: Seq<Seq<char>>, k: int)
    requires
        0 <= k < es.len(),
        first_missing_model(es.take(k), models) is None,
        es[k].request_body matches Some(rb) && rb.schema matches Some(s) && !models.contains(s@),
    ensures
        first_missing_model(es, models) == Some(k),
    decreases es.len(),
{
    if k < es.len() - 1 {
        assert(es.drop_last().take(k) =~= es.take(k));
        lemma_first_missing_prefix(es.drop_last(), models, k);
    } else {
        assert(es.take(k) =~= es.drop_last());
    }
}

/// The extension of the file a path names, as `std::path::Path::extension`
/// gives it.
pub uninterp spec fn path_extension_of(path: Seq<char>) -> Option<Seq<char>>;

/// `Path::new(path).extension()`: for a bare file name (no `/`, no `\`,
/// no `:`, not `..`; on Windows `\` also separates components and `:`
/// ends a prefix), nothing when it holds no `.` or only a leading one, else
/// the text after its last `.`.
#[verifier::external_body]
fn path_extension(path: &str) -> (r: Option<String>)
    ensures
        match r {
            Some(e) => path_extension_of(path@) == Some(e@),
            None => path_extension_of(path@) is None,
        },
        !path@.contains('/') && !path@.contains('\\') && !path@.contains(':') && path@ != ".."@ ==> match r {
            Some(e) => bare_name_extension(path@) == Some(e@),
            None => bare_name_extension(path@) is None,
        },
{
    std::path::Path::new(path).extension().and_then(|e| e.to_str()).map(|e| e.to_string())
}

/// The final component of a path, as `std::path::Path::file_name` gives it.
pub uninterp spec fn path_file_name_of(path: Seq<char>) -> Option<Seq<char>>;

/// `Path::new(path).file_name()`: the final component of the path when it
/// is a normal one; a bare name (no `/`, no `\`, no `:`, not empty, `.`
/// or `..`; on Windows `\` also separates components and `:` ends a
/// prefix) is its own final component.
#[verifier::external_body]
fn path_file_name(path: &str) -> (r: Option<String>)
    ensures
        match r {
            Some(n) => path_file_name_of(path@) == Some(n@),
            None => path_file_name_of(path@) is None,
        },
        !path@.contains('/') && !path@.contains('\\') && !path@.contains(':') && 0 < path@.len() && path@ != "."@
            && path@ != ".."@ ==> match r {
            Some(n) => n@ == path@,
            None => false,
        },
{
    std::path::Path::new(path).file_name().and_then(|n| n.to_str()).map(|n| n.to_string())
}

/// The name a file given by the user is kept under in the services
/// directory: the final component of what was given, so that no other
/// directory is reached; refused when there is none.
pub fn service_file_name(filename: &str) -> (r: Result<String, ConfigError>)
    ensures
        match path_file_name_of(filename@) {
            Some(n) => r matches Ok(x) && x@ == n,
            None => r matches Err(e) && e.message@ == "Invalid path: no filename"@
                && (e.suggestion matches Some(sg) && sg@ == "Provide a valid filename"@),
        },
        !filename@.contains('/') && !filename@.contains('\\') && !filename@.contains(':') && 0 < filename@.len()
            && filename@ != "."@ && filename@ != ".."@ ==> (r matches Ok(x) && x@ == filename@),
{
    match path_file_name(filename) {
        Some(n) => Ok(n),
        None => Err(ConfigError {
            message: String::from_str("Invalid path: no filename"),
            suggestion: Some(String::from_str("Provide a valid filename")),
        }),
    }
}

/// The position of the last `.` of a name, if any.
pub open spec fn last_dot(s: Seq<char>) -> Option<int>
    decreases s.len(),
{
    if s.len() == 0 {
        None
    } else if s.last() == '.' {
        Some(s.len() - 1)
    } else {
        last_dot(s.drop_last())
    }
}

/// The extension of a bare file name: the text after its last `.`, unless
/// there is no `.` or the only one leads.
pub open spec fn bare_name_extension(s: Seq<char>) -> Option<Seq<char>> {
    match last_dot(s) {
        Some(i) => if i == 0 { None } else { Some(s.skip(i + 1)) },
        None => None,
    }
}

/// A file counts as YAML when its extension is `yaml` or `yml`, in any ASCII
/// case.
pub open spec fn yaml_path(path: Seq<char>) -> bool {
    match path_extension_of(path) {
        Some(e) => eq_ignore_ascii_case_spec(e, "yaml"@) || eq_ignore_ascii_case_spec(e, "yml"@),
        None => false,
    }
}

/// Reads service definitions from a directory tree.
pub struct ConfigFileLoader {
    pub root: String,
}

impl ConfigFileLoader {
    /// A loader for the files under `root`.
    pub fn new(root: String) -> (r: Self)
        ensures
            r.root == root,
    {
        ConfigFileLoader { root }
    }

    /// Whether a path names a YAML file.
    pub fn is_yaml(path: &str) -> (b: bool)
        ensures
            b == yaml_path(path@),
    {
        match path_extension(path) {
            Some(e) => crate::text::eq_ignore_ascii_case(e.as_str(), "yaml")
                || crate::text::eq_ignore_ascii_case(e.as_str(), "yml"),
            None => false,
        }
    }
}

/// The schema reference errors of the endpoints: each request body schema
/// that names no defined model (or any, when the service defines none).
pub open spec fn schema_reference_errors(eps: Seq<EndpointDefinition>, models: Option<Seq<Seq<char>>>) -> Seq<ErrorView>
    decreases eps.len(),
{
    if eps.len() == 0 {
        Seq::empty()
    } else {
        let prev = schema_reference_errors(eps.drop_last(), models);
        let field = "endpoints["@ + decimal((eps.len() - 1) as nat) + "].request_body.schema"@;
        match eps.last().request_body {
            Some(rb) => match rb.schema {
                Some(sch) => match models {
                    Some(ms) => if ms.contains(sch@) {
                        prev
                    } else {
                        prev.push((field, "Schema reference '"@ + sch@ + "' not found in models"@, Some(
                            "Define the '"@ + sch@ + "' model in the models section or use an existing model name"@)))
                    },
                    None => prev.push((field, "Schema reference '"@ + sch@ + "' used but no models are defined"@,
                        Some("Define models in the models section or remove the schema reference"@))),
                },
                None => prev,
            },
            None => prev,
        }
    }
}

/// The names of the models a service defines, if it defines any.
pub open spec fn models_view(s: ServiceDefinition) -> Option<Seq<Seq<char>>> {
    match s.models {
        Some(ms) => Some(entry_names(ms@)),
        None => None,
    }
}

/// Checks that request body schemas name defined models.
pub fn validate_schema_references(service: &ServiceDefinition) -> (r: Result<(), Vec<ValidationError>>)
    ensures
        reports(r, schema_reference_errors(service.endpoints@, models_view(*service))),
{
    let ghost models = models_view(*service);
    let eps = &service.endpoints;
    let mut errors: Vec<ValidationError> = Vec::new();
    let mut i: usize = 0;
    assert(errors_view(errors@) =~= Seq::<ErrorView>::empty());
    while i < eps.len()
        invariant
            i <= eps@.len(),
            eps@ == service.endpoints@,
            models == models_view(*service),
            errors_view(errors@) == schema_reference_errors(eps@.take(i as int), models),
        decreases eps@.len() - i,
    {
        proof {
            assert(eps@.take(i + 1).drop_last() =~= eps@.take(i as int));
        }
        if let Some(rb) = &eps[i].request_body {
            if let Some(schema) = &rb.schema {
                let mut field = String::from_str("endpoints[");
                let idx = usize_to_string(i);
                field.append(idx.as_str());
                field.append("].request_body.schema");
                match &service.models {
                    Some(ms) => {
                        if !model_defined(ms, schema.as_str()) {
                            let mut message = String::from_str("Schema reference '");
                            message.append(schema.as_str());
                            message.append("' not found in models");
                            let mut suggestion = String::from_str("Define the '");
                            suggestion.append(schema.as_str());
                            suggestion.append("' model in the models section or use an existing model name");
                            let ghost before = errors@;
                            errors.push(ValidationError { field, message, suggestion: Some(suggestion) });
                            assert(errors_view(errors@) =~= errors_view(before).push(error_view(errors@.last())));
                        }
                    },
                    None => {
                        let mut message = String::from_str("Schema reference '");
                        message.append(schema.as_str());
                        message.append("' used but no models are defined");
                        let ghost before = errors@;
                        errors.push(ValidationError {
                            field,
                            message,
                            suggestion: Some(String::from_str("Define models in the models section or remove the schema reference")),
                        });
                        assert(errors_view(errors@) =~= errors_view(before).push(error_view(errors@.last())));
                    },
                }
            }
        }
        i = i + 1;
    }
    assert(eps@.take(eps@.len() as int) =~= eps@);
    finish(errors)
}

/// The kind of a JSON value, as the fixture checks name it.
pub open spec fn json_kind(d: JsonData) -> Seq<char> {
    match d {
        JsonData::Str(_) => "string"@,
        JsonData::Number(_) => "number"@,
        JsonData::Bool(_) => "boolean"@,
        JsonData::Array(_) => "array"@,
        JsonData::Object(_) => "object"@,
        JsonData::Null => "null"@,
    }
}

/// The kind of a JSON value.
fn json_kind_name(v: &JsonValue) -> (r: &'static str)
    ensures
        r@ == json_kind(json_data(*v)),
{
    match v {
        JsonValue::Str(_) => "string",
        JsonValue::Number(_) => "number",
        JsonValue::Bool(_) => "boolean",
        JsonValue::Array(_) => "array",
        JsonValue::Object(_) => "object",
        JsonValue::Null => "null",
    }
}

/// Errors of one model: a blank name, and a schema that is not an object, or
/// an object without `type`, or of type `object` without `properties`.
pub open spec fn model_errors(name: Seq<char>, schema: JsonData) -> Seq<ErrorView> {
    non_empty_errors(name, "models."@ + name) + match schema {
        JsonData::Object(fs) => (if data_field(fs, "type"@) is None {
            seq![("models."@ + name + ".type"@, "Model schema must have a 'type' field"@,
                Some("Add a 'type' field with value 'object' for most models"@))]
        } else {
            Seq::empty()
        }) + (if data_field(fs, "type"@) == Some(JsonData::Str("object"@)) && data_field(fs, "properties"@) is None {
            seq![("models."@ + name + ".properties"@, "Object type models should have a 'properties' field"@,
                Some("Add a 'properties' field defining the object's properties"@))]
        } else {
            Seq::empty()
        }),
        _ => seq![("models."@ + name, "Model schema must be a JSON object"@,
            Some("Define the model as a JSON object with type and properties"@))],
    }
}

/// Errors of the models, in their order.
pub open spec fn models_errors(models: Seq<(Seq<char>, JsonData)>) -> Seq<ErrorView>
    decreases models.len(),
{
    if models.len() == 0 {
        Seq::empty()
    } else {
        models_errors(models.drop_last()) + model_errors(models.last().0, models.last().1)
    }
}

/// Errors for required fields missing from a fixture item.
pub open spec fn required_errors(required: Seq<JsonData>, item: Seq<(Seq<char>, JsonData)>, path: Seq<char>) -> Seq<ErrorView>
    decreases required.len(),
{
    if required.len() == 0 {
        Seq::empty()
    } else {
        required_errors(required.drop_last(), item, path) + match required.last() {
            JsonData::Str(f) => if data_field(item, f) is None {
                seq![(path + "."@ + f, "Required field '"@ + f + "' is missing"@,
                    Some("Add the required field '"@ + f + "' to the fixture item"@))]
            } else {
                Seq::empty()
            },
            _ => Seq::empty(),
        }
    }
}

/// The error for a member whose kind differs from the type its property
/// schema gives (a number passes for `integer`).
pub open spec fn member_type_errors(name: Seq<char>, value: JsonData, props: Seq<(Seq<char>, JsonData)>, path: Seq<char>) -> Seq<ErrorView> {
    match data_field(props, name) {
        Some(JsonData::Object(pf)) => match data_field(pf, "type"@) {
            Some(JsonData::Str(expected)) => {
                let actual = json_kind(value);
                if expected != actual && !(expected == "integer"@ && actual == "number"@) {
                    seq![(path + "."@ + name, "Expected type '"@ + expected + "' but found '"@ + actual + "'"@,
                        Some("Change the value to match the expected type '"@ + expected + "'"@))]
                } else {
                    Seq::empty()
                }
            },
            _ => Seq::empty(),
        },
        _ => Seq::empty(),
    }
}

/// Type errors of a fixture item's members, in their order.
pub open spec fn type_errors(item: Seq<(Seq<char>, JsonData)>, props: Seq<(Seq<char>, JsonData)>, path: Seq<char>) -> Seq<ErrorView>
    decreases item.len(),
{
    if item.len() == 0 {
        Seq::empty()
    } else {
        type_errors(item.drop_last(), props, path) + member_type_errors(item.last().0, item.last().1, props, path)
    }
}

/// Errors of a fixture item against a model schema with object
/// `properties`: required members missing and members of the wrong kind,
/// or the item not being an object. Other schemas check nothing.
pub open spec fn fixture_item_errors(item: JsonData, schema: JsonData, path: Seq<char>) -> Seq<ErrorView> {
    match schema {
        JsonData::Object(sf) => match data_field(sf, "properties"@) {
            Some(JsonData::Object(props)) => match item {
                JsonData::Object(fs) => required_errors(match data_field(sf, "required"@) {
                    Some(JsonData::Array(reqs)) => reqs,
                    _ => Seq::empty(),
                }, fs, path) + type_errors(fs, props, path),
                _ => seq![(path, "Expected object type for fixture item"@, Some("Ensure fixture items are JSON objects"@))],
            },
            _ => Seq::empty(),
        },
        _ => Seq::empty(),
    }
}

/// Errors of the items of an array fixture, each checked at its index.
pub open spec fn fixture_items_errors(items: Seq<JsonData>, schema: JsonData, path: Seq<char>) -> Seq<ErrorView>
    decreases items.len(),
{
    if items.len() == 0 {
        Seq::empty()
    } else {
        fixture_items_errors(items.drop_last(), schema, path)
            + fixture_item_errors(items.last(), schema, path + "["@ + crate::text::decimal((items.len() - 1) as nat) + "]"@)
    }
}

/// Errors of one fixture: checked against the model of the same name when
/// there is one, item by item when it is an array.
pub open spec fn fixture_errors(name: Seq<char>, data: JsonData, models: Seq<(Seq<char>, JsonData)>) -> Seq<ErrorView> {
    match data_field(models, name) {
        Some(schema) => match data {
            JsonData::Array(items) => fixture_items_errors(items, schema, "fixtures."@ + name),
            _ => fixture_item_errors(data, schema, "fixtures."@ + name),
        },
        None => Seq::empty(),
    }
}

/// Errors of the fixtures, in their order.
pub open spec fn fixtures_errors(fixtures: Seq<(Seq<char>, JsonData)>, models: Seq<(Seq<char>, JsonData)>) -> Seq<ErrorView>
    decreases fixtures.len(),
{
    if fixtures.len() == 0 {
        Seq::empty()
    } else {
        fixtures_errors(fixtures.drop_last(), models) + fixture_errors(fixtures.last().0, fixtures.last().1, models)
    }
}

fn push_required_errors(errors: &mut Vec<ValidationError>, required: &Vec<JsonValue>, item: &Vec<(String, JsonValue)>, path: &str)
    ensures
        errors_view(final(errors)@) == errors_view(old(errors)@) + required_errors(items_data(required@), fields_data(item@), path@),
{
    let ghost e0 = errors_view(errors@);
    let ghost rd = items_data(required@);
    proof {
        lemma_items_data_ext(required@);
        assert(rd.take(0) =~= Seq::<JsonData>::empty());
        assert(e0 + required_errors(rd.take(0), fields_data(item@), path@) =~= e0);
    }
    let mut k: usize = 0;
    while k < required.len()
        invariant
            k <= required@.len(),
            rd == items_data(required@),
            rd.len() == required@.len(),
            forall|i: int| 0 <= i < required@.len() ==> #[trigger] rd[i] == json_data(required@[i]),
            errors_view(errors@) == e0 + required_errors(rd.take(k as int), fields_data(item@), path@),
        decreases required@.len() - k,
    {
        proof {
            assert(rd.take(k + 1).drop_last() =~= rd.take(k as int));
            assert(rd.take(k + 1).last() == json_data(required@[k as int]));
        }
        let ghost before = errors_view(errors@);
        if let JsonValue::Str(f) = &required[k] {
            proof {
                lemma_field_of_data(item@, f@);
            }
            if object_get(item, f.as_str()).is_none() {
                let mut field = String::from_str(path);
                field.append(".");
                field.append(f.as_str());
                let mut message = String::from_str("Required field '");
                message.append(f.as_str());
                message.append("' is missing");
                let mut suggestion = String::from_str("Add the required field '");
                suggestion.append(f.as_str());
                suggestion.append("' to the fixture item");
                push_error(errors, ValidationError { field, message, suggestion: Some(suggestion) });
            }
        }
        assert(errors_view(errors@) =~= e0 + required_errors(rd.take(k + 1), fields_data(item@), path@));
        k = k + 1;
    }
    assert(rd.take(required@.len() as int) =~= rd);
}

fn push_member_type_errors(errors: &mut Vec<ValidationError>, name: &str, value: &JsonValue,
    props: &Vec<(String, JsonValue)>, path: &str)
    ensures
        errors_view(final(errors)@) == errors_view(old(errors)@)
            + member_type_errors(name@, json_data(*value), fields_data(props@), path@),
{
    proof {
        lemma_field_of_data(props@, name@);
    }
    match object_get(props, name) {
        Some(ps) => match ps {
            JsonValue::Object(pf) => {
                proof {
                    lemma_field_of_data(pf@, "type"@);
                }
                match object_get(pf, "type") {
                    Some(t) => match t {
                        JsonValue::Str(expected) => {
                            let actual = json_kind_name(value);
                            if !crate::text::str_eq(expected.as_str(), actual)
                                && !(crate::text::str_eq(expected.as_str(), "integer") && crate::text::str_eq(actual, "number")) {
                                let mut field = String::from_str(path);
                                field.append(".");
                                field.append(name);
                                let mut message = String::from_str("Expected type '");
                                message.append(expected.as_str());
                                message.append("' but found '");
                                message.append(actual);
                                message.append("'");
                                let mut suggestion = String::from_str("Change the value to match the expected type '");
                                suggestion.append(expected.as_str());
                                suggestion.append("'");
                                push_error(errors, ValidationError { field, message, suggestion: Some(suggestion) });
                            } else {
                                assert(errors_view(errors@) =~= errors_view(old(errors)@)
                                    + member_type_errors(name@, json_data(*value), fields_data(props@), path@));
                            }
                        },
                        _ => {
                            assert(errors_view(errors@) =~= errors_view(old(errors)@)
                                + member_type_errors(name@, json_data(*value), fields_data(props@), path@));
                        },
                    },
                    None => {
                        assert(errors_view(errors@) =~= errors_view(old(errors)@)
                            + member_type_errors(name@, json_data(*value), fields_data(props@), path@));
                    },
                }
            },
            _ => {
                assert(errors_view(errors@) =~= errors_view(old(errors)@)
                    + member_type_errors(name@, json_data(*value), fields_data(props@), path@));
            },
        },
        None => {
            assert(errors_view(errors@) =~= errors_view(old(errors)@)
                + member_type_errors(name@, json_data(*value), fields_data(props@), path@));
        },
    }
}

fn push_type_errors(errors: &mut Vec<ValidationError>, item: &Vec<(String, JsonValue)>, props: &Vec<(String, JsonValue)>, path: &str)
    ensures
        errors_view(final(errors)@) == errors_view(old(errors)@) + type_errors(fields_data(item@), fields_data(props@), path@),
{
    let ghost e0 = errors_view(errors@);
    let ghost fd = fields_data(item@);
    proof {
        lemma_fields_data_ext(item@);
        assert(fd.take(0) =~= Seq::<(Seq<char>, JsonData)>::empty());
        assert(e0 + type_errors(fd.take(0), fields_data(props@), path@) =~= e0);
    }
    let mut k: usize = 0;
    while k < item.len()
        invariant
            k <= item@.len(),
            fd == fields_data(item@),
            fd.len() == item@.len(),
            forall|i: int| 0 <= i < item@.len() ==> #[trigger] fd[i] == (item@[i].0@, json_data(item@[i].1)),
            errors_view(errors@) == e0 + type_errors(fd.take(k as int), fields_data(props@), path@),
        decreases item@.len() - k,
    {
        proof {
            assert(fd.take(k + 1).drop_last() =~= fd.take(k as int));
            assert(fd.take(k + 1).last() == fd[k as int]);
        }
        push_member_type_errors(errors, item[k].0.as_str(), &item[k].1, props, path);
        assert(errors_view(errors@) =~= e0 + type_errors(fd.take(k + 1), fields_data(props@), path@));
        k = k + 1;
    }
    assert(fd.take(item@.len() as int) =~= fd);
}

fn push_fixture_item_errors(errors: &mut Vec<ValidationError>, item: &JsonValue, schema: &JsonValue, path: &str)
    ensures
        errors_view(final(errors)@) == errors_view(old(errors)@) + fixture_item_errors(json_data(*item), json_data(*schema), path@),
{
    match schema {
        JsonValue::Object(sf) => {
            proof {
                lemma_field_of_data(sf@, "properties"@);
                lemma_field_of_data(sf@, "required"@);
            }
            match object_get(sf, "properties") {
                Some(p) => match p {
                    JsonValue::Object(props) => match item {
                        JsonValue::Object(fs) => {
                            let ghost e0 = errors_view(errors@);
                            match object_get(sf, "required") {
                                Some(JsonValue::Array(reqs)) => {
                                    push_required_errors(errors, reqs, fs, path);
                                },
                                _ => {
                                    assert(required_errors(Seq::<JsonData>::empty(), fields_data(fs@), path@) =~= Seq::<ErrorView>::empty());
                                    assert(errors_view(errors@) =~= e0 + required_errors(Seq::<JsonData>::empty(), fields_data(fs@), path@));
                                },
                            }
                            push_type_errors(errors, fs, props, path);
                            assert(errors_view(errors@) =~= errors_view(old(errors)@)
                                + fixture_item_errors(json_data(*item), json_data(*schema), path@));
                        },
                        _ => {
                            push_error(errors, make_error(path, "Expected object type for fixture item",
                                "Ensure fixture items are JSON objects"));
                        },
                    },
                    _ => {
                        assert(errors_view(errors@) =~= errors_view(old(errors)@)
                            + fixture_item_errors(json_data(*item), json_data(*schema), path@));
                    },
                },
                None => {
                    assert(errors_view(errors@) =~= errors_view(old(errors)@)
                        + fixture_item_errors(json_data(*item), json_data(*schema), path@));
                },
            }
        },
        _ => {
            assert(errors_view(errors@) =~= errors_view(old(errors)@)
                + fixture_item_errors(json_data(*item), json_data(*schema), path@));
        },
    }
}

impl ServiceDefinition {
    /// Checks model schemas for basic JSON Schema shape.
    pub fn validate_models(&self, models: &Vec<(String, JsonValue)>) -> (r: Result<(), Vec<ValidationError>>)
        ensures
            reports(r, models_errors(fields_data(models@))),
    {
        let mut errors: Vec<ValidationError> = Vec::new();
        let ghost md = fields_data(models@);
        proof {
            lemma_fields_data_ext(models@);
            assert(md.take(0) =~= Seq::<(Seq<char>, JsonData)>::empty());
            assert(errors_view(errors@) =~= models_errors(md.take(0)));
        }
        let mut k: usize = 0;
        while k < models.len()
            invariant
                k <= models@.len(),
                md == fields_data(models@),
                md.len() == models@.len(),
                forall|i: int| 0 <= i < models@.len() ==> #[trigger] md[i] == (models@[i].0@, json_data(models@[i].1)),
                errors_view(errors@) == models_errors(md.take(k as int)),
            decreases models@.len() - k,
        {
            proof {
                assert(md.take(k + 1).drop_last() =~= md.take(k as int));
                assert(md.take(k + 1).last() == md[k as int]);
            }
            let name = models[k].0.as_str();
            let schema = &models[k].1;
            let ghost e0 = errors_view(errors@);
            let prefix = concat2("models.", name);
            push_non_empty(&mut errors, name, prefix.as_str());
            let ghost e1 = errors_view(errors@);
            match schema {
                JsonValue::Object(fs) => {
                    proof {
                        lemma_field_of_data(fs@, "type"@);
                        lemma_field_of_data(fs@, "properties"@);
                    }
                    let t = object_get(fs, "type");
                    if t.is_none() {
                        push_error(&mut errors, make_error(concat2(prefix.as_str(), ".type").as_str(),
                            "Model schema must have a 'type' field", "Add a 'type' field with value 'object' for most models"));
                    }
                    let is_object = match t {
                        Some(JsonValue::Str(v)) => crate::text::str_eq(v.as_str(), "object"),
                        _ => false,
                    };
                    if is_object && object_get(fs, "properties").is_none() {
                        push_error(&mut errors, make_error(concat2(prefix.as_str(), ".properties").as_str(),
                            "Object type models should have a 'properties' field",
                            "Add a 'properties' field defining the object's properties"));
                    }
                },
                _ => {
                    push_error(&mut errors, make_error(prefix.as_str(), "Model schema must be a JSON object",
                        "Define the model as a JSON object with type and properties"));
                },
            }
            assert(errors_view(errors@) =~= models_errors(md.take(k + 1)));
            k = k + 1;
        }
        assert(md.take(models@.len() as int) =~= md);
        finish(errors)
    }

    /// Checks fixtures against the models of the same name.
    pub fn validate_fixtures_against_models(&self, fixtures: &Vec<(String, JsonValue)>, models: &Vec<(String, JsonValue)>)
        -> (r: Result<(), Vec<ValidationError>>)
        ensures
            reports(r, fixtures_errors(fields_data(fixtures@), fields_data(models@))),
    {
        let mut errors: Vec<ValidationError> = Vec::new();
        let ghost fd = fields_data(fixtures@);
        let ghost md = fields_data(models@);
        proof {
            lemma_fields_data_ext(fixtures@);
            assert(fd.take(0) =~= Seq::<(Seq<char>, JsonData)>::empty());
            assert(errors_view(errors@) =~= fixtures_errors(fd.take(0), md));
        }
        let mut k: usize = 0;
        while k < fixtures.len()
            invariant
                k <= fixtures@.len(),
                fd == fields_data(fixtures@),
                md == fields_data(models@),
                fd.len() == fixtures@.len(),
                forall|i: int| 0 <= i < fixtures@.len() ==> #[trigger] fd[i] == (fixtures@[i].0@, json_data(fixtures@[i].1)),
                errors_view(errors@) == fixtures_errors(fd.take(k as int), md),
            decreases fixtures@.len() - k,
        {
            proof {
                assert(fd.take(k + 1).drop_last() =~= fd.take(k as int));
                assert(fd.take(k + 1).last() == fd[k as int]);
            }
            let name = fixtures[k].0.as_str();
            let data = &fixtures[k].1;
            let ghost e0 = errors_view(errors@);
            proof {
                lemma_field_of_data(models@, name@);
            }
            match object_get(models, name) {
                Some(schema) => {
                    let prefix = concat2("fixtures.", name);
                    match data {
                        JsonValue::Array(items) => {
                            let ghost idata = items_data(items@);
                            proof {
                                lemma_items_data_ext(items@);
                                assert(idata.take(0) =~= Seq::<JsonData>::empty());
                                assert(e0 + fixture_items_errors(idata.take(0), json_data(*schema), prefix@) =~= e0);
                            }
                            let mut i: usize = 0;
                            while i < items.len()
                                invariant
                                    i <= items@.len(),
                                    idata == items_data(items@),
                                    idata.len() == items@.len(),
                                    forall|j: int| 0 <= j < items@.len() ==> #[trigger] idata[j] == json_data(items@[j]),
                                    errors_view(errors@) == e0 + fixture_items_errors(idata.take(i as int), json_data(*schema), prefix@),
                                decreases items@.len() - i,
                            {
                                proof {
                                    assert(idata.take(i + 1).drop_last() =~= idata.take(i as int));
                                    assert(idata.take(i + 1).last() == json_data(items@[i as int]));
                                }
                                let idx = crate::text::usize_to_string(i);
                                let path = concat3(prefix.as_str(), "[", idx.as_str());
                                let path = concat2(path.as_str(), "]");
                                push_fixture_item_errors(&mut errors, &items[i], schema, path.as_str());
                                assert(errors_view(errors@) =~= e0 + fixture_items_errors(idata.take(i + 1), json_data(*schema), prefix@));
                                i = i + 1;
                            }
                            assert(idata.take(items@.len() as int) =~= idata);
                        },
                        _ => {
                            push_fixture_item_errors(&mut errors, data, schema, prefix.as_str());
                        },
                    }
                },
                None => {},
            }
            assert(errors_view(errors@) =~= fixtures_errors(fd.take(k + 1), md));
            k = k + 1;
        }
        assert(fd.take(fixtures@.len() as int) =~= fd);
        finish(errors)
    }

    /// Checks one fixture item against a model schema.
    pub fn validate_fixture_item_basic(&self, item: &JsonValue, schema: &JsonValue, field_path: &str)
        -> (r: Result<(), Vec<ValidationError>>)
        ensures
            reports(r, fixture_item_errors(json_data(*item), json_data(*schema), field_path@)),
    {
        let mut errors: Vec<ValidationError> = Vec::new();
        push_fixture_item_errors(&mut errors, item, schema, field_path);
        assert(errors_view(errors@) =~= fixture_item_errors(json_data(*item), json_data(*schema), field_path@));
        finish(errors)
    }
}


/// Every standard HTTP method is accepted, in any letter case: an endpoint
/// whose method upper-cases to GET, POST, PUT, DELETE, PATCH, HEAD or
/// OPTIONS, whose path starts with `/` and whose responses (at least one)
/// are valid, validates without any error.
pub proof fn lemma_standard_methods_accepted(e: EndpointDefinition)
    requires
        crate::text::unicode_upper(e.method@) == "GET"@ || crate::text::unicode_upper(e.method@) == "POST"@
            || crate::text::unicode_upper(e.method@) == "PUT"@ || crate::text::unicode_upper(e.method@) == "DELETE"@
            || crate::text::unicode_upper(e.method@) == "PATCH"@ || crate::text::unicode_upper(e.method@) == "HEAD"@
            || crate::text::unicode_upper(e.method@) == "OPTIONS"@,
        has_prefix(e.path@, "/"@),
        e.responses@.len() > 0,
        responses_errors(e.responses@).len() == 0,
    ensures
        endpoint_errors(e) == Seq::<ErrorView>::empty(),
{
    reveal_strlit("/");
    assert(e.path@.subrange(0, 1) == "/"@);
    assert(e.path@.subrange(0, 1)[0] == e.path@[0]);
    assert(e.path@[0] == '/');
    assert(!crate::text::unicode_whitespace(e.path@[0]));
    assert(!is_blank(e.path@));
    assert(endpoint_errors(e) =~= Seq::<ErrorView>::empty());
}

} // verus!
