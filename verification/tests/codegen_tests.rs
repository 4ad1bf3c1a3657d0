use apicentric::axios_client::{format_params as axios_params, generate_client_method, to_axios_client};
use apicentric::codegen::{build_url, capitalize, hook_name, method_name, path_params};
use apicentric::config::{EndpointDefinition, EndpointKind, ServerConfig, ServiceDefinition};
use apicentric::react_query::{format_params as hook_params, to_react_query};
use apicentric::react_view::to_react_view;

fn endpoint(method: &str, path: &str) -> EndpointDefinition {
    EndpointDefinition {
        kind: EndpointKind::Http,
        method: method.into(),
        path: path.into(),
        header_match: None,
        description: None,
        parameters: None,
        request_body: None,
        responses: Vec::new(),
        scenarios: None,
        stream: None,
    }
}

fn service(name: &str, base_path: &str, endpoints: Vec<EndpointDefinition>) -> ServiceDefinition {
    ServiceDefinition {
        name: name.into(),
        version: None,
        description: None,
        server: ServerConfig {
            port: None,
            base_path: base_path.into(),
            proxy_base_url: None,
            cors: None,
            record_unknown: false,
        },
        models: None,
        fixtures: None,
        bucket: None,
        endpoints,
        graphql: None,
        behavior: None,
    }
}

#[test]
fn generates_axios_client() {
    let service = service(
        "Pet",
        "/api",
        vec![endpoint("GET", "/pets"), endpoint("POST", "/pets"), endpoint("GET", "/pets/{id}")],
    );
    let ts = to_axios_client(&service).unwrap();
    assert!(ts.contains("class PetClient"));
    assert!(ts.contains("async getPets()"));
    assert!(ts.contains("async postPets(data?: any)"));
    assert!(ts.contains("async getPetsId(id: string)"));
    assert!(ts.contains("/api/pets"));
}

#[test]
fn generates_query_and_mutation() {
    let service = service("Test", "/api", vec![endpoint("GET", "/pets"), endpoint("POST", "/pets")]);
    let ts = to_react_query(&service).unwrap();
    assert!(ts.contains("usePetsQuery"));
    assert!(ts.contains("usePostPetsMutation"));
    assert!(ts.contains("/api/pets"));
}

#[test]
fn generates_view_with_query_and_mutation() {
    let service = service("Test", "/api", vec![endpoint("GET", "/pets"), endpoint("POST", "/pets")]);
    let tsx = to_react_view(&service).unwrap();
    assert!(tsx.contains("ServiceView"));
    assert!(tsx.contains("usePetsQuery"));
    assert!(tsx.contains("usePostPetsMutation"));
}

#[test]
fn capitalize_upper_cases_first_character_only() {
    assert_eq!(capitalize("pets"), "Pets");
    assert_eq!(capitalize(""), "");
    assert_eq!(capitalize("éclair"), "Éclair");
    assert_eq!(capitalize("ßx"), "SSx");
}

#[test]
fn path_params_lists_braced_segments() {
    assert_eq!(path_params("/users/{userId}/orders/{orderId}"), vec!["userId".to_string(), "orderId".to_string()]);
    assert!(path_params("/users").is_empty());
    assert_eq!(path_params("/a/{}/b"), vec!["".to_string()]);
}

#[test]
fn build_url_joins_and_templates() {
    let params = vec!["id".to_string()];
    assert_eq!(build_url("/api/", "/pets/{id}", &params), "/api/pets/${id}");
    assert_eq!(build_url("/", "pets", &Vec::new()), "/pets");
    let twice = vec!["id".to_string(), "id".to_string()];
    assert_eq!(build_url("/api", "/a/{id}/b/{id}", &twice), "/api/a/$${id}/b/$${id}");
}

#[test]
fn names_of_methods_and_hooks() {
    assert_eq!(method_name(&endpoint("GET", "/pets/{id}")), "getPetsId");
    assert_eq!(method_name(&endpoint("DELETE", "/")), "delete");
    assert_eq!(hook_name(&endpoint("GET", "/pets/{id}"), true), "usePetsIdQuery");
    assert_eq!(hook_name(&endpoint("PUT", "/pets"), false), "usePutPetsMutation");
}

#[test]
fn parameter_lists_of_both_generators() {
    let ps = vec!["a".to_string(), "b".to_string()];
    assert_eq!(axios_params(&ps), "a: string, b: string");
    assert_eq!(hook_params(&ps), ", a: string, b: string");
    assert_eq!(axios_params(&Vec::new()), "");
}

#[test]
fn client_method_text_is_exact() {
    let get = generate_client_method(&endpoint("GET", "/pets/{id}"), "/api");
    assert_eq!(get, "  async getPetsId(id: string): Promise<any> {\n    return this.client.get(`/api/pets/${id}`);\n  }\n");
    let put = generate_client_method(&endpoint("PUT", "/pets/{id}"), "/api");
    assert_eq!(put, "  async putPetsId(id: string, data?: any): Promise<any> {\n    return this.client.put(`/api/pets/${id}`, data);\n  }\n");
}

#[test]
fn axios_client_skips_non_http_endpoints() {
    let mut ws = endpoint("GET", "/socket");
    ws.kind = EndpointKind::WebSocket;
    let ts = to_axios_client(&service("chat", "/", vec![ws])).unwrap();
    assert!(ts.contains("export class ChatClient {"));
    assert!(!ts.contains("socket"));
    assert!(ts.ends_with("  }\n\n}\n"));
}

#[test]
fn react_view_text_for_one_mutation() {
    let tsx = to_react_view(&service("T", "/api", vec![endpoint("POST", "/pets/{id}")])).unwrap();
    let expected = [
        "import React, { useState } from 'react';\n",
        "import { usePostPetsIdMutation } from './hooks';\n\n",
        "export interface ServiceViewProps { baseUrl: string }\n",
        "export function ServiceView({ baseUrl }: ServiceViewProps) {\n",
        "  const [id, setId] = useState<string>('');\n",
        "  const [body0, setBody0] = useState<string>('');\n",
        "  const mutation0 = usePostPetsIdMutation(baseUrl, id);\n",
        "  return (\n    <div>\n",
        "      <form onSubmit={e => { e.preventDefault(); mutation0.mutate(body0); }}>\n",
        "        <input value={id} onChange={e => setId(e.target.value)} />\n",
        "        <input value={body0} onChange={e => setBody0(e.target.value)} />\n",
        "        <button type=\"submit\">Submit</button>\n      </form>\n",
        "    </div>\n  );\n}\n",
    ]
    .concat();
    assert_eq!(tsx, expected);
}

#[test]
fn react_query_text_for_a_query() {
    let ts = to_react_query(&service("T", "/api", vec![endpoint("get", "/pets")])).unwrap();
    assert_eq!(
        ts,
        "import { useQuery, useMutation } from '@tanstack/react-query';\n\nexport function usePetsQuery(baseUrl: string) {\n    return useQuery(['GET','/pets'], () => fetch(`${baseUrl}/api/pets`).then(res => res.json()));\n}\n\n"
    );
}
