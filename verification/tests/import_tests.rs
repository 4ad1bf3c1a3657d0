use apicentric::config::{EndpointDefinition, EndpointKind, ResponseDefinition, ServerConfig, ServiceDefinition};
use apicentric::json::JsonValue;
use apicentric::mockoon::{choose_environment, convert, MockoonEnvironment, MockoonHeader, MockoonResponse, MockoonRoute};
use apicentric::openapi::{
    convert_openapi3, extract_base_path, format_json_value, from_openapi, generate_example_from_schema_v3,
    infer_schema_type, pick_media_type, OpenApi3Components, OpenApi3Document, OpenApi3Example, OpenApi3Info,
    OpenApi3MediaType, OpenApi3Operation, OpenApi3Parameter, OpenApi3PathItem, OpenApi3RequestBody,
    OpenApi3Response, OpenApi3Server, to_openapi,
};
use apicentric::config::RequestBodyDefinition;
use apicentric::config::ParameterLocation;
use apicentric::postman::{extract_postman_path, from_json, from_str, to_postman};

fn s(v: &str) -> JsonValue {
    JsonValue::Str(v.to_string())
}

fn n(v: &str) -> JsonValue {
    JsonValue::Number(v.to_string())
}

fn obj(fields: Vec<(&str, JsonValue)>) -> JsonValue {
    JsonValue::Object(fields.into_iter().map(|(k, v)| (k.to_string(), v)).collect())
}

fn arr(items: Vec<JsonValue>) -> JsonValue {
    JsonValue::Array(items)
}

#[test]
fn postman_collection_with_folders() {
    let text = r#"{
        "info": {"name": "Pets"},
        "item": [
            {"name": "List", "request": {"method": "get", "url": {"raw": "http://example.com/pets?x=1"}},
             "response": [
                {"code": 200, "body": "[]", "header": [{"key": "Content-Type", "value": "text/plain"}, {"key": "X"}]},
                {"code": 404},
                {"code": 200, "body": "again"}
             ]},
            {"name": "Folder", "item": [
                {"request": {"url": {"path": ["pets", 7, "toys"]}}}
            ]},
            {"name": "NoRequest"}
        ]
    }"#;
    let svc = from_str(text).unwrap();
    assert_eq!(svc.name, "Pets");
    assert_eq!(svc.server.base_path, "/");
    assert_eq!(svc.server.port, None);
    assert_eq!(svc.endpoints.len(), 2);
    let list = &svc.endpoints[0];
    assert_eq!(list.method, "GET");
    assert_eq!(list.path, "/pets");
    assert_eq!(list.description.as_deref(), Some("List"));
    assert_eq!(list.responses.len(), 2);
    assert_eq!(list.responses[0].0, 200);
    assert_eq!(list.responses[0].1.body, "again");
    assert_eq!(list.responses[0].1.content_type, "application/json");
    assert!(list.responses[0].1.headers.is_none());
    assert_eq!(list.responses[1].0, 404);
    assert_eq!(list.responses[1].1.body, "");
    let nested = &svc.endpoints[1];
    assert_eq!(nested.method, "GET");
    assert_eq!(nested.path, "/pets/toys");
    assert_eq!(nested.description, None);
    assert_eq!(nested.responses.len(), 1);
    assert_eq!(nested.responses[0].0, 200);
    assert_eq!(nested.responses[0].1.content_type, "application/json");
}

#[test]
fn postman_response_headers_and_status_wrap() {
    let v = obj(vec![(
        "item",
        arr(vec![obj(vec![
            ("request", obj(vec![("method", s("post")), ("url", obj(vec![("raw", s("orders"))]))])),
            (
                "response",
                arr(vec![obj(vec![
                    ("code", n("65737")),
                    ("header", arr(vec![
                        obj(vec![("key", s("Content-Type")), ("value", s("text/xml"))]),
                        obj(vec![("key", s("X-A")), ("value", s("1"))]),
                        obj(vec![("key", s("X-A")), ("value", s("2"))]),
                    ])),
                ])]),
            ),
        ])]),
    )]);
    let svc = from_json(&v).unwrap();
    assert_eq!(svc.name, "Postman Service");
    let e = &svc.endpoints[0];
    assert_eq!(e.method, "POST");
    assert_eq!(e.path, "/orders");
    assert_eq!(e.responses[0].0, 201);
    assert_eq!(e.responses[0].1.content_type, "text/xml");
    let h = e.responses[0].1.headers.clone().unwrap();
    assert_eq!(h, vec![("Content-Type".to_string(), "text/xml".to_string()), ("X-A".to_string(), "2".to_string())]);
}

#[test]
fn insomnia_export_is_read() {
    let text = r#"{"resources": [
        {"_type": "workspace"},
        {"_type": "request", "method": "delete", "url": "/items/1", "name": "Remove"},
        {"_type": "workspace", "name": "Shop"},
        {"_type": "request", "url": "https://api.example.com/v2/cart"},
        {"_type": "request_group", "name": "ignored"}
    ]}"#;
    let svc = from_str(text).unwrap();
    assert_eq!(svc.name, "Shop");
    assert_eq!(svc.endpoints.len(), 2);
    assert_eq!(svc.endpoints[0].method, "DELETE");
    assert_eq!(svc.endpoints[0].path, "/items/1");
    assert_eq!(svc.endpoints[0].description.as_deref(), Some("Remove"));
    assert_eq!(svc.endpoints[1].method, "GET");
    assert_eq!(svc.endpoints[1].path, "/v2/cart");
    assert_eq!(svc.endpoints[1].responses.len(), 1);
    let empty = from_str(r#"{"resources": []}"#).unwrap();
    assert_eq!(empty.name, "Insomnia Service");
    assert!(empty.endpoints.is_empty());
}

#[test]
fn unsupported_collections_are_refused() {
    let err = from_str(r#"{"openapi": "3.0.0"}"#).unwrap_err();
    assert_eq!(err, "Unsupported collection format: Not a valid Postman or Insomnia export.");
    assert!(from_str("not json").is_err());
    assert!(from_json(&s("x")).is_err());
}

#[test]
fn postman_paths() {
    assert_eq!(extract_postman_path(None), "/");
    assert_eq!(extract_postman_path(Some(&obj(vec![]))), "/");
    assert_eq!(extract_postman_path(Some(&obj(vec![("raw", s("/a/b"))]))), "/a/b");
    assert_eq!(extract_postman_path(Some(&obj(vec![("raw", s("a/b"))]))), "/a/b");
    assert_eq!(extract_postman_path(Some(&obj(vec![("raw", s("https://h.io/x/y?q=1"))]))), "/x/y");
    assert_eq!(extract_postman_path(Some(&obj(vec![("path", arr(vec![]))]))), "/");
}

fn plain_response(body: &str, headers: Option<Vec<(String, String)>>) -> ResponseDefinition {
    ResponseDefinition {
        condition: None,
        content_type: "application/json".into(),
        body: body.into(),
        schema: None,
        script: None,
        headers,
        side_effects: None,
    }
}

fn plain_endpoint(method: &str, path: &str, description: Option<&str>, responses: Vec<(u16, ResponseDefinition)>) -> EndpointDefinition {
    EndpointDefinition {
        kind: EndpointKind::Http,
        method: method.into(),
        path: path.into(),
        header_match: None,
        description: description.map(|d| d.to_string()),
        parameters: None,
        request_body: None,
        responses,
        scenarios: None,
        stream: None,
    }
}

fn plain_service(name: &str, endpoints: Vec<EndpointDefinition>) -> ServiceDefinition {
    ServiceDefinition {
        name: name.into(),
        version: None,
        description: None,
        server: ServerConfig { port: None, base_path: "/".into(), proxy_base_url: None, cors: None, record_unknown: false },
        models: None,
        fixtures: None,
        bucket: None,
        endpoints,
        graphql: None,
        behavior: None,
    }
}

#[test]
fn postman_export_round_trips_through_import() {
    let svc = plain_service("Shop", vec![
        plain_endpoint("GET", "/items", Some("List items"), vec![(200, plain_response("[]", Some(vec![("X-T".into(), "1".into())])))]),
        plain_endpoint("POST", "/items", None, vec![(201, plain_response("{}", None))]),
    ]);
    let v = to_postman(&svc);
    let expected = obj(vec![
        ("info", obj(vec![("name", s("Shop")), ("schema", s("https://schema.getpostman.com/json/collection/v2.1.0/collection.json"))])),
        ("item", arr(vec![
            obj(vec![
                ("name", s("List items")),
                ("request", obj(vec![("header", arr(vec![])), ("method", s("GET")), ("url", obj(vec![("raw", s("/items"))]))])),
                ("response", arr(vec![obj(vec![
                    ("body", s("[]")),
                    ("code", n("200")),
                    ("header", arr(vec![obj(vec![("key", s("X-T")), ("value", s("1"))])])),
                    ("name", s("200")),
                    ("originalRequest", obj(vec![("header", arr(vec![])), ("method", s("GET")), ("url", obj(vec![("raw", s("/items"))]))])),
                    ("status", s("200")),
                ])])),
            ]),
            obj(vec![
                ("name", s("POST /items")),
                ("request", obj(vec![("header", arr(vec![])), ("method", s("POST")), ("url", obj(vec![("raw", s("/items"))]))])),
                ("response", arr(vec![obj(vec![
                    ("body", s("{}")),
                    ("code", n("201")),
                    ("header", arr(vec![])),
                    ("name", s("201")),
                    ("originalRequest", obj(vec![("header", arr(vec![])), ("method", s("POST")), ("url", obj(vec![("raw", s("/items"))]))])),
                    ("status", s("201")),
                ])])),
            ]),
        ])),
    ]);
    assert_eq!(v, expected);
    let back = from_json(&v).unwrap();
    assert_eq!(back.name, "Shop");
    assert_eq!(back.endpoints.len(), 2);
    assert_eq!(back.endpoints[0].path, "/items");
    assert_eq!(back.endpoints[0].responses[0].1.body, "[]");
    assert_eq!(back.endpoints[1].method, "POST");
    assert_eq!(back.endpoints[1].description.as_deref(), Some("POST /items"));
    assert_eq!(back.endpoints[1].responses[0].0, 201);
}

#[test]
fn mockoon_environment_converts() {
    let env = MockoonEnvironment {
        name: "Mock".into(),
        port: 3001,
        endpoint_prefix: "api".into(),
        routes: vec![MockoonRoute {
            method: "get".into(),
            endpoint: "users".into(),
            responses: vec![
                MockoonResponse { status_code: 200, body: "[]".into(), content_type: None, headers: vec![] },
                MockoonResponse {
                    status_code: 500,
                    body: "oops".into(),
                    content_type: Some("text/plain".into()),
                    headers: vec![
                        MockoonHeader { key: "A".into(), value: "1".into() },
                        MockoonHeader { key: "A".into(), value: "2".into() },
                    ],
                },
                MockoonResponse { status_code: 200, body: "[1]".into(), content_type: None, headers: vec![] },
            ],
        }],
    };
    let svc = convert(&env);
    assert_eq!(svc.name, "Mock");
    assert_eq!(svc.server.port, Some(3001));
    assert_eq!(svc.server.base_path, "/api");
    let e = &svc.endpoints[0];
    assert_eq!(e.method, "GET");
    assert_eq!(e.path, "/users");
    assert_eq!(e.responses.len(), 2);
    assert_eq!(e.responses[0].1.body, "[1]");
    assert_eq!(e.responses[1].1.content_type, "text/plain");
    assert_eq!(e.responses[1].1.headers, Some(vec![("A".to_string(), "2".to_string())]));
    let bare = convert(&MockoonEnvironment { name: "B".into(), port: 1, endpoint_prefix: "".into(), routes: vec![] });
    assert_eq!(bare.server.base_path, "/");
    let slashed = convert(&MockoonEnvironment { name: "C".into(), port: 1, endpoint_prefix: "/v1".into(), routes: vec![] });
    assert_eq!(slashed.server.base_path, "/v1");
}

#[test]
fn base_paths_of_server_urls() {
    assert_eq!(extract_base_path(""), "/");
    assert_eq!(extract_base_path("https://api.example.com/v1"), "/v1");
    assert_eq!(extract_base_path("https://api.example.com"), "/");
    assert_eq!(extract_base_path("//cdn.example.com/assets"), "/assets");
    assert_eq!(extract_base_path("//cdn.example.com"), "/");
    assert_eq!(extract_base_path("/api"), "/api");
    assert_eq!(extract_base_path("localhost:8080/api"), "8080/api");
    assert_eq!(extract_base_path("example.com/api"), "/api");
    assert_eq!(extract_base_path("localhost"), "/");
}

#[test]
fn schema_types_and_media_choice() {
    assert_eq!(infer_schema_type(None), "string");
    assert_eq!(infer_schema_type(Some(&obj(vec![("type", s("integer"))]))), "integer");
    assert_eq!(infer_schema_type(Some(&obj(vec![("$ref", s("#/components/schemas/Pet"))]))), "object");
    assert_eq!(infer_schema_type(Some(&obj(vec![("type", n("1"))]))), "string");
    let media = |example: Option<JsonValue>| OpenApi3MediaType { schema: None, example, examples: vec![] };
    let content = vec![
        ("application/json".to_string(), media(Some(s("json")))),
        ("text/plain".to_string(), media(Some(s("text")))),
    ];
    let (ct, m) = pick_media_type(&content).unwrap();
    assert_eq!(ct, "application/json");
    assert_eq!(m.example, Some(s("json")));
    let content = vec![("application/xml".to_string(), media(None)), ("text/plain".to_string(), media(None))];
    assert_eq!(pick_media_type(&content).unwrap().0, "application/xml");
    assert!(pick_media_type(&vec![]).is_none());
}

#[test]
fn examples_from_schemas() {
    let comps = vec![
        ("Node".to_string(), obj(vec![
            ("properties", obj(vec![("next", obj(vec![("$ref", s("#/components/schemas/Node"))])), ("value", obj(vec![("type", s("integer"))]))])),
            ("type", s("object")),
        ])),
        ("Tag".to_string(), obj(vec![("type", s("string")), ("enum", arr(vec![s("a"), s("b")]))])),
    ];
    let mut visited = Vec::new();
    let node = generate_example_from_schema_v3(&obj(vec![("$ref", s("#/components/schemas/Node"))]), &comps, &mut visited);
    assert_eq!(node, obj(vec![("next", obj(vec![])), ("value", n("0"))]));
    assert!(visited.is_empty());
    let list = generate_example_from_schema_v3(&obj(vec![("type", s("array")), ("items", obj(vec![("$ref", s("Tag"))]))]), &comps, &mut visited);
    assert_eq!(list, arr(vec![s("a")]));
    let merged = generate_example_from_schema_v3(&obj(vec![("allOf", arr(vec![
        obj(vec![("properties", obj(vec![("b", obj(vec![("type", s("boolean"))]))]))]),
        obj(vec![("example", obj(vec![("a", n("1")), ("b", s("x"))]))]),
        obj(vec![("type", s("number"))]),
    ]))]), &comps, &mut visited);
    assert_eq!(merged, obj(vec![("a", n("1")), ("b", s("x"))]));
    let formats = ["date-time", "date", "uuid", "email", "other"];
    let expected = ["1970-01-01T00:00:00Z", "1970-01-01", "00000000-0000-0000-0000-000000000000", "user@example.com", "string"];
    for (f, e) in formats.iter().zip(expected.iter()) {
        let v = generate_example_from_schema_v3(&obj(vec![("format", s(f)), ("type", s("string"))]), &comps, &mut visited);
        assert_eq!(v, s(e));
    }
    assert_eq!(generate_example_from_schema_v3(&obj(vec![("type", s("number"))]), &comps, &mut visited), n("0.0"));
    assert_eq!(generate_example_from_schema_v3(&obj(vec![]), &comps, &mut visited), JsonValue::Null);
    assert_eq!(generate_example_from_schema_v3(&obj(vec![("oneOf", arr(vec![])), ("anyOf", arr(vec![obj(vec![("default", n("7"))])]))]), &comps, &mut visited), n("7"));
    assert_eq!(generate_example_from_schema_v3(&obj(vec![("$ref", s("Missing"))]), &comps, &mut visited), obj(vec![]));
}

#[test]
fn json_values_are_formatted_like_serde() {
    assert_eq!(format_json_value(&s("a\"b")), "\"a\\\"b\"");
    assert_eq!(format_json_value(&n("3")), "3");
    assert_eq!(format_json_value(&JsonValue::Null), "null");
    assert_eq!(format_json_value(&JsonValue::Bool(false)), "false");
    assert_eq!(format_json_value(&arr(vec![])), "[]");
    assert_eq!(format_json_value(&obj(vec![])), "{}");
    let v = obj(vec![("a", arr(vec![n("1"), obj(vec![("b", JsonValue::Null)])])), ("c", s("d"))]);
    assert_eq!(format_json_value(&v), "{\n  \"a\": [\n    1,\n    {\n      \"b\": null\n    }\n  ],\n  \"c\": \"d\"\n}");
}

fn op(summary: Option<&str>) -> OpenApi3Operation {
    OpenApi3Operation {
        summary: summary.map(|x| x.to_string()),
        description: Some("described".into()),
        parameters: vec![
            OpenApi3Parameter { name: "id".into(), location: "path".into(), required: true, description: None, schema: Some(obj(vec![("type", s("integer"))])), content: None },
            OpenApi3Parameter { name: "X-Trace".into(), location: "cookie".into(), required: false, description: Some("trace".into()), schema: None, content: None },
        ],
        request_body: Some(OpenApi3RequestBody {
            required: true,
            content: vec![("application/json".to_string(), OpenApi3MediaType { schema: Some(obj(vec![("$ref", s("#/components/schemas/Pet"))])), example: None, examples: vec![] })],
        }),
        responses: vec![
            ("200".to_string(), OpenApi3Response {
                description: Some("ok".into()),
                content: vec![("application/json".to_string(), OpenApi3MediaType {
                    schema: Some(obj(vec![("$ref", s("#/components/schemas/Pet"))])),
                    example: None,
                    examples: vec![("first".to_string(), OpenApi3Example { value: None }), ("second".to_string(), OpenApi3Example { value: Some(obj(vec![("id", n("5"))])) })],
                })],
            }),
            ("404".to_string(), OpenApi3Response { description: Some("missing".into()), content: vec![] }),
            ("default".to_string(), OpenApi3Response { description: None, content: vec![] }),
            ("500".to_string(), OpenApi3Response {
                description: None,
                content: vec![("text/plain".to_string(), OpenApi3MediaType { schema: Some(obj(vec![("$ref", s("#/components/schemas/Pet"))])), example: None, examples: vec![] })],
            }),
        ],
    }
}

#[test]
fn openapi_documents_convert() {
    let doc = OpenApi3Document {
        info: OpenApi3Info { title: "Pets".into(), version: "2.0".into() },
        servers: vec![OpenApi3Server { url: "https://api.example.com/v2".into() }],
        paths: vec![("/pets/{id}".to_string(), OpenApi3PathItem { get: Some(op(Some("Get pet"))), post: None, put: None, patch: None, delete: Some(op(None)) })],
        components: Some(OpenApi3Components { schemas: vec![("Pet".to_string(), obj(vec![("properties", obj(vec![("name", obj(vec![("type", s("string"))]))])), ("type", s("object"))]))] }),
    };
    let svc = convert_openapi3(&doc);
    assert_eq!(svc.name, "Pets");
    assert_eq!(svc.version.as_deref(), Some("2.0"));
    assert_eq!(svc.server.base_path, "/v2");
    assert_eq!(svc.models.as_ref().unwrap().len(), 1);
    assert_eq!(svc.endpoints.len(), 2);
    let get = &svc.endpoints[0];
    assert_eq!(get.method, "GET");
    assert_eq!(get.path, "/pets/{id}");
    assert_eq!(get.description.as_deref(), Some("Get pet"));
    let params = get.parameters.as_ref().unwrap();
    assert_eq!(params[0].location, ParameterLocation::Path);
    assert_eq!(params[0].param_type, "integer");
    assert_eq!(params[1].location, ParameterLocation::Header);
    assert_eq!(params[1].param_type, "string");
    let body = get.request_body.as_ref().unwrap();
    assert!(body.required);
    assert_eq!(body.schema.as_deref(), Some("Pet"));
    assert_eq!(body.content_type.as_deref(), Some("application/json"));
    assert_eq!(get.responses.len(), 3);
    assert_eq!(get.responses[0].0, 200);
    assert_eq!(get.responses[0].1.body, "{\n  \"id\": 5\n}");
    assert_eq!(get.responses[1].0, 404);
    assert_eq!(get.responses[1].1.body, "missing");
    assert_eq!(get.responses[2].0, 500);
    assert_eq!(get.responses[2].1.content_type, "text/plain");
    assert_eq!(get.responses[2].1.body, "{\n  \"name\": \"string\"\n}");
    assert_eq!(svc.endpoints[1].method, "DELETE");
    assert_eq!(svc.endpoints[1].description.as_deref(), Some("described"));
}

#[test]
fn openapi_fallback_reads_the_raw_document() {
    let raw = obj(vec![("info", obj(vec![("title", s("Raw")), ("version", s("0.1"))]))]);
    let svc = from_openapi(&raw, None);
    assert_eq!(svc.name, "Raw");
    assert_eq!(svc.version.as_deref(), Some("0.1"));
    assert!(svc.endpoints.is_empty());
    let bare = from_openapi(&obj(vec![]), None);
    assert_eq!(bare.name, "");
    assert_eq!(bare.version, None);
}

#[test]
fn services_export_to_openapi() {
    let mut create = plain_endpoint("POST", "/users", Some("Create"), vec![(201, plain_response("created", None))]);
    create.request_body = Some(RequestBodyDefinition { required: true, schema: Some("User".into()), content_type: None });
    let mut service = plain_service("Users", vec![
        plain_endpoint("GET", "/users", Some("List"), vec![(200, plain_response("[]", None)), (404, plain_response("none", None))]),
        create,
        plain_endpoint("get", "/users", Some("List again"), vec![(200, plain_response("all", None))]),
        plain_endpoint("TRACE", "/trace", None, vec![(200, plain_response("t", None))]),
        plain_endpoint("Delete", "/users/{id}", None, vec![(204, plain_response("", None)), (204, plain_response("gone", None))]),
    ]);
    service.version = Some("2.1".into());
    service.server.base_path = "/api".into();
    service.models = Some(vec![
        ("User".into(), obj(vec![("type", s("object"))])),
        ("Count".into(), n("5")),
        ("Any".into(), obj(vec![])),
    ]);
    let doc = to_openapi(&service);
    assert_eq!(doc.openapi, "3.0.3");
    assert_eq!(doc.title, "Users");
    assert_eq!(doc.version, "2.1");
    assert_eq!(doc.server_url, "/api");
    let paths: Vec<&str> = doc.paths.iter().map(|(p, _)| p.as_str()).collect();
    assert_eq!(paths, vec!["/users", "/trace", "/users/{id}"]);
    let users = &doc.paths[0].1;
    let get = users.get.as_ref().unwrap();
    assert_eq!(get.summary.as_deref(), Some("List again"));
    assert_eq!(get.description.as_deref(), Some("List again"));
    assert_eq!(get.responses, vec![(200, "all".to_string())]);
    let post = users.post.as_ref().unwrap();
    let body = post.request_body.as_ref().unwrap();
    assert_eq!(body.content_type, "application/json");
    assert_eq!(body.schema_ref.as_deref(), Some("#/components/schemas/User"));
    assert!(body.required);
    assert!(users.put.is_none() && users.patch.is_none() && users.delete.is_none());
    let trace = &doc.paths[1].1;
    assert!(trace.get.is_none() && trace.post.is_none() && trace.put.is_none() && trace.patch.is_none() && trace.delete.is_none());
    let delete = doc.paths[2].1.delete.as_ref().unwrap();
    assert_eq!(delete.responses, vec![(204, "gone".to_string())]);
    assert!(delete.summary.is_none());
    let schemas = doc.schemas.unwrap();
    let names: Vec<&str> = schemas.iter().map(|(k, _)| k.as_str()).collect();
    assert_eq!(names, vec!["User", "Any"]);

    let bare = to_openapi(&plain_service("Bare", vec![]));
    assert_eq!(bare.version, "1.0");
    assert!(bare.paths.is_empty());
    assert!(bare.schemas.is_none());
}

fn environment(name: &str) -> MockoonEnvironment {
    MockoonEnvironment { name: name.to_string(), port: 3000, endpoint_prefix: String::new(), routes: vec![] }
}

#[test]
fn a_mockoon_export_gives_its_environment_or_the_first_of_its_list() {
    assert_eq!(choose_environment(Some(environment("one")), Ok(vec![environment("other")])).unwrap().name, "one");
    assert_eq!(choose_environment(None, Ok(vec![environment("a"), environment("b")])).unwrap().name, "a");
    assert_eq!(choose_environment(None, Ok(vec![])).unwrap_err(), "No environments found");
    assert_eq!(choose_environment(None, Err("expected value".to_string())).unwrap_err(), "expected value");
}
