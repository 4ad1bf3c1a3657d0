use apicentric::json::JsonValue;
use apicentric::marketplace::{find_template, get_marketplace_items, read_template_content, template_file_name, TemplateContent};

#[test]
fn test_marketplace_items() {
    let items = get_marketplace_items();
    assert!(!items.is_empty());

    let iot_items: Vec<_> = items.iter().filter(|i| i.category == "IoT Twin").collect();
    assert_eq!(iot_items.len(), 8);

    for item in iot_items {
        assert!(item
            .definition_url
            .starts_with("https://raw.githubusercontent.com/pmaojo/apicentric/main/examples/iot/"));
        assert!(item.definition_url.ends_with(".yaml"));
    }
}

#[test]
fn catalogue_ids_are_unique_and_logos_absent() {
    let items = get_marketplace_items();
    assert_eq!(items.len(), 40);
    for (i, a) in items.iter().enumerate() {
        assert!(a.logo_url.is_none());
        for b in items.iter().skip(i + 1) {
            assert_ne!(a.id, b.id);
        }
    }
}

#[test]
fn find_template_by_id() {
    let stripe = find_template("stripe").unwrap();
    assert_eq!(stripe.name, "Stripe API");
    assert_eq!(stripe.category, "SaaS");
    let err = find_template("nope").unwrap_err();
    assert_eq!(err.message, "Template 'nope' not found");
    assert_eq!(err.field.as_deref(), Some("template"));
    assert_eq!(err.suggestion.as_deref(), Some("Check the list of available templates"));
}

#[test]
fn template_file_names() {
    assert_eq!(template_file_name("Smart Thermostat"), "smart-thermostat.yaml");
    assert_eq!(template_file_name("a  b"), "a--b.yaml");
}

#[test]
fn fetched_template_content_is_read() {
    let unknown = read_template_content("nope", "name: x").unwrap_err();
    assert_eq!(unknown.message, "Template 'nope' not found");
    assert_eq!(unknown.field.as_deref(), Some("template"));
    match read_template_content("stripe", "openapi: 3.0.0\ninfo:\n  title: Pay\n").unwrap() {
        TemplateContent::OpenApi(JsonValue::Object(members)) => {
            assert_eq!(members[1].0, "openapi");
            assert_eq!(members[1].1, JsonValue::Str("3.0.0".to_string()));
        }
        other => panic!("expected an OpenAPI document, got {:?}", other),
    }
    assert!(matches!(read_template_content("stripe", "swagger: '2.0'").unwrap(), TemplateContent::OpenApi(_)));
    match read_template_content("stripe", "name: shop\nendpoints: []\n").unwrap() {
        TemplateContent::Service(JsonValue::Object(members)) => {
            assert_eq!(members.len(), 2);
            assert_eq!(members[1], ("name".to_string(), JsonValue::Str("shop".to_string())));
        }
        other => panic!("expected a service definition, got {:?}", other),
    }
    let bad = read_template_content("stripe", "name: [unclosed").unwrap_err();
    assert!(bad.message.starts_with("Failed to parse template YAML: "));
    assert!(bad.field.is_none());
    assert_eq!(bad.suggestion.as_deref(), Some("Check the template syntax"));
}
