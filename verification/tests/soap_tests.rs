use apicentric::json::JsonValue;
use apicentric::soap::{local_name, xml_to_value};

fn s(v: &str) -> JsonValue {
    JsonValue::Str(v.to_string())
}

fn obj(fields: Vec<(&str, JsonValue)>) -> JsonValue {
    JsonValue::Object(fields.into_iter().map(|(k, v)| (k.to_string(), v)).collect())
}

#[test]
fn parses_simple_element() {
    let v = xml_to_value("<foo>bar</foo>").unwrap();
    assert_eq!(v, obj(vec![("foo", s("bar"))]));
}

#[test]
fn parses_nested_with_attributes() {
    let v = xml_to_value(r#"<root id="1"><child name="x">v</child></root>"#).unwrap();
    assert_eq!(v, obj(vec![("root", obj(vec![("@id", s("1")), ("child", obj(vec![("#text", s("v")), ("@name", s("x"))]))]))]));
}

#[test]
fn strips_namespace_prefixes() {
    let v = xml_to_value(r#"<soap:Envelope xmlns:soap="x"><soap:Body><Op>1</Op></soap:Body></soap:Envelope>"#).unwrap();
    assert_eq!(v, obj(vec![("Envelope", obj(vec![("Body", obj(vec![("Op", s("1"))]))]))]));
}

#[test]
fn repeated_children_become_array() {
    let v = xml_to_value("<list><item>a</item><item>b</item></list>").unwrap();
    assert_eq!(v, obj(vec![("list", obj(vec![("item", JsonValue::Array(vec![s("a"), s("b")]))]))]));
}

#[test]
fn empty_elements_and_errors() {
    assert_eq!(xml_to_value("<a/>").unwrap(), obj(vec![("a", obj(vec![]))]));
    assert_eq!(xml_to_value("<a><b/><c x=\"1\"/></a>").unwrap(), obj(vec![("a", obj(vec![("b", JsonValue::Null), ("c", obj(vec![("@x", s("1"))]))]))]));
    assert_eq!(xml_to_value("<a></a>").unwrap(), obj(vec![("a", JsonValue::Null)]));
    assert_eq!(xml_to_value("").unwrap_err(), "empty XML document");
    assert_eq!(xml_to_value("<a><b>").unwrap_err(), "unexpected EOF inside <b>");
    assert!(xml_to_value("<a></b>").unwrap_err().starts_with("XML parse error: "));
}

#[test]
fn three_repeated_children_and_cdata() {
    let v = xml_to_value("<l><i>1</i><i>2</i><i>3</i><![CDATA[x<y]]></l>").unwrap();
    assert_eq!(v, obj(vec![("l", obj(vec![("#text", s("x<y")), ("i", JsonValue::Array(vec![s("1"), s("2"), s("3")]))]))]));
}

#[test]
fn members_follow_key_order() {
    let v = xml_to_value(r#"<r zeta="1" alpha="2"><b>x</b><a>y</a></r>"#).unwrap();
    assert_eq!(v, obj(vec![("r", obj(vec![("@alpha", s("2")), ("@zeta", s("1")), ("a", s("y")), ("b", s("x"))]))]));
}

#[test]
fn local_names() {
    assert_eq!(local_name("ns2:Foo"), "Foo");
    assert_eq!(local_name("Foo"), "Foo");
    assert_eq!(local_name("a:b:c"), "b:c");
}
