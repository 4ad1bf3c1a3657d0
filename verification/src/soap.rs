//! SOAP / XML support: recognising XML request bodies, and turning an XML
//! document into a JSON value that templates can walk like a JSON body.
//!
//! Namespace prefixes are dropped from element and attribute names,
//! attributes become `@name` members, text next to children becomes a
//! `#text` member, and repeated children collapse into an array.

use vstd::prelude::*;
use crate::json::{insert_sorted_field, sorted_insert, fields_data, json_clone, json_data, clone_items, items_data, lemma_fields_data_ext,
    lemma_items_data_ext, JsonData, JsonValue};
use crate::text::{has_prefix, ascii_lower, ascii_lower_seq, chars_of, concat2, contains_seq, seq_contains, string_of_range,
    to_ascii_lowercase, trim_spec, is_blank_str};
use crate::xml::{attrs_view, event_data, events_data, xml_event_list, xml_events, XmlEvent, XmlEventData};

verus! {

/// The content type, lower-cased, names SOAP or XML.
pub open spec fn is_xml_content_type_spec(content_type: Seq<char>) -> bool {
    let ct = ascii_lower_seq(content_type);
    contains_seq(ct, "application/soap+xml"@) || contains_seq(ct, "text/xml"@) || contains_seq(ct, "application/xml"@)
}

/// Returns `true` if the given content-type header indicates XML / SOAP.
pub fn is_xml_content_type(content_type: &str) -> (b: bool)
    ensures
        b == is_xml_content_type_spec(content_type@),
{
    let ct = to_ascii_lowercase(content_type);
    seq_contains(&ct, &chars_of("application/soap+xml")) || seq_contains(&ct, &chars_of("text/xml"))
        || seq_contains(&ct, &chars_of("application/xml"))
}

/// The check ignores ASCII case: lower-casing the header first changes nothing.
pub proof fn lemma_xml_detection_ignores_case(content_type: Seq<char>)
    ensures
        is_xml_content_type_spec(ascii_lower_seq(content_type)) == is_xml_content_type_spec(content_type),
{
    assert(ascii_lower_seq(ascii_lower_seq(content_type)) =~= ascii_lower_seq(content_type)) by {
        assert forall|i: int| 0 <= i < content_type.len() implies ascii_lower(ascii_lower(content_type[i])) == ascii_lower(content_type[i]) by {
            let c = content_type[i];
            if 'A' <= c <= 'Z' {
                assert(((c as u32) + 32) as char == ascii_lower(c));
            }
        }
    }
}

/// The position of the first `:` of a name.
pub open spec fn first_colon(s: Seq<char>) -> Option<int>
    decreases s.len(),
{
    if s.len() == 0 {
        None
    } else {
        match first_colon(s.drop_last()) {
            Some(i) => Some(i),
            None => if s.last() == ':' { Some(s.len() - 1) } else { None },
        }
    }
}

/// A name without its namespace prefix: what follows its first `:`.
pub open spec fn local_part(name: Seq<char>) -> Seq<char> {
    match first_colon(name) {
        Some(i) => name.skip(i + 1),
        None => name,
    }
}

/// The position of the member named `k`.
pub open spec fn member_index(obj: Seq<(Seq<char>, JsonData)>, k: Seq<char>) -> Option<int>
    decreases obj.len(),
{
    if obj.len() == 0 {
        None
    } else {
        match member_index(obj.drop_last(), k) {
            Some(i) => Some(i),
            None => if obj.last().0 == k { Some(obj.len() - 1) } else { None },
        }
    }
}

/// An object with member `k` set to `v`: in place when it exists, else in
/// key order, as a serde_json map keeps its members.
pub open spec fn obj_set(obj: Seq<(Seq<char>, JsonData)>, k: Seq<char>, v: JsonData) -> Seq<(Seq<char>, JsonData)> {
    match member_index(obj, k) {
        Some(i) => obj.update(i, (k, v)),
        None => sorted_insert(obj, k, v),
    }
}

/// An object with a child element added: a new member (in key order), or
/// the values of repeated children gathered into an array.
pub open spec fn add_child(obj: Seq<(Seq<char>, JsonData)>, k: Seq<char>, v: JsonData) -> Seq<(Seq<char>, JsonData)> {
    match member_index(obj, k) {
        Some(i) => match obj[i].1 {
            JsonData::Array(items) => obj.update(i, (k, JsonData::Array(items.push(v)))),
            prev => obj.update(i, (k, JsonData::Array(seq![prev, v]))),
        },
        None => sorted_insert(obj, k, v),
    }
}

/// A namespace declaration: `xmlns` or `xmlns:` followed by a prefix.
pub open spec fn namespace_declaration(key: Seq<char>) -> bool {
    key == "xmlns"@ || has_prefix(key, "xmlns:"@)
}

/// The members made of an element's attributes, namespace declarations
/// aside: `@` and the local name, with the value as a string.
pub open spec fn attribute_members(attrs: Seq<(Seq<char>, Seq<char>)>) -> Seq<(Seq<char>, JsonData)>
    decreases attrs.len(),
{
    if attrs.len() == 0 {
        Seq::empty()
    } else if namespace_declaration(attrs.last().0) {
        attribute_members(attrs.drop_last())
    } else {
        obj_set(attribute_members(attrs.drop_last()), "@"@ + local_part(attrs.last().0), JsonData::Str(attrs.last().1))
    }
}

/// The value of a finished element: nothing, its text, or its members (with
/// its text under `#text` when it has both).
pub open spec fn element_data(obj: Seq<(Seq<char>, JsonData)>, text: Seq<char>) -> JsonData {
    if obj.len() == 0 && text.len() == 0 {
        JsonData::Null
    } else if obj.len() == 0 {
        JsonData::Str(text)
    } else if text.len() > 0 {
        JsonData::Object(obj_set(obj, "#text"@, JsonData::Str(text)))
    } else {
        JsonData::Object(obj)
    }
}

/// The error for a document that ends inside an element.
pub open spec fn eof_error(open: Seq<char>) -> Seq<char> {
    "unexpected EOF inside <"@ + open + ">"@
}

/// The rest of an open element, read from event `pos` on with the members
/// and text gathered so far: its value and the position after its end.
pub open spec fn element_rest(evs: Seq<XmlEventData>, pos: int, obj: Seq<(Seq<char>, JsonData)>, text: Seq<char>,
    open: Seq<char>) -> Result<(JsonData, int), Seq<char>>
    decreases evs.len() - pos,
{
    if pos < 0 || pos >= evs.len() {
        Err(eof_error(open))
    } else {
        match evs[pos] {
            XmlEventData::Start(n, a) => match element_rest(evs, pos + 1, attribute_members(a), Seq::empty(), local_part(n)) {
                Ok((v, next)) => if pos < next <= evs.len() {
                    element_rest(evs, next, add_child(obj, local_part(n), v), text, open)
                } else {
                    Err(eof_error(open))
                },
                Err(e) => Err(e),
            },
            XmlEventData::Empty(n, a) => {
                let members = attribute_members(a);
                let child = if members.len() == 0 { JsonData::Null } else { JsonData::Object(members) };
                element_rest(evs, pos + 1, add_child(obj, local_part(n), child), text, open)
            },
            XmlEventData::Text(t) => element_rest(evs, pos + 1, obj, if trim_spec(t).len() > 0 { text + t } else { text }, open),
            XmlEventData::CData(c) => element_rest(evs, pos + 1, obj, match c {
                Some(s) => text + s,
                None => text,
            }, open),
            XmlEventData::End => Ok((element_data(obj, text), pos + 1)),
            XmlEventData::Eof => Err(eof_error(open)),
            XmlEventData::Error(m) => Err("XML parse error: "@ + m),
            XmlEventData::Other => element_rest(evs, pos + 1, obj, text, open),
        }
    }
}

/// A document read from event `pos` on: an object whose one member is the
/// root element.
pub open spec fn document_value(evs: Seq<XmlEventData>, pos: int) -> Result<JsonData, Seq<char>>
    decreases evs.len() - pos,
{
    if pos < 0 || pos >= evs.len() {
        Err("empty XML document"@)
    } else {
        match evs[pos] {
            XmlEventData::Start(n, a) => match element_rest(evs, pos + 1, attribute_members(a), Seq::empty(), local_part(n)) {
                Ok((v, _)) => Ok(JsonData::Object(seq![(local_part(n), v)])),
                Err(e) => Err(e),
            },
            XmlEventData::Empty(n, a) => Ok(JsonData::Object(seq![(local_part(n), JsonData::Object(attribute_members(a)))])),
            XmlEventData::Eof => Err("empty XML document"@),
            XmlEventData::Error(m) => Err("XML parse error: "@ + m),
            _ => document_value(evs, pos + 1),
        }
    }
}

/// A name without its namespace prefix.
pub fn local_name(name: &str) -> (r: String)
    ensures
        r@ == local_part(name@),
{
    let v = chars_of(name);
    let mut i: usize = 0;
    while i < v.len()
        invariant
            i <= v@.len(),
            v@ == name@,
            first_colon(v@.take(i as int)) is None,
        decreases v@.len() - i,
    {
        proof {
            assert(v@.take(i + 1).drop_last() =~= v@.take(i as int));
        }
        if v[i] == ':' {
            proof {
                lemma_first_colon_prefix(v@, i as int);
            }
            return string_of_range(&v, i + 1, v.len());
        }
        i = i + 1;
    }
    assert(v@.take(v@.len() as int) =~= v@);
    String::from_str(name)
}

proof fn lemma_first_colon_prefix(s: Seq<char>, i: int)
    requires
        0 <= i < s.len(),
        first_colon(s.take(i)) is None,
        s[i] == ':',
    ensures
        first_colon(s) == Some(i),
    decreases s.len(),
{
    if i < s.len() - 1 {
        assert(s.drop_last().take(i) =~= s.take(i));
        lemma_first_colon_prefix(s.drop_last(), i);
    } else {
        assert(s.take(i) =~= s.drop_last());
    }
}

proof fn lemma_member_index_prefix(obj: Seq<(Seq<char>, JsonData)>, k: Seq<char>, i: int)
    requires
        0 <= i < obj.len(),
        member_index(obj.take(i), k) is None,
        obj[i].0 == k,
    ensures
        member_index(obj, k) == Some(i),
    decreases obj.len(),
{
    if i < obj.len() - 1 {
        assert(obj.drop_last().take(i) =~= obj.take(i));
        lemma_member_index_prefix(obj.drop_last(), k, i);
    } else {
        assert(obj.take(i) =~= obj.drop_last());
    }
}

/// The position of the member named `k`.
fn member_position(obj: &Vec<(String, JsonValue)>, k: &str) -> (r: Option<usize>)
    ensures
        match r {
            Some(i) => i < obj@.len() && member_index(fields_data(obj@), k@) == Some(i as int),
            None => member_index(fields_data(obj@), k@) is None,
        },
{
    let ghost fd = fields_data(obj@);
    proof {
        lemma_fields_data_ext(obj@);
    }
    let mut i: usize = 0;
    while i < obj.len()
        invariant
            i <= obj@.len(),
            fd == fields_data(obj@),
            fd.len() == obj@.len(),
            forall|j: int| 0 <= j < obj@.len() ==> #[trigger] fd[j] == (obj@[j].0@, json_data(obj@[j].1)),
            member_index(fd.take(i as int), k@) is None,
        decreases obj@.len() - i,
    {
        proof {
            assert(fd.take(i + 1).drop_last() =~= fd.take(i as int));
            assert(fd[i as int] == (obj@[i as int].0@, json_data(obj@[i as int].1)));
        }
        if crate::text::str_eq(obj[i].0.as_str(), k) {
            proof {
                lemma_member_index_prefix(fd, k@, i as int);
            }
            return Some(i);
        }
        i = i + 1;
    }
    assert(fd.take(obj@.len() as int) =~= fd);
    None
}

/// Sets member `k` to `v`, in place when it exists, else in key order.
fn set_member(obj: &mut Vec<(String, JsonValue)>, k: String, v: JsonValue)
    ensures
        fields_data(final(obj)@) == obj_set(fields_data(old(obj)@), k@, json_data(v)),
{
    let ghost kv = k@;
    let ghost d = json_data(v);
    proof {
        lemma_fields_data_ext(obj@);
    }
    match member_position(obj, k.as_str()) {
        Some(i) => {
            obj.set(i, (k, v));
            proof {
                lemma_fields_data_ext(obj@);
                assert(fields_data(obj@) =~= fields_data(old(obj)@).update(i as int, (kv, d)));
            }
        },
        None => {
            insert_sorted_field(obj, k, v);
        },
    }
}

/// Adds a child element's value under its name.
fn insert_child(obj: &mut Vec<(String, JsonValue)>, k: String, v: JsonValue)
    ensures
        fields_data(final(obj)@) == add_child(fields_data(old(obj)@), k@, json_data(v)),
{
    let ghost kv = k@;
    let ghost d = json_data(v);
    proof {
        lemma_fields_data_ext(obj@);
    }
    match member_position(obj, k.as_str()) {
        Some(i) => {
            let ghost prevd = fields_data(obj@)[i as int].1;
            let merged = match &obj[i].1 {
                JsonValue::Array(items) => {
                    let mut all = clone_items(items);
                    let ghost before = all@;
                    all.push(v);
                    proof {
                        assert(all@.drop_last() =~= before);
                    }
                    JsonValue::Array(all)
                },
                other => {
                    let prev = json_clone(other);
                    let mut pair: Vec<JsonValue> = Vec::new();
                    pair.push(prev);
                    pair.push(v);
                    proof {
                        lemma_items_data_ext(pair@);
                        assert(items_data(pair@) =~= seq![prevd, d]);
                    }
                    JsonValue::Array(pair)
                },
            };
            let ghost md = json_data(merged);
            obj.set(i, (k, merged));
            proof {
                lemma_fields_data_ext(obj@);
                assert(fields_data(obj@) =~= fields_data(old(obj)@).update(i as int, (kv, md)));
            }
        },
        None => {
            insert_sorted_field(obj, k, v);
        },
    }
}

/// The members made of an element's attributes.
fn add_attributes(attrs: &Vec<(String, String)>) -> (r: Vec<(String, JsonValue)>)
    ensures
        fields_data(r@) == attribute_members(attrs_view(attrs@)),
{
    let ghost av = attrs_view(attrs@);
    let mut obj: Vec<(String, JsonValue)> = Vec::new();
    assert(fields_data(obj@) =~= Seq::<(Seq<char>, JsonData)>::empty());
    let mut i: usize = 0;
    while i < attrs.len()
        invariant
            i <= attrs@.len(),
            av == attrs_view(attrs@),
            fields_data(obj@) == attribute_members(av.take(i as int)),
        decreases attrs@.len() - i,
    {
        proof {
            assert(av.take(i + 1).drop_last() =~= av.take(i as int));
            assert(av.take(i + 1).last() == (attrs@[i as int].0@, attrs@[i as int].1@));
        }
        let k = attrs[i].0.as_str();
        if !(crate::text::str_eq(k, "xmlns") || crate::text::starts_with(k, "xmlns:")) {
            let local = local_name(k);
            let key = concat2("@", local.as_str());
            set_member(&mut obj, key, JsonValue::Str(attrs[i].1.clone()));
        }
        i = i + 1;
    }
    assert(av.take(attrs@.len() as int) =~= av);
    obj
}

/// The value of a finished element.
fn element_value(obj: Vec<(String, JsonValue)>, text: String) -> (r: JsonValue)
    ensures
        json_data(r) == element_data(fields_data(obj@), text@),
{
    proof {
        lemma_fields_data_ext(obj@);
    }
    if obj.len() == 0 && text.unicode_len() == 0 {
        JsonValue::Null
    } else if obj.len() == 0 {
        JsonValue::Str(text)
    } else if text.unicode_len() > 0 {
        let mut o = obj;
        set_member(&mut o, String::from_str("#text"), JsonValue::Str(text));
        JsonValue::Object(o)
    } else {
        JsonValue::Object(obj)
    }
}

/// Reads an open element from event `start` on: its value and the position
/// after its end.
fn parse_element(evs: &Vec<XmlEvent>, start: usize, attrs: &Vec<(String, String)>, open: &str)
    -> (r: Result<(JsonValue, usize), String>)
    ensures
        match element_rest(events_data(evs@), start as int, attribute_members(attrs_view(attrs@)), Seq::empty(), open@) {
            Ok((d, n)) => r matches Ok((v, m)) && json_data(v) == d && m == n,
            Err(e) => r matches Err(x) && x@ == e,
        },
    decreases evs@.len() - start,
{
    let ghost es = events_data(evs@);
    let ghost goal = element_rest(es, start as int, attribute_members(attrs_view(attrs@)), Seq::empty(), open@);
    let mut obj = add_attributes(attrs);
    let mut text = String::new();
    let mut pos = start;
    proof {
        reveal_strlit("");
    }
    loop
        invariant
            es == events_data(evs@),
            es.len() == evs@.len(),
            start <= pos,
            element_rest(es, pos as int, fields_data(obj@), text@, open@) == goal,
            goal == element_rest(es, start as int, attribute_members(attrs_view(attrs@)), Seq::empty(), open@),
        decreases evs@.len() - pos,
    {
        if pos >= evs.len() {
            let msg = eof_message(open);
            return Err(msg);
        }
        assert(es[pos as int] == event_data(evs@[pos as int]));
        match &evs[pos] {
            XmlEvent::Start(n, a) => {
                let child_name = local_name(n.as_str());
                match parse_element(evs, pos + 1, a, child_name.as_str()) {
                    Ok((v, next)) => {
                        if pos < next && next <= evs.len() {
                            insert_child(&mut obj, child_name, v);
                            pos = next;
                        } else {
                            return Err(eof_message(open));
                        }
                    },
                    Err(e) => {
                        return Err(e);
                    },
                }
            },
            XmlEvent::Empty(n, a) => {
                let child_name = local_name(n.as_str());
                let members = add_attributes(a);
                let child = if members.len() == 0 {
                    JsonValue::Null
                } else {
                    JsonValue::Object(members)
                };
                proof {
                    lemma_fields_data_ext(members@);
                }
                insert_child(&mut obj, child_name, child);
                pos = pos + 1;
            },
            XmlEvent::Text(t) => {
                if !is_blank_str(t.as_str()) {
                    text.append(t.as_str());
                }
                pos = pos + 1;
            },
            XmlEvent::CData(c) => {
                match c {
                    Some(s) => {
                        text.append(s.as_str());
                    },
                    None => {},
                }
                pos = pos + 1;
            },
            XmlEvent::End => {
                let value = element_value(obj, text);
                return Ok((value, pos + 1));
            },
            XmlEvent::Eof => {
                return Err(eof_message(open));
            },
            XmlEvent::Error(m) => {
                return Err(concat2("XML parse error: ", m.as_str()));
            },
            XmlEvent::Other => {
                pos = pos + 1;
            },
        }
    }
}

/// The error for a document that ends inside an element.
fn eof_message(open: &str) -> (r: String)
    ensures
        r@ == eof_error(open@),
{
    let mut m = String::from_str("unexpected EOF inside <");
    m.append(open);
    m.append(">");
    m
}

/// What converting an XML document gives.
pub open spec fn xml_value_of(xml: Seq<char>) -> Result<JsonData, Seq<char>> {
    document_value(xml_event_list(xml), 0)
}

/// Converts the events of a document into a JSON value: an object whose one
/// member is the root element.
pub fn value_from_events(evs: &Vec<XmlEvent>) -> (r: Result<JsonValue, String>)
    ensures
        match document_value(events_data(evs@), 0) {
            Ok(d) => r matches Ok(v) && json_data(v) == d,
            Err(e) => r matches Err(x) && x@ == e,
        },
{
    let ghost es = events_data(evs@);
    let mut pos: usize = 0;
    while pos < evs.len()
        invariant
            es == events_data(evs@),
            es.len() == evs@.len(),
            pos <= evs@.len(),
            document_value(es, pos as int) == document_value(es, 0),
        decreases evs@.len() - pos,
    {
        assert(es[pos as int] == event_data(evs@[pos as int]));
        match &evs[pos] {
            XmlEvent::Start(n, a) => {
                let name = local_name(n.as_str());
                return match parse_element(evs, pos + 1, a, name.as_str()) {
                    Ok((v, _)) => {
                        let mut wrapper: Vec<(String, JsonValue)> = Vec::new();
                        wrapper.push((name, v));
                        proof {
                            lemma_fields_data_ext(wrapper@);
                            assert(fields_data(wrapper@) =~= seq![(local_part(n@), json_data(wrapper@[0].1))]);
                        }
                        Ok(JsonValue::Object(wrapper))
                    },
                    Err(e) => Err(e),
                };
            },
            XmlEvent::Empty(n, a) => {
                let name = local_name(n.as_str());
                let members = add_attributes(a);
                let mut wrapper: Vec<(String, JsonValue)> = Vec::new();
                wrapper.push((name, JsonValue::Object(members)));
                proof {
                    lemma_fields_data_ext(wrapper@);
                    assert(fields_data(wrapper@) =~= seq![(local_part(n@), json_data(wrapper@[0].1))]);
                }
                return Ok(JsonValue::Object(wrapper));
            },
            XmlEvent::Eof => {
                return Err(String::from_str("empty XML document"));
            },
            XmlEvent::Error(m) => {
                return Err(concat2("XML parse error: ", m.as_str()));
            },
            _ => {
                pos = pos + 1;
            },
        }
    }
    Err(String::from_str("empty XML document"))
}

/// Parses an XML document into a JSON value: an object whose one member is
/// the root element, namespace prefixes dropped.
pub fn xml_to_value(xml: &str) -> (r: Result<JsonValue, String>)
    ensures
        match xml_value_of(xml@) {
            Ok(d) => r matches Ok(v) && json_data(v) == d,
            Err(e) => r matches Err(x) && x@ == e,
        },
{
    let evs = xml_events(xml);
    value_from_events(&evs)
}

} // verus!
