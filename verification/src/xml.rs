//! XML documents read as a flat list of events by the quick_xml crate.

use vstd::prelude::*;
use quick_xml::events::{BytesStart, Event};

verus! {

/// What reading an XML document produces, one event at a time: element
/// starts and self-closing elements with their name and attributes (raw
/// name, unescaped value), unescaped text, CDATA content (absent when it is
/// not UTF-8), element ends, the end of the document, a reader error, and
/// anything else (comments, declarations, processing instructions, DTDs).
#[derive(Clone, Debug)]
pub enum XmlEvent {
    Start(String, Vec<(String, String)>),
    Empty(String, Vec<(String, String)>),
    Text(String),
    CData(Option<String>),
    End,
    Eof,
    Error(String),
    Other,
}

/// An XML event as seen in specifications.
pub enum XmlEventData {
    Start(Seq<char>, Seq<(Seq<char>, Seq<char>)>),
    Empty(Seq<char>, Seq<(Seq<char>, Seq<char>)>),
    Text(Seq<char>),
    CData(Option<Seq<char>>),
    End,
    Eof,
    Error(Seq<char>),
    Other,
}

/// The views of attribute pairs.
pub open spec fn attrs_view(v: Seq<(String, String)>) -> Seq<(Seq<char>, Seq<char>)> {
    v.map_values(|p: (String, String)| (p.0@, p.1@))
}

/// The view of an event.
pub open spec fn event_data(e: XmlEvent) -> XmlEventData {
    match e {
        XmlEvent::Start(n, a) => XmlEventData::Start(n@, attrs_view(a@)),
        XmlEvent::Empty(n, a) => XmlEventData::Empty(n@, attrs_view(a@)),
        XmlEvent::Text(t) => XmlEventData::Text(t@),
        XmlEvent::CData(c) => XmlEventData::CData(match c {
            Some(s) => Some(s@),
            None => None,
        }),
        XmlEvent::End => XmlEventData::End,
        XmlEvent::Eof => XmlEventData::Eof,
        XmlEvent::Error(m) => XmlEventData::Error(m@),
        XmlEvent::Other => XmlEventData::Other,
    }
}

/// The views of a list of events.
pub open spec fn events_data(v: Seq<XmlEvent>) -> Seq<XmlEventData> {
    v.map_values(|e: XmlEvent| event_data(e))
}

/// The events quick_xml reads from a document with text trimming on, up to
/// and including the end of the document or the first error.
pub uninterp spec fn xml_event_list(xml: Seq<char>) -> Seq<XmlEventData>;

#[verifier::external_type_specification]
#[verifier::external_body]
pub struct ExQuickXmlEvent<'a>(Event<'a>);

#[verifier::external_type_specification]
#[verifier::external_body]
pub struct ExQuickXmlError(quick_xml::Error);

#[verifier::external_type_specification]
#[verifier::external_body]
pub struct ExQuickXmlStart<'a>(BytesStart<'a>);

/// The name of a start tag, as written (with its namespace prefix), or empty
/// when it is not UTF-8 (`BytesStart::name`).
#[verifier::external_body]
fn tag_name(e: &BytesStart) -> String {
    std::str::from_utf8(e.name().as_ref()).unwrap_or("").to_string()
}

/// The attributes of a start tag that read without error, in order: the key
/// as written (empty when not UTF-8) and the unescaped value (empty when it
/// does not unescape) (`BytesStart::attributes`).
#[verifier::external_body]
fn tag_attributes(e: &BytesStart) -> Vec<(String, String)> {
    e.attributes()
        .filter_map(|a| a.ok())
        .map(|a| (std::str::from_utf8(a.key.as_ref()).unwrap_or("").to_string(),
            a.unescape_value().map(|c| c.into_owned()).unwrap_or_default()))
        .collect()
}

/// One event read by quick_xml (`Reader::read_event_into`), as an
/// [`XmlEvent`]: text unescaped (empty when it does not unescape).
#[verifier::external_body]
fn convert_event(e: Result<Event, quick_xml::Error>) -> XmlEvent {
    match e {
        Ok(Event::Start(s)) => XmlEvent::Start(tag_name(&s), tag_attributes(&s)),
        Ok(Event::Empty(s)) => XmlEvent::Empty(tag_name(&s), tag_attributes(&s)),
        Ok(Event::Text(t)) => XmlEvent::Text(t.unescape().map(|c| c.into_owned()).unwrap_or_default()),
        Ok(Event::CData(c)) => XmlEvent::CData(String::from_utf8(c.into_inner().into_owned()).ok()),
        Ok(Event::End(_)) => XmlEvent::End,
        Ok(Event::Eof) => XmlEvent::Eof,
        Ok(_) => XmlEvent::Other,
        Err(err) => XmlEvent::Error(err.to_string()),
    }
}

/// Reads a whole document with quick_xml (`Reader::from_str`, text trimming
/// on), up to and including the end of the document or the first error. The
/// list depends on the document alone.
#[verifier::external_body]
pub(crate) fn xml_events(xml: &str) -> (r: Vec<XmlEvent>)
    ensures
        events_data(r@) == xml_event_list(xml@),
{
    let mut reader = quick_xml::reader::Reader::from_str(xml);
    reader.config_mut().trim_text(true);
    let mut buf = Vec::new();
    let mut out = Vec::new();
    loop {
        let ev = convert_event(reader.read_event_into(&mut buf));
        let stop = matches!(ev, XmlEvent::Eof | XmlEvent::Error(_));
        out.push(ev);
        if stop {
            return out;
        }
        buf.clear();
    }
}

} // verus!
