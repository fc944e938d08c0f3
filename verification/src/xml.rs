//! The XML events that the extraction consumes, and the reader that yields them.

use crate::error::ExtractError;
use crate::tags::NAME_ATTRIBUTE;
use crate::text::bytes_eq;
use quick_xml::events::Event;
use vstd::prelude::*;
use vstd::slice::slice_to_vec;
use vstd::utf8::encode_utf8;

verus! {

/// `quick_xml::Reader`, of which contracts see only the events it has still to report.
#[verifier::external_type_specification]
#[verifier::external_body]
#[verifier::reject_recursive_types(R)]
pub struct ExReader<R>(quick_xml::Reader<R>);

/// `quick_xml::Error`, of which contracts see nothing.
#[verifier::external_type_specification]
#[verifier::external_body]
pub struct ExXmlError(quick_xml::Error);

/// One attribute of a start tag: its key and its value as written, escapes and all.
#[derive(Debug, PartialEq, Eq)]
pub struct XmlAttribute {
    pub key: Vec<u8>,
    pub value: Vec<u8>,
}

/// An attribute as contracts see it.
pub struct XmlAttributeView {
    pub key: Seq<u8>,
    pub value: Seq<u8>,
}

impl XmlAttribute {
    /// The attribute with the key `key` and the value `value`.
    pub fn new(key: &[u8], value: &[u8]) -> (attribute: XmlAttribute)
        ensures
            attribute@ == (XmlAttributeView { key: key@, value: value@ }),
    {
        XmlAttribute { key: slice_to_vec(key), value: slice_to_vec(value) }
    }
}

impl View for XmlAttribute {
    type V = XmlAttributeView;

    open spec fn view(&self) -> XmlAttributeView {
        XmlAttributeView { key: self.key@, value: self.value@ }
    }
}

impl DeepView for XmlAttribute {
    type V = XmlAttributeView;

    open spec fn deep_view(&self) -> XmlAttributeView {
        self@
    }
}

/// What a reader reports, one piece of markup at a time.
#[derive(Debug, PartialEq, Eq)]
pub enum XmlEvent {
    /// A start tag: its qualified name, and its attributes in the order written. An
    /// attribute that is ill-formed stands as `None`.
    Start(Vec<u8>, Vec<Option<XmlAttribute>>),
    /// An end tag: its qualified name.
    End(Vec<u8>),
    /// Character data with its escapes resolved; `None` where it cannot be decoded
    /// or an escape is unknown.
    Text(Option<String>),
    /// Markup that carries nothing for the extraction: an empty element, a comment,
    /// a declaration and the like.
    Other,
    /// Ill-formed markup. Nothing follows it.
    Invalid,
}

/// An event as contracts see it.
pub enum XmlEventView {
    Start { name: Seq<u8>, attributes: Seq<Option<XmlAttributeView>> },
    End { name: Seq<u8> },
    Text { content: Option<Seq<char>> },
    Other,
    Invalid,
}

impl View for XmlEvent {
    type V = XmlEventView;

    open spec fn view(&self) -> XmlEventView {
        match self {
            XmlEvent::Start(name, attributes) => XmlEventView::Start {
                name: name@,
                attributes: attributes.deep_view(),
            },
            XmlEvent::End(name) => XmlEventView::End { name: name@ },
            XmlEvent::Text(content) => XmlEventView::Text { content: content.deep_view() },
            XmlEvent::Other => XmlEventView::Other,
            XmlEvent::Invalid => XmlEventView::Invalid,
        }
    }
}

impl DeepView for XmlEvent {
    type V = XmlEventView;

    open spec fn deep_view(&self) -> XmlEventView {
        self@
    }
}

/// The value of the first attribute whose key is `name`. An ill-formed attribute
/// before it, or no such attribute at all, is an error.
pub open spec fn name_attribute(attributes: Seq<Option<XmlAttributeView>>) -> Result<
    Seq<u8>,
    ExtractError,
>
    decreases attributes.len(),
{
    if attributes.len() == 0 {
        Err(ExtractError::MissingNameAttribute)
    } else {
        match attributes[0] {
            None => Err(ExtractError::MalformedXml),
            Some(a) => if a.key == encode_utf8(NAME_ATTRIBUTE@) {
                Ok(a.value)
            } else {
                name_attribute(attributes.skip(1))
            },
        }
    }
}

/// The value of the `name` attribute among `attributes`.
pub fn find_name_attribute(attributes: &Vec<Option<XmlAttribute>>) -> (value: Result<
    &Vec<u8>,
    ExtractError,
>)
    ensures
        match value {
            Ok(v) => name_attribute(attributes.deep_view()) == Ok::<Seq<u8>, ExtractError>(v@),
            Err(e) => name_attribute(attributes.deep_view()) == Err::<Seq<u8>, ExtractError>(e),
        },
{
    let ghost all = attributes.deep_view();
    assert(all.skip(0) == all);
    let mut i: usize = 0;
    while i < attributes.len()
        invariant
            i <= attributes.len(),
            all == attributes.deep_view(),
            name_attribute(all) == name_attribute(all.skip(i as int)),
        decreases attributes.len() - i,
    {
        assert(all.skip(i as int).skip(1) == all.skip(i as int + 1));
        match &attributes[i] {
            None => {
                return Err(ExtractError::MalformedXml);
            },
            Some(a) => {
                if bytes_eq(a.key.as_slice(), NAME_ATTRIBUTE.as_bytes()) {
                    return Ok(&a.value);
                }
            },
        }
        i += 1;
    }
    Err(ExtractError::MissingNameAttribute)
}

/// The events that a reader over the bytes `data` reports, in order, up to the end
/// of the data. Where the markup is ill-formed, `Invalid` stands at that place and
/// is the last event.
pub uninterp spec fn xml_events(data: Seq<u8>) -> Seq<XmlEventView>;

/// The events that `reader` has still to report.
pub uninterp spec fn pending_events(reader: &quick_xml::Reader<&[u8]>) -> Seq<XmlEventView>;

/// The text that a lossy decoding of `bytes` as UTF-8 gives.
pub uninterp spec fn lossy_text(bytes: Seq<u8>) -> Seq<char>;

/// `quick_xml::Reader::from_reader` on a byte slice, with the reader's settings as
/// they come: the new reader has all the events of `data` still to report.
#[verifier::external_body]
pub(crate) fn open_reader<'a>(data: &'a [u8]) -> (reader: quick_xml::Reader<&'a [u8]>)
    ensures
        pending_events(&reader) == xml_events(data@),
{
    quick_xml::Reader::from_reader(data)
}

/// `quick_xml::Reader::read_event_into`: reports the next event and moves past it.
/// Every report but the end of the data takes at least one byte of the data, so the
/// events that are pending are finitely many. `Ok(None)` is the end of the data and
/// comes only when nothing is pending. An error of the reader comes exactly where
/// `Invalid` is the one event pending; after it the reader reports only the end.
///
/// The event is handed out in plain values: a start tag with its name
/// (`BytesStart::name`) and its attributes (`BytesStart::attributes`, each item with
/// its key and its raw value, an item that is an error as `None`); an end tag with
/// its name (`BytesEnd::name`); character data with what `BytesText::unescape`
/// gives, an error of it as `None`; any other markup as `Other`.
#[verifier::external_body]
pub(crate) fn read_event(reader: &mut quick_xml::Reader<&[u8]>, buf: &mut Vec<u8>) -> (r: Result<
    Option<XmlEvent>,
    quick_xml::Error,
>)
    ensures
        match r {
            Ok(Some(event)) => {
                &&& pending_events(old(reader)).len() > 0
                &&& pending_events(old(reader))[0] == event@
                &&& !(event is Invalid)
                &&& pending_events(final(reader)) == pending_events(old(reader)).skip(1)
            },
            Ok(None) => pending_events(old(reader)).len() == 0,
            Err(_) => pending_events(old(reader)) == seq![XmlEventView::Invalid],
        },
{
    Ok(match reader.read_event_into(buf)? {
        Event::Start(e) => Some(XmlEvent::Start(
            e.name().0.to_vec(),
            e.attributes().map(|a| a.ok().map(|a| XmlAttribute::new(a.key.0, &a.value))).collect(),
        )),
        Event::End(e) => Some(XmlEvent::End(e.name().0.to_vec())),
        Event::Text(e) => Some(XmlEvent::Text(e.unescape().ok().map(String::from))),
        Event::Eof => None,
        _ => Some(XmlEvent::Other),
    })
}

/// `String::from_utf8_lossy`: the text of `bytes`, with each ill-formed sequence
/// replaced by U+FFFD. The result depends on the bytes alone.
#[verifier::external_body]
pub(crate) fn lossy_string(bytes: &[u8]) -> (s: String)
    ensures
        s@ == lossy_text(bytes@),
{
    String::from_utf8_lossy(bytes).into_owned()
}

} // verus!
