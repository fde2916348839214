//! Reading XML step by step.

use quick_xml::events::Event;
use quick_xml::name::QName;
use quick_xml::Reader;
use vstd::prelude::*;
use crate::model::result_view;

verus! {

/// A reader of XML that borrows the bytes it reads.
#[verifier::external_type_specification]
#[verifier::external_body]
#[verifier::reject_recursive_types(R)]
pub struct ExReader<R>(Reader<R>);

/// What a reader was asked so far: for the next event, or for the text up to the end of an element.
pub enum XmlCall {
    Event,
    Text(Seq<char>),
}

/// What a reader meets next.
#[derive(Debug)]
pub enum XmlEvent {
    Start(String),
    Other,
    Eof,
}

/// What an `XmlEvent` says.
#[verifier::ext_equal]
pub enum XmlEventView {
    Start(Seq<char>),
    Other,
    Eof,
}

impl View for XmlEvent {
    type V = XmlEventView;

    open spec fn view(&self) -> XmlEventView {
        match self {
            XmlEvent::Start(name) => XmlEventView::Start(name@),
            XmlEvent::Other => XmlEventView::Other,
            XmlEvent::Eof => XmlEventView::Eof,
        }
    }
}

/// The document that a reader reads and what it was asked so far, which together fix its state.
pub uninterp spec fn xml_past(reader: Reader<&[u8]>) -> (Seq<char>, Seq<XmlCall>);

/// `Reader::from_str` with `trim_text`: a reader at the start of a document, which was asked
/// nothing yet.
#[verifier::external_body]
pub(crate) fn open_xml<'a>(document: &'a str) -> (reader: Reader<&'a [u8]>)
    ensures
        xml_past(reader) == (document@, Seq::<XmlCall>::empty()),
{
    let mut reader = Reader::from_str(document);
    reader.config_mut().trim_text(true);
    reader
}

/// The event that comes next in a document after what was asked before, or the text of the error.
pub uninterp spec fn xml_event(document: Seq<char>, past: Seq<XmlCall>) -> Result<
    XmlEventView,
    Seq<char>,
>;

/// `Reader::read_event`: the event depends on the document and on what was asked before. Of the
/// events, the start of an element comes with its name and the end of the document is told from the
/// rest.
#[verifier::external_body]
pub(crate) fn read_event<'a>(reader: &mut Reader<&'a [u8]>) -> (event: Result<XmlEvent, String>)
    ensures
        xml_past(*final(reader)) == (
            xml_past(*old(reader)).0,
            xml_past(*old(reader)).1.push(XmlCall::Event),
        ),
        result_view(event) == xml_event(
            xml_past(*old(reader)).0,
            xml_past(*old(reader)).1,
        ),
{
    match reader.read_event() {
        Ok(Event::Start(start)) => Ok(XmlEvent::Start(start.name().as_ref().to_owned())),
        Ok(Event::Eof) => Ok(XmlEvent::Eof),
        Ok(_) => Ok(XmlEvent::Other),
        Err(error) => Err(error.to_string()),
    }
}

/// The text up to the end of the element `name` in a document after what was asked before, or the
/// text of the error.
pub uninterp spec fn xml_text(document: Seq<char>, past: Seq<XmlCall>, name: Seq<char>) -> Result<
    Seq<char>,
    Seq<char>,
>;

/// `Reader::read_text`: the text up to the end of an element depends on the document, on what was
/// asked before and on the element's name. It is left as the document writes it.
#[verifier::external_body]
pub(crate) fn read_text<'a>(reader: &mut Reader<&'a [u8]>, name: &str) -> (text: Result<
    String,
    String,
>)
    ensures
        xml_past(*final(reader)) == (
            xml_past(*old(reader)).0,
            xml_past(*old(reader)).1.push(XmlCall::Text(name@)),
        ),
        result_view(text) == xml_text(
            xml_past(*old(reader)).0,
            xml_past(*old(reader)).1,
            name@,
        ),
{
    match reader.read_text(QName(name)) {
        Ok(text) => Ok(text.into_inner().into_owned()),
        Err(error) => Err(error.to_string()),
    }
}

} // verus!
