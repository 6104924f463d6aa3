use vstd::prelude::*;
use quick_xml::events::{BytesStart, Event};
use quick_xml::reader::Reader;
use crate::event::{Attribute, Element, XmlEvent};

verus! {

/// The event that a quick-xml reader over `input`, made by `EventReader::open`, returns
/// from its call of `read_event` numbered `index` (the first is 0), as
/// `next_event` converts it.
pub uninterp spec fn xml_event_at(input: Seq<u8>, index: int) -> XmlEvent;

/// A quick-xml reader over an input, with the input and the events it has returned
/// so far, in order. The fields are private to this module, and only the trusted
/// [`EventReader::open`] and [`next_event`] write them, so `events` always holds what
/// the reader has returned.
pub struct EventReader<'a> {
    reader: Reader<&'a [u8]>,
    input: &'a [u8],
    events: Vec<XmlEvent>,
}

impl<'a> EventReader<'a> {
    /// The bytes the reader reads.
    pub closed spec fn input(&self) -> Seq<u8> {
        self.input@
    }

    /// The events the reader has returned, in order.
    pub closed spec fn events(&self) -> Seq<XmlEvent> {
        self.events@
    }

    /// Relies on `quick_xml::Reader::from_reader` and `Reader::trim_text`: a fresh
    /// reader over `input` that trims whitespace around text and drops text left
    /// empty, which has returned no event yet.
    #[verifier::external_body]
    pub(crate) fn open(input: &'a [u8]) -> (r: EventReader<'a>)
        ensures
            r.input() == input@,
            r.events() == Seq::<XmlEvent>::empty(),
    {
        let mut reader = Reader::from_reader(input);
        reader.trim_text(true);
        EventReader { reader, input, events: Vec::new() }
    }

    /// How many events the reader has returned.
    pub fn count(&self) -> (n: usize)
        ensures
            n == self.events().len(),
    {
        self.events.len()
    }

    /// Whether the last event returned ends the stream: the end of the input, or
    /// input that could not be read.
    pub fn stopped(&self) -> (b: bool)
        requires
            self.events().len() > 0,
        ensures
            b == (self.events().last() is Eof || self.events().last() is Malformed),
    {
        match &self.events[self.events.len() - 1] {
            XmlEvent::Eof => true,
            XmlEvent::Malformed(_) => true,
            _ => false,
        }
    }

    /// The events the reader has returned.
    pub fn into_events(self) -> (r: Vec<XmlEvent>)
        ensures
            r@ == self.events(),
    {
        self.events
    }
}

/// Relies on `quick_xml::events::BytesStart::name` and `BytesStart::attributes`: the
/// tag's name and each of its attributes in order, `None` for one the iterator
/// reports as malformed, its value unescaped by `Attribute::unescape_value`.
#[verifier::external_body]
fn element_of(e: &BytesStart) -> (r: Element) {
    let mut attributes = Vec::new();
    for a in e.attributes() {
        attributes.push(a.ok().map(|a| Attribute {
            key: String::from_utf8_lossy(a.key.as_ref()).into_owned(),
            value: String::from_utf8_lossy(&a.value).into_owned(),
            unescaped: a.unescape_value().ok().map(|v| v.into_owned()),
        }));
    }
    Element { name: String::from_utf8_lossy(e.name().as_ref()).into_owned(), attributes }
}

/// Relies on `quick_xml::Reader::read_event`: takes the next event of the stream, its
/// text unescaped by `BytesText::unescape`, and appends it to the reader's events.
/// A reader's events depend on its input alone, one call after another, so each is
/// named by the input and the number of calls before it.
#[verifier::external_body]
pub(crate) fn next_event(src: &mut EventReader)
    ensures
        final(src).input() == old(src).input(),
        final(src).events() == old(src).events().push(
            xml_event_at(old(src).input(), old(src).events().len() as int),
        ),
{
    let e = match src.reader.read_event() {
        Ok(Event::Start(e)) => XmlEvent::Start(element_of(&e)),
        Ok(Event::Empty(e)) => XmlEvent::Empty(element_of(&e)),
        Ok(Event::End(_)) => XmlEvent::End,
        Ok(Event::Text(e)) => XmlEvent::Text(
            e.unescape().map(|t| t.into_owned()).map_err(|x| x.to_string()),
        ),
        Ok(Event::CData(e)) => XmlEvent::CData(String::from_utf8_lossy(&e.into_inner()).into_owned()),
        Ok(Event::Eof) => XmlEvent::Eof,
        Ok(_) => XmlEvent::Other,
        Err(x) => XmlEvent::Malformed(x.to_string()),
    };
    src.events.push(e);
}

} // verus!
