use vstd::prelude::*;
use quick_xml::events::BytesStart;
use quick_xml::reader::Reader;
use crate::event::XmlEvent;
use crate::reader::{next_event, xml_event_at, EventReader};
use crate::model::{FeedError, RSS};
use crate::parser::{feed_of, parse_events, result_view};

verus! {

#[verifier::external_type_specification]
#[verifier::external_body]
#[verifier::reject_recursive_types(R)]
pub struct ExReader<R>(Reader<R>);

#[verifier::external_type_specification]
#[verifier::external_body]
pub struct ExBytesStart<'a>(BytesStart<'a>);

/// Whether the stream stops at this event: the end of the input, or input that
/// could not be read.
pub open spec fn is_last(e: XmlEvent) -> bool {
    e is Eof || e is Malformed
}

/// The most events read from an input of `n` bytes: every event but the end
/// consumes at least one byte, so `n + 1` (kept within `usize`).
pub open spec fn event_bound(n: nat) -> int {
    if n < usize::MAX {
        n as int + 1
    } else {
        n as int
    }
}

/// How many events are read from `input` when `k` have been read and none of them
/// stopped the stream: up to and including the first that stops it, within the bound.
pub open spec fn stop_at(input: Seq<u8>, k: int) -> int
    decreases event_bound(input.len()) - k,
{
    if k < 0 || k >= event_bound(input.len()) {
        k
    } else if is_last(xml_event_at(input, k)) {
        k + 1
    } else {
        stop_at(input, k + 1)
    }
}

/// The events of `input`: the reader's events in order, up to and including the
/// first end of input or failure to read.
pub open spec fn xml_events(input: Seq<u8>) -> Seq<XmlEvent> {
    Seq::new(stop_at(input, 0) as nat, |i: int| xml_event_at(input, i))
}

/// Tokenizes `input` into its events, up to and including the first end of input
/// or failure to read.
pub fn read_events(input: &[u8]) -> (r: Vec<XmlEvent>)
    ensures
        r@ == xml_events(input@),
{
    let mut src = EventReader::open(input);
    let bound: usize = if input.len() < usize::MAX {
        input.len() + 1
    } else {
        input.len()
    };
    let mut done = false;
    while !done && src.count() < bound
        invariant
            bound == event_bound(input@.len()),
            src.events().len() <= bound,
            src.input() == input@,
            src.events() =~= Seq::new(src.events().len(), |j: int| xml_event_at(input@, j)),
            !done ==> stop_at(input@, 0) == stop_at(input@, src.events().len() as int),
            done ==> stop_at(input@, 0) == src.events().len(),
        decreases bound - src.events().len(),
    {
        next_event(&mut src);
        done = src.stopped();
    }
    assert(stop_at(input@, 0) == src.events().len());
    src.into_events()
}

/// Parses a feed document: the feed that the events of `input` hold, as
/// [`parse_events`] reads it. The tokenizer reads no further than the stream's end
/// or its first failure, so input after that never matters.
pub fn parse(input: &[u8]) -> (r: Result<RSS, FeedError>)
    ensures
        result_view(r) == feed_of(xml_events(input@)),
{
    let events = read_events(input);
    parse_events(&events)
}

} // verus!
