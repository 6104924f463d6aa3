use vstd::prelude::*;
use crate::event::{str_eq, Element, XmlEvent};
use crate::model::{empty_feed, empty_item, Failure, FeedError, FeedModel, Item, ItemModel, RSS};
use crate::text::{atom_link, read_text, skip_element, skip_spec, text_spec, parse_atom_link};

verus! {

/// A `<link>` with content: its text when there is any, else its Atom `href`,
/// else the link stays as it was.
pub open spec fn chosen_link(text: Option<Seq<char>>, e: Element, prev: Option<Seq<char>>) -> Option<
    Seq<char>,
> {
    match text {
        Some(l) => Some(l),
        None => match atom_link(e.attributes@) {
            Some(l) => Some(l),
            None => prev,
        },
    }
}

/// The item built from the events of an `item` or `entry` element, starting at `pos`
/// with the fields in `acc`, and the position after its closing tag.
pub open spec fn item_spec(ev: Seq<XmlEvent>, pos: int, acc: ItemModel) -> Result<
    (ItemModel, int),
    Failure,
>
    decreases ev.len() - pos,
{
    if pos >= ev.len() {
        Ok((acc, pos))
    } else {
        match ev[pos] {
            XmlEvent::Empty(e) => if e.name@ == "link"@ && atom_link(e.attributes@) is Some {
                item_spec(ev, pos + 1, ItemModel { link: atom_link(e.attributes@), ..acc })
            } else {
                item_spec(ev, pos + 1, acc)
            },
            XmlEvent::Start(e) => if e.name@ == "title"@ || e.name@ == "link"@ || e.name@ == "id"@
                || e.name@ == "guid"@ {
                match text_spec(ev, pos + 1, None) {
                    Ok((t, p)) => if pos < p <= ev.len() {
                        item_spec(
                            ev,
                            p,
                            if e.name@ == "title"@ {
                                ItemModel { title: t, ..acc }
                            } else if e.name@ == "link"@ {
                                ItemModel { link: chosen_link(t, e, acc.link), ..acc }
                            } else {
                                ItemModel { id: t, ..acc }
                            },
                        )
                    } else {
                        Ok((acc, p))
                    },
                    Err(x) => Err(x),
                }
            } else {
                match skip_spec(ev, pos + 1) {
                    Ok(p) => if pos < p <= ev.len() {
                        item_spec(ev, p, acc)
                    } else {
                        Ok((acc, p))
                    },
                    Err(x) => Err(x),
                }
            },
            XmlEvent::End => Ok((acc, pos + 1)),
            XmlEvent::Eof => Ok((acc, pos)),
            XmlEvent::Malformed(m) => Err(Failure::Xml(m@)),
            _ => item_spec(ev, pos + 1, acc),
        }
    }
}

/// The feed after one child element of a feed body, given what that child yielded.
pub open spec fn feed_with_text(acc: FeedModel, e: Element, t: Option<Seq<char>>) -> FeedModel {
    if e.name@ == "title"@ {
        match t {
            Some(s) => FeedModel { title: s, ..acc },
            None => acc,
        }
    } else {
        match chosen_link(t, e, None) {
            Some(l) => FeedModel { link: l, ..acc },
            None => acc,
        }
    }
}

/// The feed built from the events of a `channel`, `feed` or `rdf:RDF` element,
/// starting at `pos` from `acc`, and the position after its closing tag.
pub open spec fn feed_spec(ev: Seq<XmlEvent>, pos: int, acc: FeedModel) -> Result<
    (FeedModel, int),
    Failure,
>
    decreases ev.len() - pos,
{
    if pos >= ev.len() {
        Ok((acc, pos))
    } else {
        match ev[pos] {
            XmlEvent::Empty(e) => if e.name@ == "link"@ && atom_link(e.attributes@) is Some {
                feed_spec(
                    ev,
                    pos + 1,
                    FeedModel { link: atom_link(e.attributes@)->Some_0, ..acc },
                )
            } else {
                feed_spec(ev, pos + 1, acc)
            },
            XmlEvent::Start(e) => if e.name@ == "channel"@ {
                match feed_spec(ev, pos + 1, empty_feed()) {
                    Ok((f, p)) => if pos < p <= ev.len() {
                        feed_spec(ev, p, FeedModel { title: f.title, link: f.link, ..acc })
                    } else {
                        Ok((acc, p))
                    },
                    Err(x) => Err(x),
                }
            } else if e.name@ == "title"@ || e.name@ == "link"@ {
                match text_spec(ev, pos + 1, None) {
                    Ok((t, p)) => if pos < p <= ev.len() {
                        feed_spec(ev, p, feed_with_text(acc, e, t))
                    } else {
                        Ok((acc, p))
                    },
                    Err(x) => Err(x),
                }
            } else if e.name@ == "item"@ || e.name@ == "entry"@ {
                match item_spec(ev, pos + 1, empty_item()) {
                    Ok((it, p)) => if pos < p <= ev.len() {
                        feed_spec(ev, p, FeedModel { items: acc.items.push(it), ..acc })
                    } else {
                        Ok((acc, p))
                    },
                    Err(x) => Err(x),
                }
            } else {
                match skip_spec(ev, pos + 1) {
                    Ok(p) => if pos < p <= ev.len() {
                        feed_spec(ev, p, acc)
                    } else {
                        Ok((acc, p))
                    },
                    Err(x) => Err(x),
                }
            },
            XmlEvent::End => Ok((acc, pos + 1)),
            XmlEvent::Eof => Ok((acc, pos)),
            XmlEvent::Malformed(m) => Err(Failure::Xml(m@)),
            _ => feed_spec(ev, pos + 1, acc),
        }
    }
}

/// Whether an element name opens a feed body.
pub open spec fn is_feed_root(name: Seq<char>) -> bool {
    name == "channel"@ || name == "feed"@ || name == "rdf:RDF"@
}

/// The feed that a whole event stream holds, read from `pos`: the body of the first
/// top-level `channel`, `feed` or `rdf:RDF` element (looking inside `rss`, skipping
/// other elements), or `Eof` when the stream ends first.
pub open spec fn root_spec(ev: Seq<XmlEvent>, pos: int) -> Result<FeedModel, Failure>
    decreases ev.len() - pos,
{
    if pos >= ev.len() {
        Err(Failure::Eof)
    } else {
        match ev[pos] {
            XmlEvent::Start(e) => if e.name@ == "rss"@ {
                root_spec(ev, pos + 1)
            } else if is_feed_root(e.name@) {
                match feed_spec(ev, pos + 1, empty_feed()) {
                    Ok((f, _)) => Ok(f),
                    Err(x) => Err(x),
                }
            } else {
                match skip_spec(ev, pos + 1) {
                    Ok(p) => if pos < p <= ev.len() {
                        root_spec(ev, p)
                    } else {
                        Err(Failure::Eof)
                    },
                    Err(x) => Err(x),
                }
            },
            XmlEvent::Eof => Err(Failure::Eof),
            XmlEvent::Malformed(m) => Err(Failure::Xml(m@)),
            _ => root_spec(ev, pos + 1),
        }
    }
}

/// The feed that a whole event stream holds.
pub open spec fn feed_of(ev: Seq<XmlEvent>) -> Result<FeedModel, Failure> {
    root_spec(ev, 0)
}

pub open spec fn item_view(r: Result<(Item, usize), FeedError>) -> Result<(ItemModel, int), Failure> {
    match r {
        Ok((i, p)) => Ok((i@, p as int)),
        Err(e) => Err(e@),
    }
}

pub open spec fn feed_view(r: Result<(RSS, usize), FeedError>) -> Result<(FeedModel, int), Failure> {
    match r {
        Ok((f, p)) => Ok((f@, p as int)),
        Err(e) => Err(e@),
    }
}

pub open spec fn result_view(r: Result<RSS, FeedError>) -> Result<FeedModel, Failure> {
    match r {
        Ok(f) => Ok(f@),
        Err(e) => Err(e@),
    }
}

/// Whether `name` is `lit`.
fn is_named(name: &String, lit: &str) -> (r: bool)
    ensures
        r == (name@ == lit@),
{
    str_eq(name.as_str(), lit)
}

/// Builds one item from the children of an `item` or `entry` element whose opening
/// tag ends just before `pos`: `title`, `link` (text, else Atom `href`), and `id` or
/// `guid`; other children are skipped.
pub fn parse_item(events: &Vec<XmlEvent>, pos: usize) -> (r: Result<(Item, usize), FeedError>)
    requires
        pos <= events.len(),
    ensures
        item_view(r) == item_spec(events@, pos as int, empty_item()),
        r matches Ok((_, p)) ==> pos <= p <= events.len(),
{
    let mut item = Item { title: None, link: None, id: None };
    let mut i: usize = pos;
    loop
        invariant
            pos <= i <= events.len(),
            item_spec(events@, i as int, item@) == item_spec(events@, pos as int, empty_item()),
        decreases events.len() - i,
    {
        if i >= events.len() {
            return Ok((item, i));
        }
        match &events[i] {
            XmlEvent::Empty(e) => {
                if is_named(&e.name, "link") {
                    match parse_atom_link(&e.attributes) {
                        Some(l) => {
                            item.link = Some(l);
                        },
                        None => {},
                    }
                }
                i = i + 1;
            },
            XmlEvent::Start(e) => {
                let title = is_named(&e.name, "title");
                let link = is_named(&e.name, "link");
                if title || link || is_named(&e.name, "id") || is_named(&e.name, "guid") {
                    match read_text(events, i + 1) {
                        Ok((t, p)) => {
                            if title {
                                item.title = t;
                            } else if link {
                                match t {
                                    Some(l) => {
                                        item.link = Some(l);
                                    },
                                    None => match parse_atom_link(&e.attributes) {
                                        Some(l) => {
                                            item.link = Some(l);
                                        },
                                        None => {},
                                    },
                                }
                            } else {
                                item.id = t;
                            }
                            i = p;
                        },
                        Err(x) => {
                            return Err(x);
                        },
                    }
                } else {
                    match skip_element(events, i + 1) {
                        Ok(p) => {
                            i = p;
                        },
                        Err(x) => {
                            return Err(x);
                        },
                    }
                }
            },
            XmlEvent::End => {
                return Ok((item, i + 1));
            },
            XmlEvent::Eof => {
                return Ok((item, i));
            },
            XmlEvent::Malformed(m) => {
                return Err(FeedError::Xml(m.clone()));
            },
            _ => {
                i = i + 1;
            },
        }
    }
}

/// Builds a feed from the children of a `channel`, `feed` or `rdf:RDF` element whose
/// opening tag ends just before `pos`. A nested `channel` (the RDF shape) gives its
/// title and link, and its own items are dropped: RDF places items beside it.
pub fn parse_feed(events: &Vec<XmlEvent>, pos: usize) -> (r: Result<(RSS, usize), FeedError>)
    requires
        pos <= events.len(),
    ensures
        feed_view(r) == feed_spec(events@, pos as int, empty_feed()),
        r matches Ok((_, p)) ==> pos <= p <= events.len(),
    decreases events.len() - pos,
{
    let mut rss = RSS::default();
    let mut i: usize = pos;
    loop
        invariant
            pos <= i <= events.len(),
            feed_spec(events@, i as int, rss@) == feed_spec(events@, pos as int, empty_feed()),
        decreases events.len() - i,
    {
        if i >= events.len() {
            return Ok((rss, i));
        }
        match &events[i] {
            XmlEvent::Empty(e) => {
                if is_named(&e.name, "link") {
                    match parse_atom_link(&e.attributes) {
                        Some(l) => {
                            rss.link = l;
                        },
                        None => {},
                    }
                }
                i = i + 1;
            },
            XmlEvent::Start(e) => {
                if is_named(&e.name, "channel") {
                    match parse_feed(events, i + 1) {
                        Ok((inner, p)) => {
                            rss.title = inner.title;
                            rss.link = inner.link;
                            i = p;
                        },
                        Err(x) => {
                            return Err(x);
                        },
                    }
                } else if is_named(&e.name, "title") || is_named(&e.name, "link") {
                    match read_text(events, i + 1) {
                        Ok((t, p)) => {
                            if is_named(&e.name, "title") {
                                match t {
                                    Some(s) => {
                                        rss.title = s;
                                    },
                                    None => {},
                                }
                            } else {
                                match t {
                                    Some(l) => {
                                        rss.link = l;
                                    },
                                    None => match parse_atom_link(&e.attributes) {
                                        Some(l) => {
                                            rss.link = l;
                                        },
                                        None => {},
                                    },
                                }
                            }
                            i = p;
                        },
                        Err(x) => {
                            return Err(x);
                        },
                    }
                } else if is_named(&e.name, "item") || is_named(&e.name, "entry") {
                    match parse_item(events, i + 1) {
                        Ok((it, p)) => {
                            proof {
                                assert(rss.items@.push(it).map_values(|x: Item| x@) =~= rss.items@.map_values(
                                    |x: Item| x@,
                                ).push(it@));
                            }
                            rss.items.push(it);
                            i = p;
                        },
                        Err(x) => {
                            return Err(x);
                        },
                    }
                } else {
                    match skip_element(events, i + 1) {
                        Ok(p) => {
                            i = p;
                        },
                        Err(x) => {
                            return Err(x);
                        },
                    }
                }
            },
            XmlEvent::End => {
                return Ok((rss, i + 1));
            },
            XmlEvent::Eof => {
                return Ok((rss, i));
            },
            XmlEvent::Malformed(m) => {
                return Err(FeedError::Xml(m.clone()));
            },
            _ => {
                i = i + 1;
            },
        }
    }
}

/// Reads the feed that an event stream holds: the first `channel`, `feed` or
/// `rdf:RDF` element met at the top level (an `rss` wrapper is looked into, other
/// elements are skipped whole). Fails with [`FeedError::Eof`] when the stream ends
/// before such an element, and with the tokenizer's message when it could not read.
pub fn parse_events(events: &Vec<XmlEvent>) -> (r: Result<RSS, FeedError>)
    ensures
        result_view(r) == feed_of(events@),
{
    let mut i: usize = 0;
    loop
        invariant
            i <= events.len(),
            root_spec(events@, i as int) == feed_of(events@),
        decreases events.len() - i,
    {
        if i >= events.len() {
            return Err(FeedError::Eof);
        }
        match &events[i] {
            XmlEvent::Start(e) => {
                if is_named(&e.name, "rss") {
                    i = i + 1;
                } else if is_named(&e.name, "channel") || is_named(&e.name, "feed") || is_named(
                    &e.name,
                    "rdf:RDF",
                ) {
                    return match parse_feed(events, i + 1) {
                        Ok((f, _)) => Ok(f),
                        Err(x) => Err(x),
                    };
                } else {
                    match skip_element(events, i + 1) {
                        Ok(p) => {
                            i = p;
                        },
                        Err(x) => {
                            return Err(x);
                        },
                    }
                }
            },
            XmlEvent::Eof => {
                return Err(FeedError::Eof);
            },
            XmlEvent::Malformed(m) => {
                return Err(FeedError::Xml(m.clone()));
            },
            _ => {
                i = i + 1;
            },
        }
    }
}

/// A value that can be read from the events of one element, starting just after
/// its opening tag and ending just after its closing tag.
pub trait FromXml: Sized {
    /// Whether `r` is what reading the element whose opening tag ends just before
    /// `pos` gives.
    spec fn parsed(events: Seq<XmlEvent>, pos: int, r: Result<(Self, usize), FeedError>) -> bool;

    fn from_xml(events: &Vec<XmlEvent>, pos: usize) -> (r: Result<(Self, usize), FeedError>)
        requires
            pos <= events.len(),
        ensures
            Self::parsed(events@, pos as int, r),
            r matches Ok((_, p)) ==> pos <= p <= events.len(),
    ;
}

impl FromXml for Option<String> {
    open spec fn parsed(events: Seq<XmlEvent>, pos: int, r: Result<(Self, usize), FeedError>) -> bool {
        crate::text::text_view(r) == text_spec(events, pos, None)
    }

    fn from_xml(events: &Vec<XmlEvent>, pos: usize) -> (r: Result<(Self, usize), FeedError>) {
        read_text(events, pos)
    }
}

impl FromXml for Item {
    open spec fn parsed(events: Seq<XmlEvent>, pos: int, r: Result<(Self, usize), FeedError>) -> bool {
        item_view(r) == item_spec(events, pos, empty_item())
    }

    fn from_xml(events: &Vec<XmlEvent>, pos: usize) -> (r: Result<(Self, usize), FeedError>) {
        parse_item(events, pos)
    }
}

impl FromXml for RSS {
    open spec fn parsed(events: Seq<XmlEvent>, pos: int, r: Result<(Self, usize), FeedError>) -> bool {
        feed_view(r) == feed_spec(events, pos, empty_feed())
    }

    fn from_xml(events: &Vec<XmlEvent>, pos: usize) -> (r: Result<(Self, usize), FeedError>) {
        parse_feed(events, pos)
    }
}

} // verus!
