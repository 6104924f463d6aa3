use vstd::prelude::*;
use crate::event::{Attribute, XmlEvent};
use crate::model::{Failure, FeedError};

verus! {

/// What skipping the subtree whose opening tag was just read leaves: the position
/// after its closing tag (or at the end of the stream), or the tokenizer's failure.
pub open spec fn skip_spec(ev: Seq<XmlEvent>, pos: int) -> Result<int, Failure>
    decreases ev.len() - pos,
{
    if pos >= ev.len() {
        Ok(pos)
    } else {
        match ev[pos] {
            XmlEvent::Start(_) => match skip_spec(ev, pos + 1) {
                Ok(p) => if pos < p <= ev.len() {
                    skip_spec(ev, p)
                } else {
                    Ok(p)
                },
                Err(e) => Err(e),
            },
            XmlEvent::End => Ok(pos + 1),
            XmlEvent::Eof => Ok(pos),
            XmlEvent::Malformed(m) => Err(Failure::Xml(m@)),
            _ => skip_spec(ev, pos + 1),
        }
    }
}

/// The text of the element whose opening tag was just read: the last text or CDATA
/// fragment at its own level (`acc` is what was seen so far), and where it ends.
pub open spec fn text_spec(ev: Seq<XmlEvent>, pos: int, acc: Option<Seq<char>>) -> Result<
    (Option<Seq<char>>, int),
    Failure,
>
    decreases ev.len() - pos,
{
    if pos >= ev.len() {
        Ok((acc, pos))
    } else {
        match ev[pos] {
            XmlEvent::Start(_) => match skip_spec(ev, pos + 1) {
                Ok(p) => if pos < p <= ev.len() {
                    text_spec(ev, p, acc)
                } else {
                    Ok((acc, p))
                },
                Err(e) => Err(e),
            },
            XmlEvent::Text(t) => match t {
                Ok(s) => text_spec(ev, pos + 1, Some(s@)),
                Err(m) => Err(Failure::Xml(m@)),
            },
            XmlEvent::CData(s) => text_spec(ev, pos + 1, Some(s@)),
            XmlEvent::End => Ok((acc, pos + 1)),
            XmlEvent::Eof => Ok((acc, pos)),
            XmlEvent::Malformed(m) => Err(Failure::Xml(m@)),
            _ => text_spec(ev, pos + 1, acc),
        }
    }
}

/// The value of the last readable `href` attribute.
pub open spec fn last_href(attrs: Seq<Option<Attribute>>) -> Option<Seq<char>>
    decreases attrs.len(),
{
    if attrs.len() == 0 {
        None
    } else {
        match attrs.last() {
            Some(a) => if a.key@ == "href"@ && a.unescaped is Some {
                Some(a.unescaped->Some_0@)
            } else {
                last_href(attrs.drop_last())
            },
            None => last_href(attrs.drop_last()),
        }
    }
}

/// Whether the link is an alternate one: no `rel` attribute, or the last one says `alternate`.
pub open spec fn is_alternate(attrs: Seq<Option<Attribute>>) -> bool
    decreases attrs.len(),
{
    if attrs.len() == 0 {
        true
    } else {
        match attrs.last() {
            Some(a) => if a.key@ == "rel"@ {
                a.value@ == "alternate"@
            } else {
                is_alternate(attrs.drop_last())
            },
            None => is_alternate(attrs.drop_last()),
        }
    }
}

/// The link that an Atom `<link>` element gives: its `href`, when it is an alternate link.
pub open spec fn atom_link(attrs: Seq<Option<Attribute>>) -> Option<Seq<char>> {
    if is_alternate(attrs) {
        last_href(attrs)
    } else {
        None
    }
}

pub open spec fn pos_view(r: Result<usize, FeedError>) -> Result<int, Failure> {
    match r {
        Ok(p) => Ok(p as int),
        Err(e) => Err(e@),
    }
}

pub open spec fn text_view(r: Result<(Option<String>, usize), FeedError>) -> Result<
    (Option<Seq<char>>, int),
    Failure,
> {
    match r {
        Ok((t, p)) => Ok((crate::model::opt_view(t), p as int)),
        Err(e) => Err(e@),
    }
}

/// Skips the subtree whose opening tag ends just before `pos`, nested subtrees
/// included, and returns the position after its closing tag.
pub fn skip_element(events: &Vec<XmlEvent>, pos: usize) -> (r: Result<usize, FeedError>)
    requires
        pos <= events.len(),
    ensures
        pos_view(r) == skip_spec(events@, pos as int),
        r matches Ok(p) ==> pos <= p <= events.len(),
    decreases events.len() - pos,
{
    let mut i: usize = pos;
    loop
        invariant
            pos <= i <= events.len(),
            skip_spec(events@, i as int) == skip_spec(events@, pos as int),
        decreases events.len() - i,
    {
        if i >= events.len() {
            return Ok(i);
        }
        match &events[i] {
            XmlEvent::Start(_) => {
                match skip_element(events, i + 1) {
                    Ok(p) => {
                        i = p;
                    },
                    Err(e) => {
                        return Err(e);
                    },
                }
            },
            XmlEvent::End => {
                return Ok(i + 1);
            },
            XmlEvent::Eof => {
                return Ok(i);
            },
            XmlEvent::Malformed(m) => {
                return Err(FeedError::Xml(m.clone()));
            },
            _ => {
                i = i + 1;
            },
        }
    }
}

/// Reads the text of the element whose opening tag ends just before `pos`: the last
/// text or CDATA fragment at its own level, nested elements skipped.
pub fn read_text(events: &Vec<XmlEvent>, pos: usize) -> (r: Result<(Option<String>, usize), FeedError>)
    requires
        pos <= events.len(),
    ensures
        text_view(r) == text_spec(events@, pos as int, None),
        r matches Ok((_, p)) ==> pos <= p <= events.len(),
{
    let mut content: Option<String> = None;
    let mut i: usize = pos;
    loop
        invariant
            pos <= i <= events.len(),
            text_spec(events@, i as int, crate::model::opt_view(content)) == text_spec(
                events@,
                pos as int,
                None,
            ),
        decreases events.len() - i,
    {
        if i >= events.len() {
            return Ok((content, i));
        }
        match &events[i] {
            XmlEvent::Start(_) => {
                match skip_element(events, i + 1) {
                    Ok(p) => {
                        i = p;
                    },
                    Err(e) => {
                        return Err(e);
                    },
                }
            },
            XmlEvent::Text(t) => {
                match t {
                    Ok(s) => {
                        content = Some(s.clone());
                        i = i + 1;
                    },
                    Err(m) => {
                        return Err(FeedError::Xml(m.clone()));
                    },
                }
            },
            XmlEvent::CData(s) => {
                content = Some(s.clone());
                i = i + 1;
            },
            XmlEvent::End => {
                return Ok((content, i + 1));
            },
            XmlEvent::Eof => {
                return Ok((content, i));
            },
            XmlEvent::Malformed(m) => {
                return Err(FeedError::Xml(m.clone()));
            },
            _ => {
                i = i + 1;
            },
        }
    }
}

/// The `href` of an Atom link element when its `rel` is absent or `alternate`.
/// Attributes that could not be read are passed over.
pub fn parse_atom_link(attributes: &Vec<Option<Attribute>>) -> (r: Option<String>)
    ensures
        crate::model::opt_view(r) == atom_link(attributes@),
{
    let mut link_tmp: Option<String> = None;
    let mut alternate = true;
    let mut i: usize = 0;
    while i < attributes.len()
        invariant
            i <= attributes.len(),
            crate::model::opt_view(link_tmp) == last_href(attributes@.take(i as int)),
            alternate == is_alternate(attributes@.take(i as int)),
        decreases attributes.len() - i,
    {
        assert(attributes@.take(i + 1).drop_last() =~= attributes@.take(i as int));
        assert(attributes@.take(i + 1).last() == attributes@[i as int]);
        proof {
            reveal_strlit("href");
            reveal_strlit("rel");
            assert("href"@.len() != "rel"@.len());
        }
        match &attributes[i] {
            Some(a) => {
                if crate::event::str_eq(a.key.as_str(), "href") {
                    match &a.unescaped {
                        Some(u) => {
                            link_tmp = Some(u.clone());
                        },
                        None => {},
                    }
                } else if crate::event::str_eq(a.key.as_str(), "rel") {
                    alternate = crate::event::str_eq(a.value.as_str(), "alternate");
                }
            },
            None => {},
        }
        i = i + 1;
    }
    assert(attributes@.take(attributes.len() as int) =~= attributes@);
    if alternate {
        link_tmp
    } else {
        None
    }
}

} // verus!
