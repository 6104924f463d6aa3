use vstd::prelude::*;
use crate::event::{Element, XmlEvent};
use crate::model::{empty_feed, empty_item, Failure, FeedModel, ItemModel};
use crate::parser::{chosen_link, feed_of, feed_spec, feed_with_text, is_feed_root, item_spec, root_spec};
use crate::text::{atom_link, skip_spec, text_spec};
use crate::xml::xml_events;

verus! {

/// Whether the tokenizer failed at this event.
pub open spec fn is_failure(e: XmlEvent) -> bool {
    e is Malformed
}

/// Whether this event opens a feed body: a `channel`, `feed` or `rdf:RDF` tag with content.
pub open spec fn opens_feed(e: XmlEvent) -> bool {
    match e {
        XmlEvent::Start(el) => is_feed_root(el.name@),
        _ => false,
    }
}

/// On a stream the tokenizer read without failure, skipping succeeds and moves
/// forward, never past the end.
pub proof fn lemma_skip_succeeds(ev: Seq<XmlEvent>, pos: int)
    requires
        0 <= pos <= ev.len(),
        forall|i: int| 0 <= i < ev.len() ==> !is_failure(#[trigger] ev[i]),
    ensures
        skip_spec(ev, pos) matches Ok(p) && pos <= p <= ev.len(),
    decreases ev.len() - pos,
{
    if pos < ev.len() {
        assert(!is_failure(ev[pos]));
        match ev[pos] {
            XmlEvent::Start(_) => {
                lemma_skip_succeeds(ev, pos + 1);
                let p = skip_spec(ev, pos + 1)->Ok_0;
                lemma_skip_succeeds(ev, p);
            },
            XmlEvent::End => {},
            XmlEvent::Eof => {},
            XmlEvent::Malformed(_) => {},
            _ => {
                lemma_skip_succeeds(ev, pos + 1);
            },
        }
    }
}

proof fn lemma_root_not_found(ev: Seq<XmlEvent>, pos: int)
    requires
        0 <= pos <= ev.len(),
        forall|i: int| 0 <= i < ev.len() ==> !is_failure(#[trigger] ev[i]),
        forall|i: int| 0 <= i < ev.len() ==> !opens_feed(#[trigger] ev[i]),
    ensures
        root_spec(ev, pos) == Err::<FeedModel, Failure>(Failure::Eof),
    decreases ev.len() - pos,
{
    if pos < ev.len() {
        assert(!is_failure(ev[pos]) && !opens_feed(ev[pos]));
        match ev[pos] {
            XmlEvent::Start(e) => {
                if e.name@ == "rss"@ {
                    lemma_root_not_found(ev, pos + 1);
                } else {
                    lemma_skip_succeeds(ev, pos + 1);
                    let p = skip_spec(ev, pos + 1)->Ok_0;
                    lemma_root_not_found(ev, p);
                }
            },
            XmlEvent::Eof => {},
            XmlEvent::Malformed(_) => {},
            _ => {
                lemma_root_not_found(ev, pos + 1);
            },
        }
    }
}

/// A stream that the tokenizer read to its end without failure, and in which no
/// `channel`, `feed` or `rdf:RDF` element opens, holds no feed: reading it fails
/// with `Eof`, the "no feed body found" failure.
pub proof fn lemma_no_root_is_eof(ev: Seq<XmlEvent>)
    requires
        forall|i: int| 0 <= i < ev.len() ==> !is_failure(#[trigger] ev[i]),
        forall|i: int| 0 <= i < ev.len() ==> !opens_feed(#[trigger] ev[i]),
    ensures
        feed_of(ev) == Err::<FeedModel, Failure>(Failure::Eof),
{
    lemma_root_not_found(ev, 0);
}

proof fn lemma_names_differ()
    ensures
        "title"@ != "channel"@,
        "title"@ != "rss"@,
        "item"@ != "channel"@,
        "item"@ != "title"@,
        "item"@ != "link"@,
        "entry"@ != "channel"@,
        "entry"@ != "title"@,
        "entry"@ != "link"@,
        "channel"@ != "rss"@,
        "channel"@ != "feed"@,
        "feed"@ != "rss"@,
        "rdf:RDF"@ != "rss"@,
{
    reveal_strlit("title");
    reveal_strlit("channel");
    reveal_strlit("rss");
    reveal_strlit("item");
    reveal_strlit("link");
    reveal_strlit("entry");
    reveal_strlit("feed");
    reveal_strlit("rdf:RDF");
    assert("title"@[0] != "channel"@[0]);
    assert("title"@.len() != "rss"@.len());
    assert("item"@[0] != "channel"@[0]);
    assert("item"@[0] != "title"@[0]);
    assert("item"@[0] != "link"@[0]);
    assert("entry"@[0] != "channel"@[0]);
    assert("entry"@[0] != "title"@[0]);
    assert("entry"@[0] != "link"@[0]);
    assert("channel"@.len() != "rss"@.len());
    assert("channel"@.len() != "feed"@.len());
    assert("feed"@.len() != "rss"@.len());
    assert("rdf:RDF"@.len() != "rss"@.len());
}

/// A feed body holding a title with text `t` and one item yields one item and the
/// title `t`, whichever of `channel`, `feed` or `rdf:RDF` it is.
pub proof fn lemma_one_item_feed(
    ev: Seq<XmlEvent>,
    root: Element,
    title: Element,
    t: String,
    item: Element,
)
    requires
        is_feed_root(root.name@),
        title.name@ == "title"@,
        item.name@ == "item"@ || item.name@ == "entry"@,
        ev == seq![
            XmlEvent::Start(root),
            XmlEvent::Start(title),
            XmlEvent::Text(Ok(t)),
            XmlEvent::End,
            XmlEvent::Start(item),
            XmlEvent::End,
            XmlEvent::End,
            XmlEvent::Eof,
        ],
    ensures
        feed_of(ev) matches Ok(f) && f.items.len() == 1 && f.title == t@,
{
    lemma_names_differ();
    assert(text_spec(ev, 2, None) == Ok::<(Option<Seq<char>>, int), Failure>((Some(t@), 4))) by {
        assert(text_spec(ev, 3, Some(t@)) == Ok::<(Option<Seq<char>>, int), Failure>((Some(t@), 4)));
    }
    let with_title = FeedModel { title: t@, ..empty_feed() };
    assert(item_spec(ev, 5, empty_item()) == Ok::<(ItemModel, int), Failure>((empty_item(), 6)));
    let done = FeedModel { items: seq![empty_item()], ..with_title };
    assert(feed_spec(ev, 6, done) == Ok::<(FeedModel, int), Failure>((done, 7)));
    assert(with_title.items.push(empty_item()) =~= seq![empty_item()]);
    assert(feed_spec(ev, 4, with_title) == feed_spec(ev, 6, done));
    assert(feed_spec(ev, 1, empty_feed()) == feed_spec(ev, 4, with_title));
}

/// The RDF shape: a `channel` holding the title `t`, beside it one item, all inside
/// `rdf:RDF`, yields one item and the title `t`.
pub proof fn lemma_one_item_rdf(
    ev: Seq<XmlEvent>,
    root: Element,
    channel: Element,
    title: Element,
    t: String,
    item: Element,
)
    requires
        root.name@ == "rdf:RDF"@,
        channel.name@ == "channel"@,
        title.name@ == "title"@,
        item.name@ == "item"@,
        ev == seq![
            XmlEvent::Start(root),
            XmlEvent::Start(channel),
            XmlEvent::Start(title),
            XmlEvent::Text(Ok(t)),
            XmlEvent::End,
            XmlEvent::End,
            XmlEvent::Start(item),
            XmlEvent::End,
            XmlEvent::End,
            XmlEvent::Eof,
        ],
    ensures
        feed_of(ev) matches Ok(f) && f.items.len() == 1 && f.title == t@,
{
    lemma_names_differ();
    assert(text_spec(ev, 3, None) == Ok::<(Option<Seq<char>>, int), Failure>((Some(t@), 5))) by {
        assert(text_spec(ev, 4, Some(t@)) == Ok::<(Option<Seq<char>>, int), Failure>((Some(t@), 5)));
    }
    let with_title = FeedModel { title: t@, ..empty_feed() };
    assert(feed_spec(ev, 5, with_title) == Ok::<(FeedModel, int), Failure>((with_title, 6)));
    assert(feed_spec(ev, 2, empty_feed()) == Ok::<(FeedModel, int), Failure>((with_title, 6)));
    assert(item_spec(ev, 7, empty_item()) == Ok::<(ItemModel, int), Failure>((empty_item(), 8)));
    let done = FeedModel { items: seq![empty_item()], ..with_title };
    assert(feed_spec(ev, 8, done) == Ok::<(FeedModel, int), Failure>((done, 9)));
    assert(with_title.items.push(empty_item()) =~= seq![empty_item()]);
    assert(feed_spec(ev, 6, with_title) == feed_spec(ev, 8, done));
    assert(feed_spec(ev, 1, empty_feed()) == feed_spec(ev, 6, with_title));
    assert("rdf:RDF"@ != "channel"@) by {
        reveal_strlit("rdf:RDF");
        reveal_strlit("channel");
        assert("rdf:RDF"@[0] != "channel"@[0]);
    }
}

/// Of two `title` elements in a feed body, the second one's text is the title.
pub proof fn lemma_last_title_wins(
    ev: Seq<XmlEvent>,
    root: Element,
    first: Element,
    a: String,
    second: Element,
    b: String,
)
    requires
        is_feed_root(root.name@),
        first.name@ == "title"@,
        second.name@ == "title"@,
        ev == seq![
            XmlEvent::Start(root),
            XmlEvent::Start(first),
            XmlEvent::Text(Ok(a)),
            XmlEvent::End,
            XmlEvent::Start(second),
            XmlEvent::Text(Ok(b)),
            XmlEvent::End,
            XmlEvent::End,
            XmlEvent::Eof,
        ],
    ensures
        feed_of(ev) matches Ok(f) && f.title == b@,
{
    lemma_names_differ();
    assert(text_spec(ev, 2, None) == Ok::<(Option<Seq<char>>, int), Failure>((Some(a@), 4))) by {
        assert(text_spec(ev, 3, Some(a@)) == Ok::<(Option<Seq<char>>, int), Failure>((Some(a@), 4)));
    }
    assert(text_spec(ev, 5, None) == Ok::<(Option<Seq<char>>, int), Failure>((Some(b@), 7))) by {
        assert(text_spec(ev, 6, Some(b@)) == Ok::<(Option<Seq<char>>, int), Failure>((Some(b@), 7)));
    }
    let fa = FeedModel { title: a@, ..empty_feed() };
    let fb = FeedModel { title: b@, ..empty_feed() };
    assert(feed_spec(ev, 7, fb) == Ok::<(FeedModel, int), Failure>((fb, 8)));
    assert(feed_spec(ev, 4, fa) == feed_spec(ev, 7, fb));
    assert(feed_spec(ev, 1, empty_feed()) == feed_spec(ev, 4, fa));
}

/// How an event changes the nesting depth.
pub open spec fn nesting(e: XmlEvent) -> int {
    match e {
        XmlEvent::Start(_) => 1,
        XmlEvent::End => -1,
        _ => 0,
    }
}

/// The change of nesting depth over the events from `a` up to, not including, `b`.
pub open spec fn depth(ev: Seq<XmlEvent>, a: int, b: int) -> int
    decreases b - a,
{
    if b <= a {
        0
    } else {
        depth(ev, a, b - 1) + nesting(ev[b - 1])
    }
}

/// The events from `pos` are the well-nested content of an element whose closing tag
/// is at `q`: every tag opened in between is closed before `q`, none closes more
/// than was opened, and the tokenizer neither failed nor ended in between.
pub open spec fn closes_at(ev: Seq<XmlEvent>, pos: int, q: int) -> bool {
    &&& 0 <= pos <= q < ev.len()
    &&& ev[q] is End
    &&& depth(ev, pos, q) == 0
    &&& forall|n: int| pos <= n <= q ==> #[trigger] depth(ev, pos, n) >= 0
    &&& forall|i: int| pos <= i < q ==> !is_failure(#[trigger] ev[i]) && !(ev[i] is Eof)
}

proof fn lemma_depth_split(ev: Seq<XmlEvent>, a: int, b: int, c: int)
    requires
        a <= b <= c,
    ensures
        depth(ev, a, c) == depth(ev, a, b) + depth(ev, b, c),
    decreases c - b,
{
    if c > b {
        lemma_depth_split(ev, a, b, c - 1);
    }
}

proof fn lemma_first_zero(ev: Seq<XmlEvent>, pos: int, n: int, q: int) -> (m: int)
    requires
        pos < n <= q,
        depth(ev, pos, q) == 0,
        forall|k: int| pos < k < n ==> #[trigger] depth(ev, pos, k) != 0,
    ensures
        n <= m <= q,
        depth(ev, pos, m) == 0,
        forall|k: int| pos < k < m ==> #[trigger] depth(ev, pos, k) != 0,
    decreases q - n,
{
    if depth(ev, pos, n) == 0 {
        n
    } else {
        lemma_first_zero(ev, pos, n + 1, q)
    }
}

/// An element's content that is well nested, however deep, is skipped whole:
/// reading resumes just after its closing tag.
pub proof fn lemma_skip_whole_subtree(ev: Seq<XmlEvent>, pos: int, q: int)
    requires
        closes_at(ev, pos, q),
    ensures
        skip_spec(ev, pos) == Ok::<int, Failure>(q + 1),
    decreases q - pos,
{
    if pos < q {
        assert(!is_failure(ev[pos]) && !(ev[pos] is Eof));
        assert(depth(ev, pos, pos + 1) >= 0);
        assert(depth(ev, pos, pos) == 0);
        assert(depth(ev, pos, pos + 1) == nesting(ev[pos]));
        match ev[pos] {
            XmlEvent::Start(_) => {
                let m = lemma_first_zero(ev, pos, pos + 1, q);
                assert(m >= pos + 2);
                assert(depth(ev, pos, m - 1) != 0 && depth(ev, pos, m - 1) >= 0);
                assert(ev[m - 1] is End);
                assert forall|n: int| pos + 1 <= n <= m - 1 implies #[trigger] depth(ev, pos + 1, n) >= 0 by {
                    lemma_depth_split(ev, pos, pos + 1, n);
                    assert(depth(ev, pos, n) >= 0);
                    if n > pos + 1 {
                        assert(depth(ev, pos, n) != 0);
                    }
                }
                lemma_depth_split(ev, pos, pos + 1, m - 1);
                assert(closes_at(ev, pos + 1, m - 1));
                lemma_skip_whole_subtree(ev, pos + 1, m - 1);
                assert forall|n: int| m <= n <= q implies #[trigger] depth(ev, m, n) >= 0 by {
                    lemma_depth_split(ev, pos, m, n);
                    assert(depth(ev, pos, n) >= 0);
                }
                lemma_depth_split(ev, pos, m, q);
                assert(closes_at(ev, m, q));
                lemma_skip_whole_subtree(ev, m, q);
            },
            XmlEvent::End => {},
            XmlEvent::Eof => {},
            XmlEvent::Malformed(_) => {},
            _ => {
                assert forall|n: int| pos + 1 <= n <= q implies #[trigger] depth(ev, pos + 1, n) >= 0 by {
                    lemma_depth_split(ev, pos, pos + 1, n);
                    assert(depth(ev, pos, n) >= 0);
                }
                lemma_depth_split(ev, pos, pos + 1, q);
                lemma_skip_whole_subtree(ev, pos + 1, q);
            },
        }
    }
}

/// Whether a feed body reads anything from a child element of this name.
pub open spec fn known_in_feed(name: Seq<char>) -> bool {
    name == "channel"@ || name == "title"@ || name == "link"@ || name == "item"@ || name
        == "entry"@
}

/// Whether an item reads anything from a child element of this name.
pub open spec fn known_in_item(name: Seq<char>) -> bool {
    name == "title"@ || name == "link"@ || name == "id"@ || name == "guid"@
}

/// An unknown, well-nested element inside a feed body changes nothing: reading goes on
/// just after its closing tag with the feed as it was.
pub proof fn lemma_feed_passes_unknown(ev: Seq<XmlEvent>, pos: int, q: int, acc: FeedModel)
    requires
        0 <= pos,
        ev[pos] matches XmlEvent::Start(e) && !known_in_feed(e.name@),
        closes_at(ev, pos + 1, q),
    ensures
        feed_spec(ev, pos, acc) == feed_spec(ev, q + 1, acc),
{
    lemma_skip_whole_subtree(ev, pos + 1, q);
}

/// An unknown, well-nested element inside an item changes nothing: reading goes on
/// just after its closing tag with the item as it was.
pub proof fn lemma_item_passes_unknown(ev: Seq<XmlEvent>, pos: int, q: int, acc: ItemModel)
    requires
        0 <= pos,
        ev[pos] matches XmlEvent::Start(e) && !known_in_item(e.name@),
        closes_at(ev, pos + 1, q),
    ensures
        item_spec(ev, pos, acc) == item_spec(ev, q + 1, acc),
{
    lemma_skip_whole_subtree(ev, pos + 1, q);
}

/// An item that closes with nothing read is an item with no title, link or id, and
/// not a failure.
pub proof fn lemma_item_without_children(ev: Seq<XmlEvent>, pos: int)
    requires
        0 <= pos < ev.len(),
        ev[pos] is End,
    ensures
        item_spec(ev, pos, empty_item()) == Ok::<(ItemModel, int), Failure>((empty_item(), pos + 1)),
{
}

/// Whether scanning the top level of a stream from `pos` (looking into `rss`, skipping
/// any other element whole) reaches the end of input without meeting a `channel`,
/// `feed` or `rdf:RDF` element and without a failure to read.
pub open spec fn no_feed_at_top_level(ev: Seq<XmlEvent>, pos: int) -> bool
    decreases ev.len() - pos,
{
    if pos >= ev.len() {
        true
    } else {
        match ev[pos] {
            XmlEvent::Start(e) => if e.name@ == "rss"@ {
                no_feed_at_top_level(ev, pos + 1)
            } else if is_feed_root(e.name@) {
                false
            } else {
                match skip_spec(ev, pos + 1) {
                    Ok(p) => pos < p <= ev.len() && no_feed_at_top_level(ev, p),
                    Err(_) => false,
                }
            },
            XmlEvent::Eof => true,
            XmlEvent::Malformed(_) => false,
            _ => no_feed_at_top_level(ev, pos + 1),
        }
    }
}

proof fn lemma_top_level_scan(ev: Seq<XmlEvent>, pos: int)
    requires
        0 <= pos,
        no_feed_at_top_level(ev, pos),
    ensures
        root_spec(ev, pos) == Err::<FeedModel, Failure>(Failure::Eof),
    decreases ev.len() - pos,
{
    if pos < ev.len() {
        match ev[pos] {
            XmlEvent::Start(e) => {
                if e.name@ == "rss"@ {
                    lemma_top_level_scan(ev, pos + 1);
                } else {
                    let p = skip_spec(ev, pos + 1)->Ok_0;
                    lemma_top_level_scan(ev, p);
                }
            },
            XmlEvent::Eof => {},
            XmlEvent::Malformed(_) => {},
            _ => {
                lemma_top_level_scan(ev, pos + 1);
            },
        }
    }
}

/// A document whose events, scanned at the top level (looking into `rss`, skipping
/// any other element whole, a feed element nested in a skipped one included), end
/// without a `channel`, `feed` or `rdf:RDF` element and without a failure to read
/// holds no feed: [`parse`](crate::parse) fails with `Eof`, "no feed body found".
/// The empty document is one of them.
pub proof fn lemma_parse_without_root(input: Seq<u8>)
    requires
        no_feed_at_top_level(xml_events(input), 0),
    ensures
        feed_of(xml_events(input)) == Err::<FeedModel, Failure>(Failure::Eof),
{
    lemma_top_level_scan(xml_events(input), 0);
}

/// The events of `ev1` from `p1` on are those of `ev2` from `p2` on.
pub open spec fn same_from(ev1: Seq<XmlEvent>, p1: int, ev2: Seq<XmlEvent>, p2: int) -> bool {
    &&& 0 <= p1
    &&& 0 <= p2
    &&& ev1.len() - p1 == ev2.len() - p2
    &&& forall|i: int| p1 <= i < ev1.len() ==> #[trigger] ev1[i] == ev2[i - (p1 - p2)]
}

/// A result of reading, with its position moved by `d`.
pub open spec fn shifted<T>(r: Result<(T, int), Failure>, d: int) -> Result<(T, int), Failure> {
    match r {
        Ok((v, p)) => Ok((v, p + d)),
        Err(e) => Err(e),
    }
}

pub open spec fn shifted_pos(r: Result<int, Failure>, d: int) -> Result<int, Failure> {
    match r {
        Ok(p) => Ok(p + d),
        Err(e) => Err(e),
    }
}

proof fn lemma_skip_shift(ev1: Seq<XmlEvent>, p1: int, ev2: Seq<XmlEvent>, p2: int)
    requires
        same_from(ev1, p1, ev2, p2),
    ensures
        skip_spec(ev1, p1) == shifted_pos(skip_spec(ev2, p2), p1 - p2),
    decreases ev1.len() - p1,
{
    if p1 < ev1.len() {
        assert(ev1[p1] == ev2[p2]);
        lemma_skip_shift(ev1, p1 + 1, ev2, p2 + 1);
        if ev1[p1] is Start {
            match skip_spec(ev1, p1 + 1) {
                Ok(q) => if p1 < q <= ev1.len() {
                    lemma_skip_shift(ev1, q, ev2, q - (p1 - p2));
                },
                Err(_) => {},
            }
        }
    }
}

proof fn lemma_text_shift(ev1: Seq<XmlEvent>, p1: int, ev2: Seq<XmlEvent>, p2: int, acc: Option<Seq<char>>)
    requires
        same_from(ev1, p1, ev2, p2),
    ensures
        text_spec(ev1, p1, acc) == shifted(text_spec(ev2, p2, acc), p1 - p2),
    decreases ev1.len() - p1,
{
    if p1 < ev1.len() {
        assert(ev1[p1] == ev2[p2]);
        match ev1[p1] {
            XmlEvent::Start(_) => {
                lemma_skip_shift(ev1, p1 + 1, ev2, p2 + 1);
                match skip_spec(ev1, p1 + 1) {
                    Ok(q) => if p1 < q <= ev1.len() {
                        lemma_text_shift(ev1, q, ev2, q - (p1 - p2), acc);
                    },
                    Err(_) => {},
                }
            },
            XmlEvent::Text(t) => match t {
                Ok(x) => lemma_text_shift(ev1, p1 + 1, ev2, p2 + 1, Some(x@)),
                Err(_) => {},
            },
            XmlEvent::CData(x) => lemma_text_shift(ev1, p1 + 1, ev2, p2 + 1, Some(x@)),
            _ => lemma_text_shift(ev1, p1 + 1, ev2, p2 + 1, acc),
        }
    }
}

proof fn lemma_item_shift(ev1: Seq<XmlEvent>, p1: int, ev2: Seq<XmlEvent>, p2: int, acc: ItemModel)
    requires
        same_from(ev1, p1, ev2, p2),
    ensures
        item_spec(ev1, p1, acc) == shifted(item_spec(ev2, p2, acc), p1 - p2),
    decreases ev1.len() - p1,
{
    if p1 < ev1.len() {
        assert(ev1[p1] == ev2[p2]);
        match ev1[p1] {
            XmlEvent::Empty(e) => {
                lemma_item_shift(ev1, p1 + 1, ev2, p2 + 1, acc);
                lemma_item_shift(
                    ev1,
                    p1 + 1,
                    ev2,
                    p2 + 1,
                    ItemModel { link: atom_link(e.attributes@), ..acc },
                );
            },
            XmlEvent::Start(e) => {
                lemma_text_shift(ev1, p1 + 1, ev2, p2 + 1, None);
                lemma_skip_shift(ev1, p1 + 1, ev2, p2 + 1);
                match text_spec(ev1, p1 + 1, None) {
                    Ok((t, q)) => if p1 < q <= ev1.len() {
                        let next = if e.name@ == "title"@ {
                            ItemModel { title: t, ..acc }
                        } else if e.name@ == "link"@ {
                            ItemModel { link: chosen_link(t, e, acc.link), ..acc }
                        } else {
                            ItemModel { id: t, ..acc }
                        };
                        lemma_item_shift(ev1, q, ev2, q - (p1 - p2), next);
                    },
                    Err(_) => {},
                }
                match skip_spec(ev1, p1 + 1) {
                    Ok(q) => if p1 < q <= ev1.len() {
                        lemma_item_shift(ev1, q, ev2, q - (p1 - p2), acc);
                    },
                    Err(_) => {},
                }
            },
            _ => lemma_item_shift(ev1, p1 + 1, ev2, p2 + 1, acc),
        }
    }
}

#[verifier::rlimit(50)]
proof fn lemma_feed_shift(ev1: Seq<XmlEvent>, p1: int, ev2: Seq<XmlEvent>, p2: int, acc: FeedModel)
    requires
        same_from(ev1, p1, ev2, p2),
    ensures
        feed_spec(ev1, p1, acc) == shifted(feed_spec(ev2, p2, acc), p1 - p2),
    decreases ev1.len() - p1,
{
    if p1 < ev1.len() {
        assert(ev1[p1] == ev2[p2]);
        match ev1[p1] {
            XmlEvent::Empty(e) => {
                lemma_feed_shift(ev1, p1 + 1, ev2, p2 + 1, acc);
                if atom_link(e.attributes@) is Some {
                    lemma_feed_shift(
                        ev1,
                        p1 + 1,
                        ev2,
                        p2 + 1,
                        FeedModel { link: atom_link(e.attributes@)->Some_0, ..acc },
                    );
                }
            },
            XmlEvent::Start(e) => {
                if e.name@ == "channel"@ {
                    lemma_feed_shift(ev1, p1 + 1, ev2, p2 + 1, empty_feed());
                    match feed_spec(ev1, p1 + 1, empty_feed()) {
                        Ok((f, q)) => if p1 < q <= ev1.len() {
                            lemma_feed_shift(
                                ev1,
                                q,
                                ev2,
                                q - (p1 - p2),
                                FeedModel { title: f.title, link: f.link, ..acc },
                            );
                        },
                        Err(_) => {},
                    }
                } else if e.name@ == "title"@ || e.name@ == "link"@ {
                    lemma_text_shift(ev1, p1 + 1, ev2, p2 + 1, None);
                    match text_spec(ev1, p1 + 1, None) {
                        Ok((t, q)) => if p1 < q <= ev1.len() {
                            lemma_feed_shift(ev1, q, ev2, q - (p1 - p2), feed_with_text(acc, e, t));
                        },
                        Err(_) => {},
                    }
                } else if e.name@ == "item"@ || e.name@ == "entry"@ {
                    lemma_item_shift(ev1, p1 + 1, ev2, p2 + 1, empty_item());
                    match item_spec(ev1, p1 + 1, empty_item()) {
                        Ok((it, q)) => if p1 < q <= ev1.len() {
                            lemma_feed_shift(
                                ev1,
                                q,
                                ev2,
                                q - (p1 - p2),
                                FeedModel { items: acc.items.push(it), ..acc },
                            );
                        },
                        Err(_) => {},
                    }
                } else {
                    lemma_skip_shift(ev1, p1 + 1, ev2, p2 + 1);
                    match skip_spec(ev1, p1 + 1) {
                        Ok(q) => if p1 < q <= ev1.len() {
                            lemma_feed_shift(ev1, q, ev2, q - (p1 - p2), acc);
                        },
                        Err(_) => {},
                    }
                }
            },
            _ => lemma_feed_shift(ev1, p1 + 1, ev2, p2 + 1, acc),
        }
    }
}

/// Removing an unknown, well-nested element from a feed body changes nothing that is
/// read after it: with the element (at `p1` of `ev1`, closed at `q`) and without it
/// (`ev2` from `p2` holds what follows the element), the feed comes out the same,
/// and reading stops at the same event of what follows.
pub proof fn lemma_feed_without_unknown(
    ev1: Seq<XmlEvent>,
    p1: int,
    q: int,
    ev2: Seq<XmlEvent>,
    p2: int,
    acc: FeedModel,
)
    requires
        0 <= p1,
        ev1[p1] matches XmlEvent::Start(e) && !known_in_feed(e.name@),
        closes_at(ev1, p1 + 1, q),
        same_from(ev1, q + 1, ev2, p2),
    ensures
        feed_spec(ev1, p1, acc) == shifted(feed_spec(ev2, p2, acc), q + 1 - p2),
{
    lemma_feed_passes_unknown(ev1, p1, q, acc);
    lemma_feed_shift(ev1, q + 1, ev2, p2, acc);
}

/// Removing an unknown, well-nested element from an item changes nothing that is read
/// after it: the item comes out the same, and reading stops at the same event.
pub proof fn lemma_item_without_unknown(
    ev1: Seq<XmlEvent>,
    p1: int,
    q: int,
    ev2: Seq<XmlEvent>,
    p2: int,
    acc: ItemModel,
)
    requires
        0 <= p1,
        ev1[p1] matches XmlEvent::Start(e) && !known_in_item(e.name@),
        closes_at(ev1, p1 + 1, q),
        same_from(ev1, q + 1, ev2, p2),
    ensures
        item_spec(ev1, p1, acc) == shifted(item_spec(ev2, p2, acc), q + 1 - p2),
{
    lemma_item_passes_unknown(ev1, p1, q, acc);
    lemma_item_shift(ev1, q + 1, ev2, p2, acc);
}

} // verus!
