use feedparse::{
    fix_relative_url, host_of, parse, parse_atom_link, parse_events, read_events, read_text,
    set_url_relative_to_absolute, skip_element, Attribute, Element, FeedError, FromXml, Item,
    XmlEvent, RSS,
};

fn item(title: Option<&str>, link: Option<&str>, id: Option<&str>) -> Item {
    Item {
        title: title.map(|s| s.to_string()),
        link: link.map(|s| s.to_string()),
        id: id.map(|s| s.to_string()),
    }
}

fn start(name: &str) -> XmlEvent {
    XmlEvent::Start(Element { name: name.to_string(), attributes: vec![] })
}

fn attr(key: &str, value: &str) -> Option<Attribute> {
    Some(Attribute {
        key: key.to_string(),
        value: value.to_string(),
        unescaped: Some(value.to_string()),
    })
}

fn text(s: &str) -> XmlEvent {
    XmlEvent::Text(Ok(s.to_string()))
}

#[test]
fn test_host_regex() {
    assert!(host_of("").is_none());
    assert!(host_of("/path").is_none());
    assert_eq!(host_of("example.com/path").unwrap(), "example.com");
    assert_eq!(host_of("http://example.com/path").unwrap(), "http://example.com");
    assert_eq!(host_of("https://example.com/path").unwrap(), "https://example.com");
}

#[test]
fn host_without_host_after_scheme() {
    assert_eq!(host_of("http:///x").unwrap(), "http:");
    assert_eq!(host_of("example.com").unwrap(), "example.com");
}

#[test]
fn rss_root_with_one_item() {
    let doc = b"<?xml version=\"1.0\"?><rss version=\"2.0\"><channel><title>News</title>\
        <link>http://a.example/</link><item><title>One</title><link>http://a.example/1</link>\
        <guid>g1</guid></item></channel></rss>";
    let feed = parse(doc).unwrap();
    assert_eq!(feed.title, "News");
    assert_eq!(feed.link, "http://a.example/");
    assert_eq!(feed.items, vec![item(Some("One"), Some("http://a.example/1"), Some("g1"))]);
}

#[test]
fn atom_root_with_one_entry() {
    let doc = b"<feed xmlns=\"http://www.w3.org/2005/Atom\"><title>Blog</title>\
        <link href=\"http://b.example/\"/><link rel=\"self\" href=\"http://b.example/atom\"/>\
        <entry><title>Post</title><link href=\"http://b.example/p\"/><id>urn:1</id></entry></feed>";
    let feed = parse(doc).unwrap();
    assert_eq!(feed.title, "Blog");
    assert_eq!(feed.link, "http://b.example/");
    assert_eq!(feed.items, vec![item(Some("Post"), Some("http://b.example/p"), Some("urn:1"))]);
}

#[test]
fn rdf_root_with_one_item() {
    let doc = b"<rdf:RDF><channel><title>Rdf</title><link>http://c.example/</link>\
        <item><title>dropped</title></item></channel>\
        <item><title>Kept</title><link>http://c.example/k</link></item></rdf:RDF>";
    let feed = parse(doc).unwrap();
    assert_eq!(feed.title, "Rdf");
    assert_eq!(feed.link, "http://c.example/");
    assert_eq!(feed.items, vec![item(Some("Kept"), Some("http://c.example/k"), None)]);
}

#[test]
fn rss_plain_text_link() {
    let feed = parse(b"<channel><link>http://a.example/x</link></channel>").unwrap();
    assert_eq!(feed.link, "http://a.example/x");
}

#[test]
fn atom_alternate_and_self_links() {
    let alt = parse(b"<feed><link href=\"http://a.example/x\" rel=\"alternate\"/></feed>").unwrap();
    assert_eq!(alt.link, "http://a.example/x");
    let own = parse(b"<feed><link href=\"http://a.example/x\" rel=\"self\"/></feed>").unwrap();
    assert_eq!(own.link, "");
    let entry = parse(b"<feed><entry><link rel=\"self\" href=\"http://a.example/x\"/></entry></feed>")
        .unwrap();
    assert_eq!(entry.items, vec![item(None, None, None)]);
}

#[test]
fn repeated_title_keeps_last() {
    let feed = parse(b"<channel><title>first</title><title>second</title></channel>").unwrap();
    assert_eq!(feed.title, "second");
    let feed = parse(b"<channel><item><title>a</title><title>b</title></item></channel>").unwrap();
    assert_eq!(feed.items[0].title, Some("b".to_string()));
}

#[test]
fn nested_unknown_elements_are_skipped() {
    let doc = b"<channel><title>T</title><foo><bar><baz/></bar><title>no</title></foo>\
        <link>http://a.example/</link><item><foo><bar><baz/></bar></foo><title>I</title></item>\
        </channel>";
    let feed = parse(doc).unwrap();
    assert_eq!(feed.title, "T");
    assert_eq!(feed.link, "http://a.example/");
    assert_eq!(feed.items, vec![item(Some("I"), None, None)]);
}

#[test]
fn normalize_feed_links() {
    let base = "https://a.example/feed.xml";
    let cases = [
        ("", "https://a.example"),
        ("/", "https://a.example"),
        ("/news", "https://a.example/news"),
        ("//cdn.example/x", "http://cdn.example/x"),
        ("https://other.example/y", "https://other.example/y"),
        ("feed/today", "feed/today"),
    ];
    for (link, want) in cases {
        let rss = RSS { title: "t".to_string(), link: link.to_string(), items: vec![] };
        assert_eq!(fix_relative_url(rss, base).link, want);
    }
}

#[test]
fn normalize_item_links() {
    let rss = RSS {
        title: "t".to_string(),
        link: "http://x.example/".to_string(),
        items: vec![
            item(Some("a"), Some("/a"), Some("1")),
            item(None, None, None),
            item(None, Some("//cdn.example/b"), None),
            item(None, Some(""), None),
        ],
    };
    let fixed = fix_relative_url(rss, "https://a.example/feed.xml");
    assert_eq!(fixed.title, "t");
    assert_eq!(fixed.link, "http://x.example/");
    assert_eq!(
        fixed.items,
        vec![
            item(Some("a"), Some("https://a.example/a"), Some("1")),
            item(None, None, None),
            item(None, Some("http://cdn.example/b"), None),
            item(None, Some(""), None),
        ]
    );
}

#[test]
fn normalize_without_host_uses_whole_url() {
    let rss = RSS { title: String::new(), link: "/x".to_string(), items: vec![] };
    assert_eq!(fix_relative_url(rss, "/feeds").link, "/feeds/x");
}

#[test]
fn set_url_rules() {
    let mut a = "/p".to_string();
    set_url_relative_to_absolute(&mut a, "http://h");
    assert_eq!(a, "http://h/p");
    let mut b = "//h2/p".to_string();
    set_url_relative_to_absolute(&mut b, "http://h");
    assert_eq!(b, "http://h2/p");
    let mut c = "rel/p".to_string();
    set_url_relative_to_absolute(&mut c, "http://h");
    assert_eq!(c, "rel/p");
}

#[test]
fn no_root_is_eof() {
    assert_eq!(parse(b"<html><body><p>hi</p></body></html>"), Err(FeedError::Eof));
    assert_eq!(parse(b""), Err(FeedError::Eof));
    assert_eq!(parse(b"<rss></rss>"), Err(FeedError::Eof));
}

#[test]
fn malformed_input_is_xml_error() {
    assert!(matches!(parse(b"<rss><channel></rss>"), Err(FeedError::Xml(_))));
    assert!(matches!(parse_events(&vec![XmlEvent::Malformed("bad".to_string())]), Err(FeedError::Xml(m)) if m == "bad"));
}

#[test]
fn bad_escape_in_title_is_xml_error() {
    let ev = vec![
        start("channel"),
        start("title"),
        XmlEvent::Text(Err("bad escape".to_string())),
        XmlEvent::End,
        XmlEvent::End,
        XmlEvent::Eof,
    ];
    assert_eq!(parse_events(&ev), Err(FeedError::Xml("bad escape".to_string())));
    assert!(matches!(parse(b"<channel><title>a &bogus; b</title></channel>"), Err(FeedError::Xml(_))));
}

#[test]
fn empty_item_has_no_fields() {
    let feed = parse(b"<rss><channel><item></item><item/></channel></rss>").unwrap();
    assert_eq!(feed.items, vec![item(None, None, None)]);
    let feed = parse(b"<channel><item><foo>x</foo></item></channel>").unwrap();
    assert_eq!(feed.items, vec![item(None, None, None)]);
}

#[test]
fn entities_and_cdata_are_decoded() {
    let feed = parse(b"<channel><title>A &amp; B</title><item><title><![CDATA[<b>x</b>]]></title></item></channel>")
        .unwrap();
    assert_eq!(feed.title, "A & B");
    assert_eq!(feed.items[0].title, Some("<b>x</b>".to_string()));
}

#[test]
fn content_after_root_is_not_read() {
    let feed = parse(b"<channel><title>T</title></channel><<<").unwrap();
    assert_eq!(feed.title, "T");
}

#[test]
fn events_stop_at_end() {
    let ev = read_events(b"<a>x</a>");
    assert_eq!(ev.len(), 4);
    assert!(matches!(ev[3], XmlEvent::Eof));
    assert!(matches!(ev[1], XmlEvent::Text(Ok(ref t)) if t == "x"));
}

#[test]
fn skip_and_text_positions() {
    let ev = vec![start("a"), start("b"), XmlEvent::End, text("t"), XmlEvent::End, text("u"), XmlEvent::End];
    assert_eq!(skip_element(&ev, 1), Ok(5));
    assert_eq!(read_text(&ev, 1), Ok((Some("t".to_string()), 5)));
    assert_eq!(read_text(&ev, 5), Ok((Some("u".to_string()), 7)));
    assert_eq!(read_text(&ev, 7), Ok((None, 7)));
    let via_trait: Result<(Option<String>, usize), FeedError> = FromXml::from_xml(&ev, 1);
    assert_eq!(via_trait, Ok((Some("t".to_string()), 5)));
}

#[test]
fn atom_link_attribute_order_and_failures() {
    let href_last = vec![attr("rel", "alternate"), attr("href", "http://x/")];
    assert_eq!(parse_atom_link(&href_last), Some("http://x/".to_string()));
    let rel_last = vec![attr("href", "http://x/"), attr("rel", "enclosure")];
    assert_eq!(parse_atom_link(&rel_last), None);
    let broken = vec![None, attr("href", "http://y/")];
    assert_eq!(parse_atom_link(&broken), Some("http://y/".to_string()));
    let bad_value = vec![Some(Attribute {
        key: "href".to_string(),
        value: "a&zz;".to_string(),
        unescaped: None,
    })];
    assert_eq!(parse_atom_link(&bad_value), None);
}

#[test]
fn link_text_wins_over_href() {
    let ev = vec![
        start("channel"),
        XmlEvent::Start(Element { name: "link".to_string(), attributes: vec![attr("href", "http://h/")] }),
        XmlEvent::End,
        XmlEvent::Start(Element { name: "link".to_string(), attributes: vec![attr("href", "http://g/")] }),
        text("http://t/"),
        XmlEvent::End,
        XmlEvent::End,
        XmlEvent::Eof,
    ];
    assert_eq!(parse_events(&ev).unwrap().link, "http://t/");
}

#[test]
fn blank_title_is_absent() {
    let feed = parse(b"<channel><title>Kept</title><title>   </title><item><title></title></item></channel>")
        .unwrap();
    assert_eq!(feed.title, "Kept");
    assert_eq!(feed.items, vec![item(None, None, None)]);
}

#[test]
fn unknown_top_level_element_before_root() {
    let feed = parse(b"<head><channel><title>inner</title></channel></head><rss><channel><title>T</title></channel></rss>")
        .unwrap();
    assert_eq!(feed.title, "T");
}

#[test]
fn removing_unknown_element_gives_same_feed() {
    let with = parse(b"<rss><channel><title>T</title><x><y><z/></y><link>no</link></x>\
        <item><q><r/></q><title>I</title></item></channel></rss>")
        .unwrap();
    let without = parse(b"<rss><channel><title>T</title><item><title>I</title></item></channel></rss>")
        .unwrap();
    assert_eq!(with, without);
}

#[test]
fn parse_reads_the_tokenized_events() {
    let doc: &[u8] = b"<feed><title>A</title><entry><id>1</id></entry></feed>";
    assert_eq!(parse(doc), parse_events(&read_events(doc)));
    assert_eq!(parse(doc).unwrap().items, vec![item(None, None, Some("1"))]);
}
