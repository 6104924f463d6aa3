use vstd::prelude::*;
use crate::model::{opt_view, Item, RSS};

verus! {

/// The end of the run of characters other than `/` that starts at `k`.
pub open spec fn run_end(s: Seq<char>, k: int) -> int
    decreases s.len() - k,
{
    if k < 0 || k >= s.len() || s[k] == '/' {
        k
    } else {
        run_end(s, k + 1)
    }
}

/// The origin at the start of a URL: an optional `http://` or `https://` followed
/// by one or more characters other than `/`, as long as possible. `None` where no
/// such prefix exists (an empty string, or one that starts with `/`).
pub open spec fn host_match(s: Seq<char>) -> Option<Seq<char>> {
    if s.len() >= 8 && s.take(8) == "https://"@ && run_end(s, 8) > 8 {
        Some(s.take(run_end(s, 8)))
    } else if s.len() >= 7 && s.take(7) == "http://"@ && run_end(s, 7) > 7 {
        Some(s.take(run_end(s, 7)))
    } else if run_end(s, 0) > 0 {
        Some(s.take(run_end(s, 0)))
    } else {
        None
    }
}

/// The origin against which relative links are resolved: the URL's host prefix,
/// or the whole URL where it has none.
pub open spec fn origin_of(url: Seq<char>) -> Seq<char> {
    match host_match(url) {
        Some(h) => h,
        None => url,
    }
}

/// A link made absolute: `//x` takes `http:`, `/x` takes the origin, anything else stays.
pub open spec fn absolute(link: Seq<char>, origin: Seq<char>) -> Seq<char> {
    if link.len() >= 2 && link[0] == '/' && link[1] == '/' {
        "http:"@ + link
    } else if link.len() >= 1 && link[0] == '/' {
        origin + link
    } else {
        link
    }
}

/// The feed's own link after normalisation: empty or `/` becomes the origin itself.
pub open spec fn feed_link(link: Seq<char>, origin: Seq<char>) -> Seq<char> {
    if link == Seq::<char>::empty() || link == "/"@ {
        origin
    } else {
        absolute(link, origin)
    }
}

/// The pattern of an origin: an optional `http://` or `https://`, then the host.
pub open spec fn host_pattern() -> Seq<char> {
    "^((?:https?://)?[^/]+)"@
}

/// Relies on `regex::Regex::new` and `regex::Regex::find`: with the pattern
/// `^((?:https?://)?[^/]+)`, which is valid, the leftmost-first match of `s` is the
/// optional scheme followed by the longest run of characters other than `/`,
/// preferring the run after a scheme when there is one.
#[verifier::external_body]
fn find_prefix(pattern: &str, s: &str) -> (r: Option<String>)
    requires
        pattern@ == host_pattern(),
    ensures
        opt_view(r) == host_match(s@),
{
    let re = regex::Regex::new(pattern).ok()?;
    re.find(s).map(|m| m.as_str().to_string())
}

/// The scheme and host at the start of `url` (`http://example.com` of
/// `http://example.com/path`), or `None` where `url` has no host before a `/`.
pub fn host_of(url: &str) -> (r: Option<String>)
    ensures
        opt_view(r) == host_match(url@),
{
    find_prefix("^((?:https?://)?[^/]+)", url)
}

/// Makes `link` absolute: a link that starts with `//` gets `http:` in front, one
/// that starts with a single `/` gets `host` in front; any other stays as it is.
pub fn set_url_relative_to_absolute(link: &mut String, host: &str)
    ensures
        final(link)@ == absolute(old(link)@, host@),
{
    let n = link.unicode_len();
    if n >= 2 && link.get_char(0) == '/' && link.get_char(1) == '/' {
        let mut s = String::new();
        s.append("http:");
        s.append(link.as_str());
        *link = s;
    } else if n >= 1 && link.get_char(0) == '/' {
        let mut s = String::new();
        s.append(host);
        s.append(link.as_str());
        *link = s;
    }
}

fn copy_text(o: &Option<String>) -> (r: Option<String>)
    ensures
        opt_view(r) == opt_view(*o),
{
    match o {
        Some(s) => Some(s.clone()),
        None => None,
    }
}

/// `item` with its link made absolute against `host`.
pub open spec fn item_resolved(item: crate::model::ItemModel, host: Seq<char>) -> crate::model::ItemModel {
    crate::model::ItemModel {
        link: match item.link {
            Some(l) => Some(absolute(l, host)),
            None => None,
        },
        ..item
    }
}

/// Rewrites the feed's relative links against the origin of `rss_link`, the URL the
/// feed was read from. The feed's link, when empty or `/`, becomes that origin;
/// otherwise it and each item's link are made absolute as
/// [`set_url_relative_to_absolute`] does. Titles, ids and the items' order stay.
pub fn fix_relative_url(rss: RSS, rss_link: &str) -> (r: RSS)
    ensures
        r@.title == rss@.title,
        r@.link == feed_link(rss@.link, origin_of(rss_link@)),
        r@.items.len() == rss@.items.len(),
        forall|i: int|
            0 <= i < rss@.items.len() ==> #[trigger] r@.items[i] == item_resolved(
                rss@.items[i],
                origin_of(rss_link@),
            ),
{
    let host = match host_of(rss_link) {
        Some(h) => h,
        None => rss_link.to_owned(),
    };
    assert(host@ == origin_of(rss_link@));
    let mut link = rss.link;
    if link.unicode_len() == 0 || (link.unicode_len() == 1 && link.get_char(0) == '/') {
        proof {
            reveal_strlit("/");
            if link@.len() == 1 {
                assert(link@ =~= "/"@);
            } else {
                assert(link@ =~= Seq::<char>::empty());
            }
        }
        link = host.clone();
    } else {
        proof {
            reveal_strlit("/");
            assert(link@.len() > 0);
            assert(link@ != Seq::<char>::empty());
            if link@ == "/"@ {
                assert(link@[0] == '/');
            }
        }
        set_url_relative_to_absolute(&mut link, host.as_str());
    }
    let mut items: Vec<Item> = Vec::new();
    let mut i: usize = 0;
    while i < rss.items.len()
        invariant
            i <= rss.items.len(),
            host@ == origin_of(rss_link@),
            items@.len() == i,
            forall|j: int|
                0 <= j < i ==> #[trigger] items@[j]@ == item_resolved(
                    rss.items@[j]@,
                    origin_of(rss_link@),
                ),
        decreases rss.items.len() - i,
    {
        let it = &rss.items[i];
        let mut l = copy_text(&it.link);
        match l {
            Some(ref mut s) => {
                set_url_relative_to_absolute(s, host.as_str());
            },
            None => {},
        }
        items.push(Item { title: copy_text(&it.title), link: l, id: copy_text(&it.id) });
        i = i + 1;
    }
    RSS { title: rss.title, link, items }
}

} // verus!
