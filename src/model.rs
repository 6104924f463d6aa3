use vstd::prelude::*;

verus! {

/// One entry of a feed. Every field is independently optional.
#[derive(Debug, Clone, PartialEq, Eq)]
pub struct Item {
    pub title: Option<String>,
    pub link: Option<String>,
    pub id: Option<String>,
}

/// One parsed feed: its title, its home-page link and its entries in document order.
#[derive(Debug, Clone, PartialEq, Eq)]
pub struct RSS {
    pub title: String,
    pub link: String,
    pub items: Vec<Item>,
}

/// Why no feed could be read.
#[derive(Debug, Clone, PartialEq, Eq)]
pub enum FeedError {
    /// The tokenizer met input it could not read; the message says why.
    Xml(String),
    /// The input ended before any feed body was found.
    Eof,
}

/// The mathematical value of an [`Item`].
pub struct ItemModel {
    pub title: Option<Seq<char>>,
    pub link: Option<Seq<char>>,
    pub id: Option<Seq<char>>,
}

/// The mathematical value of an [`RSS`] feed.
pub struct FeedModel {
    pub title: Seq<char>,
    pub link: Seq<char>,
    pub items: Seq<ItemModel>,
}

/// The mathematical value of a [`FeedError`].
pub enum Failure {
    Xml(Seq<char>),
    Eof,
}

pub open spec fn opt_view(o: Option<String>) -> Option<Seq<char>> {
    match o {
        Some(s) => Some(s@),
        None => None,
    }
}

impl View for Item {
    type V = ItemModel;

    open spec fn view(&self) -> ItemModel {
        ItemModel { title: opt_view(self.title), link: opt_view(self.link), id: opt_view(self.id) }
    }
}

impl View for RSS {
    type V = FeedModel;

    open spec fn view(&self) -> FeedModel {
        FeedModel {
            title: self.title@,
            link: self.link@,
            items: self.items@.map_values(|i: Item| i@),
        }
    }
}

impl View for FeedError {
    type V = Failure;

    open spec fn view(&self) -> Failure {
        match self {
            FeedError::Xml(m) => Failure::Xml(m@),
            FeedError::Eof => Failure::Eof,
        }
    }
}

/// The item that parsing starts from: every field absent.
pub open spec fn empty_item() -> ItemModel {
    ItemModel { title: None, link: None, id: None }
}

/// The feed that parsing starts from: empty title and link, no items.
pub open spec fn empty_feed() -> FeedModel {
    FeedModel { title: Seq::empty(), link: Seq::empty(), items: Seq::empty() }
}

impl Default for Item {
    fn default() -> (r: Item)
        ensures
            r@ == empty_item(),
    {
        Item { title: None, link: None, id: None }
    }
}

impl Default for RSS {
    fn default() -> (r: RSS)
        ensures
            r@ == empty_feed(),
    {
        let r = RSS { title: String::new(), link: String::new(), items: Vec::new() };
        assert(r@.items =~= Seq::<ItemModel>::empty());
        r
    }
}

} // verus!
