//! Normalises RSS 2.0, RSS 1.0 (RDF) and Atom documents into one feed model.
//!
//! The XML tokenizer turns bytes into a sequence of [`XmlEvent`]s; the parser
//! reads that sequence forward, one event at a time, and every step of it is
//! stated by a spec function over the sequence.

mod event;
mod laws;
mod model;
mod parser;
mod reader;
mod text;
mod url;
mod xml;

pub use event::{Attribute, Element, XmlEvent};
pub use model::{FeedError, Item, RSS};
pub use parser::{parse_events, parse_feed, parse_item, FromXml};
pub use text::{parse_atom_link, read_text, skip_element};
pub use url::{fix_relative_url, host_of, set_url_relative_to_absolute};
pub use xml::{parse, read_events};
pub use laws::{
    lemma_last_title_wins, lemma_no_root_is_eof, lemma_one_item_feed, lemma_one_item_rdf,
    lemma_skip_succeeds, lemma_skip_whole_subtree, lemma_feed_passes_unknown,
    lemma_item_passes_unknown, lemma_item_without_children, lemma_parse_without_root,
    lemma_feed_without_unknown, lemma_item_without_unknown,
};
