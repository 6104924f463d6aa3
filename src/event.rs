use vstd::prelude::*;

verus! {

/// One attribute of an element, as the tokenizer read it.
pub struct Attribute {
    /// The attribute's name.
    pub key: String,
    /// The value, decoded but with its escapes left as written.
    pub value: String,
    /// The value with its escapes replaced, or `None` where an escape was malformed.
    pub unescaped: Option<String>,
}

/// The name and attributes of an opening or self-closing tag.
///
/// An attribute that could not be read at all is kept as `None`, in its place.
pub struct Element {
    pub name: String,
    pub attributes: Vec<Option<Attribute>>,
}

/// One event of the XML stream, in document order.
pub enum XmlEvent {
    /// An opening tag `<name ...>`.
    Start(Element),
    /// A self-closing tag `<name .../>`.
    Empty(Element),
    /// A closing tag.
    End,
    /// Character data, with its escapes replaced; `Err` carries why that failed.
    Text(Result<String, String>),
    /// The content of a CDATA section.
    CData(String),
    /// A comment, declaration, processing instruction or doctype.
    Other,
    /// The end of the input.
    Eof,
    /// The tokenizer could not read the input any further.
    Malformed(String),
}

/// The event at `pos`; past the end of the sequence the stream stays at its end.
pub open spec fn event_at(ev: Seq<XmlEvent>, pos: int) -> XmlEvent {
    if 0 <= pos < ev.len() {
        ev[pos]
    } else {
        XmlEvent::Eof
    }
}

/// Whether two strings hold the same characters.
pub fn str_eq(a: &str, b: &str) -> (r: bool)
    ensures
        r == (a@ == b@),
{
    let n = a.unicode_len();
    if n != b.unicode_len() {
        return false;
    }
    let mut i: usize = 0;
    while i < n
        invariant
            n == a@.len(),
            n == b@.len(),
            i <= n,
            forall|j: int| 0 <= j < i ==> a@[j] == b@[j],
        decreases n - i,
    {
        if a.get_char(i) != b.get_char(i) {
            return false;
        }
        i += 1;
    }
    assert(a@ =~= b@);
    true
}

} // verus!
