//! Writing XML documents through a `quick_xml` writer that indents.
//!
//! The writer is told a document item by item; what it has been told so far is its
//! log, and the bytes it produces are named as a function of its indentation and
//! that log.

use vstd::prelude::*;

use quick_xml::events::{BytesEnd, BytesStart, BytesText, Event};

verus! {

/// One item of an XML document, as the writer is told it.
#[derive(Debug, Clone)]
pub enum XmlItem {
    /// Bytes written as they are.
    Raw(Vec<u8>),
    /// A start tag: the name and the attributes (keys and unescaped values).
    Start(String, Vec<(String, String)>),
    /// An empty-element tag: the name and the attributes.
    Empty(String, Vec<(String, String)>),
    /// An end tag, by name.
    End(String),
    /// Text, unescaped.
    Text(String),
}

/// An item of an XML document, by its plain values.
pub enum XmlPiece {
    /// Bytes written as they are.
    Raw(Seq<u8>),
    /// A start tag.
    Start(Seq<char>, Seq<(Seq<char>, Seq<char>)>),
    /// An empty-element tag.
    Empty(Seq<char>, Seq<(Seq<char>, Seq<char>)>),
    /// An end tag.
    End(Seq<char>),
    /// Text.
    Text(Seq<char>),
}

/// Attributes by their plain values.
pub open spec fn attrs_view(attrs: Seq<(String, String)>) -> Seq<(Seq<char>, Seq<char>)> {
    attrs.map_values(|a: (String, String)| (a.0@, a.1@))
}

impl XmlItem {
    /// The item by its plain values.
    pub open spec fn piece(self) -> XmlPiece {
        match self {
            XmlItem::Raw(b) => XmlPiece::Raw(b@),
            XmlItem::Start(n, a) => XmlPiece::Start(n@, attrs_view(a@)),
            XmlItem::Empty(n, a) => XmlPiece::Empty(n@, attrs_view(a@)),
            XmlItem::End(n) => XmlPiece::End(n@),
            XmlItem::Text(t) => XmlPiece::Text(t@),
        }
    }
}

/// Items by their plain values.
pub open spec fn pieces(items: Seq<XmlItem>) -> Seq<XmlPiece> {
    items.map_values(|i: XmlItem| i.piece())
}

/// A `quick_xml` writer that writes a document into memory.
#[verifier::external_body]
pub struct DocWriter {
    inner: quick_xml::Writer<std::io::Cursor<Vec<u8>>>,
}

/// What the writer has been told, in order.
pub uninterp spec fn writer_log(w: DocWriter) -> Seq<XmlPiece>;

/// The indentation that the writer was made with: the character and how many of it
/// make one level.
pub uninterp spec fn writer_indent(w: DocWriter) -> (u8, usize);

/// The bytes that a writer made with this indentation has written, once told the
/// pieces in order.
pub uninterp spec fn xml_written(indent_char: u8, indent_size: usize, log: Seq<XmlPiece>) -> Seq<u8>;

/// `quick_xml::Writer::new_with_indent` over an empty in-memory buffer.
#[verifier::external_body]
pub fn new_writer(indent_char: u8, indent_size: usize) -> (w: DocWriter)
    ensures
        writer_log(w) == Seq::<XmlPiece>::empty(),
        writer_indent(w) == (indent_char, indent_size),
{
    DocWriter { inner: quick_xml::Writer::new_with_indent(std::io::Cursor::new(Vec::new()), indent_char, indent_size) }
}

/// `quick_xml::Writer::write`: appends the bytes as they are. Writing into memory does
/// not fail.
#[verifier::external_body]
fn write_raw(w: &mut DocWriter, bytes: &Vec<u8>) -> (res: Result<(), quick_xml::Error>)
    ensures
        writer_indent(*final(w)) == writer_indent(*old(w)),
        res is Ok,
        writer_log(*final(w)) == writer_log(*old(w)).push(XmlPiece::Raw(bytes@)),
{
    w.inner.write(bytes.as_slice())
}

/// `quick_xml::Writer::write_event` of a start tag with the attributes, in order; into
/// memory it does not fail.
#[verifier::external_body]
fn write_start(w: &mut DocWriter, name: &String, attrs: &Vec<(String, String)>) -> (res: Result<(), quick_xml::Error>)
    ensures
        writer_indent(*final(w)) == writer_indent(*old(w)),
        res is Ok,
        writer_log(*final(w)) == writer_log(*old(w)).push(XmlPiece::Start(name@, attrs_view(attrs@))),
{
    let start = BytesStart::borrowed_name(name.as_bytes());
    let start = start.with_attributes(attrs.iter().map(|a| (a.0.as_str(), a.1.as_str())));
    w.inner.write_event(Event::Start(start))
}

/// `quick_xml::Writer::write_event` of an empty-element tag with the attributes, in
/// order; into memory it does not fail.
#[verifier::external_body]
fn write_empty(w: &mut DocWriter, name: &String, attrs: &Vec<(String, String)>) -> (res: Result<(), quick_xml::Error>)
    ensures
        writer_indent(*final(w)) == writer_indent(*old(w)),
        res is Ok,
        writer_log(*final(w)) == writer_log(*old(w)).push(XmlPiece::Empty(name@, attrs_view(attrs@))),
{
    let start = BytesStart::borrowed_name(name.as_bytes());
    let start = start.with_attributes(attrs.iter().map(|a| (a.0.as_str(), a.1.as_str())));
    w.inner.write_event(Event::Empty(start))
}

/// `quick_xml::Writer::write_event` of an end tag; into memory it does not fail.
#[verifier::external_body]
fn write_end(w: &mut DocWriter, name: &String) -> (res: Result<(), quick_xml::Error>)
    ensures
        writer_indent(*final(w)) == writer_indent(*old(w)),
        res is Ok,
        writer_log(*final(w)) == writer_log(*old(w)).push(XmlPiece::End(name@)),
{
    w.inner.write_event(Event::End(BytesEnd::borrowed(name.as_bytes())))
}

/// `quick_xml::Writer::write_event` of text, which the writer escapes; into memory it
/// does not fail.
#[verifier::external_body]
fn write_text(w: &mut DocWriter, text: &String) -> (res: Result<(), quick_xml::Error>)
    ensures
        writer_indent(*final(w)) == writer_indent(*old(w)),
        res is Ok,
        writer_log(*final(w)) == writer_log(*old(w)).push(XmlPiece::Text(text@)),
{
    w.inner.write_event(Event::Text(BytesText::from_plain_str(text.as_str())))
}

/// `quick_xml::Writer::into_inner` and `std::io::Cursor::into_inner`: the bytes written.
#[verifier::external_body]
pub fn writer_bytes(w: DocWriter) -> (res: Vec<u8>)
    ensures
        res@ == xml_written(writer_indent(w).0, writer_indent(w).1, writer_log(w)),
{
    w.inner.into_inner().into_inner()
}

/// Tells the writer one item.
pub fn write_item(w: &mut DocWriter, item: &XmlItem) -> (res: Result<(), quick_xml::Error>)
    ensures
        writer_indent(*final(w)) == writer_indent(*old(w)),
        res is Ok,
        writer_log(*final(w)) == writer_log(*old(w)).push(item.piece()),
{
    match item {
        XmlItem::Raw(b) => write_raw(w, b),
        XmlItem::Start(n, a) => write_start(w, n, a),
        XmlItem::Empty(n, a) => write_empty(w, n, a),
        XmlItem::End(n) => write_end(w, n),
        XmlItem::Text(t) => write_text(w, t),
    }
}

/// Tells the writer the items in order, stopping at the first error.
pub fn write_items(w: &mut DocWriter, items: &Vec<XmlItem>) -> (res: Result<(), quick_xml::Error>)
    ensures
        writer_indent(*final(w)) == writer_indent(*old(w)),
        res is Ok,
        writer_log(*final(w)) == writer_log(*old(w)) + pieces(items@),
{
    let ghost start = writer_log(*w);
    let mut i: usize = 0;
    while i < items.len()
        invariant
            i <= items@.len(),
            writer_indent(*w) == writer_indent(*old(w)),
            writer_log(*w) == start + pieces(items@.take(i as int)),
            start == writer_log(*old(w)),
        decreases items@.len() - i,
    {
        match write_item(w, &items[i]) {
            Ok(()) => {},
            Err(e) => {
                return Err(e);
            },
        }
        assert(pieces(items@.take(i + 1)) =~= pieces(items@.take(i as int)).push(items@[i as int].piece()));
        i += 1;
    }
    assert(items@.take(items@.len() as int) =~= items@);
    Ok(())
}

} // verus!
