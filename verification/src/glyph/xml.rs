//! The XML events of a glif file, as `quick_xml` reads them.
//!
//! Each event is read by a fresh reader that starts where the last event ended,
//! trimming white space around text. The reader does not check that end tags match
//! start tags; an [`XmlCursor`] does, as a reader that reads the whole file would.

use vstd::prelude::*;

use quick_xml::events::Event;

verus! {

/// An error of the XML reader.
#[verifier::external_type_specification]
#[verifier::external_body]
pub struct ExXmlError(quick_xml::Error);

/// One XML event.
#[derive(Debug, Clone)]
pub enum XmlEvent {
    /// A start tag: the element's name, and the tag's content (the name and the
    /// attributes).
    Start(Vec<u8>, Vec<u8>),
    /// An empty-element tag: the element's name, and the tag's content.
    Empty(Vec<u8>, Vec<u8>),
    /// An end tag, by the element's name.
    End(Vec<u8>),
    /// Text, as it stands in the file (escaped).
    Text(Vec<u8>),
    /// A comment.
    Comment,
    /// The XML declaration.
    Decl,
    /// A CDATA section, a processing instruction or a document type declaration.
    Other,
    /// The end of the file.
    Eof,
}

/// What a reader that starts at the beginning of `rest` reads first: the event and
/// the number of bytes it takes, or `None` for an error.
pub uninterp spec fn xml_first_event(rest: Seq<u8>) -> Option<(XmlEvent, usize)>;

/// The attributes of a tag with this content and a name of this length: each a key
/// and a raw value, or `None` for one that the reader refuses.
pub uninterp spec fn xml_tag_attributes(content: Seq<u8>, name_len: usize) -> Seq<Option<(Seq<u8>, Seq<u8>)>>;

/// The text of an attribute's raw value after unescaping and decoding, or `None` if
/// either fails.
pub uninterp spec fn xml_attribute_text(raw: Seq<u8>) -> Option<Seq<char>>;

/// The text of a text event's raw content after decoding and unescaping, or `None`
/// if either fails.
pub uninterp spec fn xml_content_text(raw: Seq<u8>) -> Option<Seq<char>>;

/// True when a tag's name is no longer than its content.
pub open spec fn tag_name_within(e: XmlEvent) -> bool {
    match e {
        XmlEvent::Start(n, c) => n@.len() <= c@.len(),
        XmlEvent::Empty(n, c) => n@.len() <= c@.len(),
        _ => true,
    }
}

/// True when a byte is XML white space.
pub open spec fn is_xml_space(b: u8) -> bool {
    b == 0x20 || b == 0x0d || b == 0x0a || b == 0x09
}

/// The index of the first byte of `s` at or after `i` that is not white space, or its
/// length where there is none.
pub open spec fn skip_space(s: Seq<u8>, i: int) -> int
    decreases s.len() - i,
{
    if 0 <= i < s.len() && is_xml_space(s[i]) {
        skip_space(s, i + 1)
    } else {
        i
    }
}

/// The byte in lower case, for ASCII letters.
pub open spec fn ascii_lower(b: u8) -> u8 {
    if 0x41 <= b <= 0x5a {
        (b + 0x20) as u8
    } else {
        b
    }
}

/// The bytes of the word `doctype`.
pub open spec fn doctype_word() -> Seq<u8> {
    seq![0x64u8, 0x6f, 0x63, 0x74, 0x79, 0x70, 0x65]
}

/// The length, white space before it included, of a document type declaration
/// without a name at the start of `rest`: `<!DOCTYPE` in any case, white space and
/// `>`. The reader reads such a declaration as a declaration with an empty name.
pub open spec fn unnamed_doctype(rest: Seq<u8>) -> Option<int> {
    let k = skip_space(rest, 0);
    if k + 9 <= rest.len() && rest[k] == 0x3c && rest[k + 1] == 0x21 && (forall|m: int|
        0 <= m < 7 ==> ascii_lower(#[trigger] rest[k + 2 + m]) == doctype_word()[m]) {
        let j = skip_space(rest, k + 9);
        if j < rest.len() && rest[j] == 0x3e {
            Some(j + 1)
        } else {
            None
        }
    } else {
        None
    }
}

fn skip_space_from(rest: &[u8], from: usize) -> (res: usize)
    requires
        from <= rest@.len(),
    ensures
        res == skip_space(rest@, from as int),
        from <= res <= rest@.len(),
{
    let mut k = from;
    while k < rest.len() && (rest[k] == 0x20 || rest[k] == 0x0d || rest[k] == 0x0a || rest[k] == 0x09)
        invariant
            from <= k <= rest@.len(),
            skip_space(rest@, k as int) == skip_space(rest@, from as int),
        decreases rest@.len() - k,
    {
        k += 1;
    }
    k
}

/// The length of a document type declaration without a name at the start of `rest`,
/// as [`unnamed_doctype`] says.
pub fn unnamed_doctype_len(rest: &[u8]) -> (res: Option<usize>)
    ensures
        match unnamed_doctype(rest@) {
            Some(n) => res == Some(n as usize) && 1 <= n <= rest@.len(),
            None => res is None,
        },
{
    let k = skip_space_from(rest, 0);
    if k >= rest.len() || rest.len() - k < 9 || rest[k] != 0x3c || rest[k + 1] != 0x21 {
        return None;
    }
    let word: [u8; 7] = [0x64u8, 0x6f, 0x63, 0x74, 0x79, 0x70, 0x65];
    assert(word@ =~= doctype_word());
    let base: usize = k + 2;
    let mut m: usize = 0;
    while m < 7
        invariant
            0 <= m <= 7,
            base == k + 2,
            base + 7 <= rest.len(),
            k == skip_space(rest@, 0),
            rest@[k as int] == 0x3c && rest@[k + 1] == 0x21,
            word@ == doctype_word(),
            forall|q: int| 0 <= q < m ==> ascii_lower(#[trigger] rest@[k + 2 + q]) == doctype_word()[q],
        decreases 7 - m,
    {
        let b = rest[base + m];
        let lower = if 0x41 <= b && b <= 0x5a {
            b + 0x20
        } else {
            b
        };
        if lower != word[m] {
            assert(ascii_lower(rest@[k + 2 + m]) != doctype_word()[m as int]);
            return None;
        }
        m += 1;
    }
    let j = skip_space_from(rest, k + 9);
    if j < rest.len() && rest[j] == 0x3e {
        Some(j + 1)
    } else {
        None
    }
}

/// `quick_xml::Reader::read_event` on a reader over `rest` that trims text and does
/// not check end tags, followed by `buffer_position`. What it reads is named by
/// [`xml_first_event`]; the position is within `rest`, and every event other than
/// text and the end of the file takes at least one byte. A document type
/// declaration without a name is kept out: the reader stops on it in builds with
/// debug assertions.
#[verifier::external_body]
fn read_first_event(rest: &[u8]) -> (res: Result<(XmlEvent, usize), quick_xml::Error>)
    requires
        unnamed_doctype(rest@) is None,
    ensures
        match res {
            Ok((e, n)) => xml_first_event(rest@) == Some((e, n)) && n <= rest@.len() && (!(e is Text)
                && !(e is Eof) ==> n >= 1) && tag_name_within(e),
            Err(_) => xml_first_event(rest@) is None,
        },
{
    let mut reader = quick_xml::Reader::from_reader(rest);
    reader.trim_text(true).check_end_names(false);
    let event = match reader.read_event(&mut Vec::new())? {
        Event::Start(e) => XmlEvent::Start(e.name().to_vec(), e.to_vec()),
        Event::Empty(e) => XmlEvent::Empty(e.name().to_vec(), e.to_vec()),
        Event::End(e) => XmlEvent::End(e.name().to_vec()),
        Event::Text(e) => XmlEvent::Text(e.to_vec()),
        Event::Comment(_) => XmlEvent::Comment,
        Event::Decl(_) => XmlEvent::Decl,
        Event::Eof => XmlEvent::Eof,
        _ => XmlEvent::Other,
    };
    Ok((event, reader.buffer_position()))
}

/// `quick_xml::events::BytesStart::attributes` on a tag with this content and name
/// length: each attribute's key and raw value, or the reader's error for it.
#[verifier::external_body]
pub fn read_attributes(content: &[u8], name_len: usize) -> (res: Vec<Result<(Vec<u8>, Vec<u8>), quick_xml::Error>>)
    requires
        name_len <= content@.len(),
    ensures
        attribute_views(res@) == xml_tag_attributes(content@, name_len),
{
    quick_xml::events::BytesStart::borrowed(content, name_len)
        .attributes()
        .map(|a| a.map(|a| (a.key.to_vec(), a.value.to_vec())).map_err(quick_xml::Error::InvalidAttr))
        .collect()
}

/// The attributes as keys and raw values, `None` for each that the reader refused.
pub open spec fn attribute_views(attrs: Seq<Result<(Vec<u8>, Vec<u8>), quick_xml::Error>>) -> Seq<Option<(Seq<u8>, Seq<u8>)>> {
    attrs.map_values(
        |a: Result<(Vec<u8>, Vec<u8>), quick_xml::Error>|
            match a {
                Ok((k, v)) => Some((k@, v@)),
                Err(_) => None,
            },
    )
}

/// `quick_xml::events::attributes::Attribute::unescaped_value` on an attribute with
/// this raw value, followed by `quick_xml::Reader::decode`.
#[verifier::external_body]
pub fn attribute_text(raw: &[u8]) -> (res: Result<String, quick_xml::Error>)
    ensures
        match res {
            Ok(s) => xml_attribute_text(raw@) == Some(s@),
            Err(_) => xml_attribute_text(raw@) is None,
        },
{
    let attr = quick_xml::events::attributes::Attribute { key: &b""[..], value: raw.into() };
    let value = attr.unescaped_value()?;
    let reader = quick_xml::Reader::from_reader(&b""[..]);
    Ok(reader.decode(&value)?.to_string())
}

/// `quick_xml::events::BytesText::unescape_and_decode` on text with this raw content.
#[verifier::external_body]
pub fn content_text(raw: &[u8]) -> (res: Result<String, quick_xml::Error>)
    ensures
        match res {
            Ok(s) => xml_content_text(raw@) == Some(s@),
            Err(_) => xml_content_text(raw@) is None,
        },
{
    let reader = quick_xml::Reader::from_reader(&b""[..]);
    quick_xml::events::BytesText::from_escaped(raw).unescape_and_decode(&reader)
}

/// The error `quick_xml::Error::EndEventMismatch` that a reader checking end tags
/// reports for an end tag `found` where `expected` was open (empty where none was).
#[verifier::external_body]
fn end_mismatch(expected: &[u8], found: &[u8]) -> quick_xml::Error {
    quick_xml::Error::EndEventMismatch {
        expected: std::str::from_utf8(expected).unwrap_or("").to_owned(),
        found: std::str::from_utf8(found).unwrap_or("").to_owned(),
    }
}

fn bytes_eq(a: &Vec<u8>, b: &Vec<u8>) -> (res: bool)
    ensures
        res == (a@ == b@),
{
    if a.len() != b.len() {
        return false;
    }
    let mut i: usize = 0;
    while i < a.len()
        invariant
            0 <= i <= a@.len() == b@.len(),
            forall|j: int| 0 <= j < i ==> a@[j] == b@[j],
        decreases a@.len() - i,
    {
        if a[i] != b[i] {
            return false;
        }
        i += 1;
    }
    assert(a@ =~= b@);
    true
}

/// True when `name` is the byte string of the text `s`, where `s` is ASCII.
pub open spec fn is_ascii_name(name: Seq<u8>, s: Seq<char>) -> bool {
    name.len() == s.len() && forall|i: int| 0 <= i < s.len() ==> name[i] as u32 == #[trigger] s[i] as u32
}

/// Whether the bytes `name` spell the ASCII text `s`.
pub fn name_is(name: &Vec<u8>, s: &str) -> (res: bool)
    ensures
        res == is_ascii_name(name@, s@),
{
    let n = s.unicode_len();
    if name.len() != n {
        return false;
    }
    let mut i: usize = 0;
    while i < n
        invariant
            0 <= i <= n == name@.len() == s@.len(),
            forall|j: int| 0 <= j < i ==> name@[j] as u32 == #[trigger] s@[j] as u32,
        decreases n - i,
    {
        if name[i] as u32 != s.get_char(i) as u32 {
            return false;
        }
        i += 1;
    }
    true
}

/// One step of a reader of a whole document `xml` that stands at `pos`, with the
/// elements `open` open and `after_text` telling whether text was read last: the
/// event read, the new position, the elements then open and whether the event was
/// text; `None` where the reader fails. After text, anything but a tag is the end of
/// the file; an end tag must close the element opened last.
pub open spec fn cursor_step(xml: Seq<u8>, pos: int, open: Seq<Seq<u8>>, after_text: bool) -> Option<(XmlEvent, int, Seq<Seq<u8>>, bool)> {
    if after_text && (pos >= xml.len() || xml[pos] != 0x3c) {
        Some((XmlEvent::Eof, pos, open, after_text))
    } else if let Some(n) = unnamed_doctype(xml.subrange(pos, xml.len() as int)) {
        Some((XmlEvent::Other, pos + n, open, false))
    } else {
        match xml_first_event(xml.subrange(pos, xml.len() as int)) {
            None => None,
            Some((e, n)) => match e {
                XmlEvent::Eof => Some((XmlEvent::Eof, pos, open, after_text)),
                XmlEvent::Start(name, _) => Some((e, pos + n, open.push(name@), false)),
                XmlEvent::End(name) => if open.len() > 0 && open.last() == name@ {
                    Some((e, pos + n, open.drop_last(), false))
                } else {
                    None
                },
                XmlEvent::Text(_) => if n == 0 && after_text {
                    Some((XmlEvent::Eof, pos, open, after_text))
                } else {
                    Some((e, pos + n, open, true))
                },
                _ => Some((e, pos + n, open, false)),
            },
        }
    }
}

/// The input left to a reader of `xml` at `pos`, counted twice, and one more where
/// the last event was not text.
pub open spec fn cursor_measure(xml: Seq<u8>, pos: int, after_text: bool) -> nat {
    if pos <= xml.len() {
        ((xml.len() - pos) * 2 + if after_text {
            0int
        } else {
            1int
        }) as nat
    } else {
        0
    }
}

/// A reader of the events of a whole XML document.
pub struct XmlCursor<'a> {
    xml: &'a [u8],
    pos: usize,
    open: Vec<Vec<u8>>,
    after_text: bool,
}

impl<'a> XmlCursor<'a> {
    /// The document.
    pub closed spec fn spec_xml(&self) -> Seq<u8> {
        self.xml@
    }

    /// How far the reader is: where the next event starts.
    pub closed spec fn spec_pos(&self) -> int {
        self.pos as int
    }

    /// A measure of the input left, which every event but the end of the file lowers.
    pub open spec fn spec_measure(&self) -> nat {
        cursor_measure(self.spec_xml(), self.spec_pos(), self.spec_after_text())
    }

    /// The names of the elements that are open, outermost first.
    pub closed spec fn spec_open(&self) -> Seq<Seq<u8>> {
        self.open@.map_values(|v: Vec<u8>| v@)
    }

    /// Whether the last event read was text.
    pub closed spec fn spec_after_text(&self) -> bool {
        self.after_text
    }

    /// Well-formedness: the position is within the document.
    pub closed spec fn wf(&self) -> bool {
        self.pos <= self.xml@.len()
    }

    /// A reader at the start of `xml`.
    pub fn new(xml: &'a [u8]) -> (res: Self)
        ensures
            res.spec_xml() == xml@,
            res.spec_pos() == 0,
            res.spec_open() == Seq::<Seq<u8>>::empty(),
            !res.spec_after_text(),
            res.wf(),
    {
        let c = XmlCursor { xml, pos: 0, open: Vec::new(), after_text: false };
        assert(c.spec_open() =~= Seq::<Seq<u8>>::empty());
        c
    }

    /// Where the next event starts.
    pub fn position(&self) -> (res: usize)
        ensures
            res == self.spec_pos(),
            self.wf() ==> res <= self.spec_xml().len(),
    {
        self.pos
    }

    /// The document.
    pub fn document(&self) -> (res: &'a [u8])
        ensures
            res@ == self.spec_xml(),
    {
        self.xml
    }

    /// Reads the next event. An end tag must close the element opened last; text
    /// that runs to the end of the document is followed by the end of the file.
    pub fn next(&mut self) -> (res: Result<XmlEvent, quick_xml::Error>)
        requires
            old(self).wf(),
        ensures
            final(self).wf(),
            final(self).spec_xml() == old(self).spec_xml(),
            final(self).spec_pos() <= final(self).spec_xml().len(),
            old(self).spec_pos() <= final(self).spec_pos(),
            res matches Ok(e) && !(e is Eof) ==> final(self).spec_measure() < old(self).spec_measure(),
            res matches Ok(XmlEvent::Eof) ==> final(self).spec_measure() == old(self).spec_measure(),
            res matches Ok(e) ==> tag_name_within(e),
            final(self).spec_measure() <= old(self).spec_measure(),
            match cursor_step(old(self).spec_xml(), old(self).spec_pos(), old(self).spec_open(), old(self).spec_after_text()) {
                None => res is Err,
                Some((e, p, o, a)) => res == Ok::<XmlEvent, quick_xml::Error>(e) && final(self).spec_pos() == p
                    && final(self).spec_open() == o && final(self).spec_after_text() == a,
            },
    {
        let n = self.xml.len();
        if self.after_text && (self.pos >= n || self.xml[self.pos] != 0x3c) {
            return Ok(XmlEvent::Eof);
        }
        let rest = vstd::slice::slice_subrange(self.xml, self.pos, n);
        match unnamed_doctype_len(rest) {
            Some(len) => {
                self.pos = self.pos + len;
                self.after_text = false;
                return Ok(XmlEvent::Other);
            },
            None => {},
        }
        let (event, consumed) = match read_first_event(rest) {
            Ok(r) => r,
            Err(e) => {
                return Err(e);
            },
        };
        match event {
            XmlEvent::Eof => {
                return Ok(XmlEvent::Eof);
            },
            XmlEvent::Start(name, content) => {
                self.open.push(name.clone());
                self.pos = self.pos + consumed;
                self.after_text = false;
                Ok(XmlEvent::Start(name, content))
            },
            XmlEvent::End(name) => {
                let expected = match self.open.pop() {
                    Some(e) => e,
                    None => {
                        return Err(end_mismatch(&[], name.as_slice()));
                    },
                };
                if !bytes_eq(&expected, &name) {
                    return Err(end_mismatch(expected.as_slice(), name.as_slice()));
                }
                self.pos = self.pos + consumed;
                self.after_text = false;
                Ok(XmlEvent::End(name))
            },
            XmlEvent::Text(t) => {
                if consumed == 0 && self.after_text {
                    return Ok(XmlEvent::Eof);
                }
                self.pos = self.pos + consumed;
                self.after_text = true;
                Ok(XmlEvent::Text(t))
            },
            other => {
                self.pos = self.pos + consumed;
                self.after_text = false;
                Ok(other)
            },
        }
    }
}

} // verus!
