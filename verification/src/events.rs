//! The events of a document, as a pull reader hands them out one by one.
//!
//! The reader itself is the work of the `quick_xml` crate. This module says
//! what the library relies on: that a reader holds a sequence of events still
//! to come, and that each read takes them from the front.

use quick_xml::events::attributes::Attribute;
use quick_xml::events::{BytesStart, Event};
use vstd::prelude::*;
use crate::text::bytes_of;

verus! {

/// An attribute of a start tag: its key and its value as they stand in the
/// document, escapes included.
#[derive(Clone, Debug, PartialEq, Eq)]
pub struct RawAttribute {
    pub key: Vec<u8>,
    pub value: Vec<u8>,
}

/// What a [`RawAttribute`] holds.
pub struct RawAttributeView {
    pub key: Seq<u8>,
    pub value: Seq<u8>,
}

impl DeepView for RawAttribute {
    type V = RawAttributeView;

    open spec fn deep_view(&self) -> RawAttributeView {
        RawAttributeView { key: self.key@, value: self.value@ }
    }
}

/// One event of a document. A start tag comes with its name and with all
/// that stands between its angle brackets, the name included.
#[derive(Clone, Debug, PartialEq, Eq)]
pub enum XmlEvent {
    Start { name: Vec<u8>, content: Vec<u8> },
    End { name: Vec<u8> },
    Empty,
    Text { raw: Vec<u8> },
    Comment,
    CData,
    Decl,
    PI,
    DocType { raw: Vec<u8> },
    Eof,
}

/// What an [`XmlEvent`] holds.
pub enum XmlEventView {
    Start { name: Seq<u8>, content: Seq<u8> },
    End { name: Seq<u8> },
    Empty,
    Text { raw: Seq<u8> },
    Comment,
    CData,
    Decl,
    PI,
    DocType { raw: Seq<u8> },
    Eof,
}

/// The view of one item of a start tag's attributes: the attribute, or the
/// report of why it could not be read.
pub open spec fn attribute_view(item: Result<RawAttribute, String>) -> Result<
    RawAttributeView,
    Seq<char>,
> {
    match item {
        Ok(a) => Ok(a.deep_view()),
        Err(report) => Err(report@),
    }
}

/// The attributes of a start tag, in order: each an attribute, or the
/// report of why it could not be read.
pub type Attributes = Seq<Result<RawAttributeView, Seq<char>>>;

/// The views of a start tag's attributes, in order.
pub open spec fn attribute_views(items: Seq<Result<RawAttribute, String>>) -> Attributes {
    Seq::new(items.len(), |i: int| attribute_view(items[i]))
}

impl DeepView for XmlEvent {
    type V = XmlEventView;

    open spec fn deep_view(&self) -> XmlEventView {
        match self {
            XmlEvent::Start { name, content } => XmlEventView::Start {
                name: name@,
                content: content@,
            },
            XmlEvent::End { name } => XmlEventView::End { name: name@ },
            XmlEvent::Empty => XmlEventView::Empty,
            XmlEvent::Text { raw } => XmlEventView::Text { raw: raw@ },
            XmlEvent::Comment => XmlEventView::Comment,
            XmlEvent::CData => XmlEventView::CData,
            XmlEvent::Decl => XmlEventView::Decl,
            XmlEvent::PI => XmlEventView::PI,
            XmlEvent::DocType { raw } => XmlEventView::DocType { raw: raw@ },
            XmlEvent::Eof => XmlEventView::Eof,
        }
    }
}

/// What a reader still has to hand out: the events in order, with the
/// report of the reader where a read fails.
pub type Stream = Seq<Result<XmlEventView, Seq<char>>>;

/// The pull reader of the `quick_xml` crate, over one document held in
/// memory.
#[verifier::external_body]
pub struct RawReader<'a> {
    inner: quick_xml::Reader<&'a [u8]>,
}

/// What the reader `r` still has to hand out.
pub uninterp spec fn pending(r: RawReader) -> Stream;

/// A pull reader over one document held in memory. What it still has to
/// hand out is never more than the reader can count.
pub struct EventReader<'a> {
    raw: RawReader<'a>,
}

/// What the reader `r` still has to hand out.
pub closed spec fn upcoming(r: EventReader) -> Stream {
    pending(r.raw)
}

/// The events of the document that `text` writes, from its start.
pub uninterp spec fn events_of(text: Seq<char>) -> Stream;

/// The text that the raw bytes `raw` of an attribute value or of a text
/// event stand for, once decoded and with the escapes replaced, or the
/// report of why they stand for none.
pub uninterp spec fn decoded(raw: Seq<u8>) -> Result<Seq<char>, Seq<char>>;

/// The report of a search for the end tag `tag` that came to the end of
/// the document.
pub uninterp spec fn eof_report(tag: Seq<u8>) -> Seq<char>;

/// The report of a reading of text that met `event` where the text or the
/// end tag had to stand: one for the end of the document, one for any other
/// event.
pub open spec fn text_report(event: XmlEventView) -> Seq<char> {
    if event is Eof {
        "Unexpected EOF during reading Text."@
    } else {
        "Cannot read text, expecting Event::Text"@
    }
}

/// The attributes written in the content `content` of a start tag, after its
/// name of `name_len` bytes: each in document order with its key and raw
/// value, and last the report of one that could not be read.
pub uninterp spec fn attributes_in(content: Seq<u8>, name_len: int) -> Attributes;

/// The attributes of a start tag with the name `name` and the content
/// `content`.
pub open spec fn attributes_of(name: Seq<u8>, content: Seq<u8>) -> Attributes {
    attributes_in(content, name.len() as int)
}

/// The longest document that a reader is opened over, in bytes. The reader
/// counts nested elements in 32 bits.
pub const MAX_DOCUMENT_LEN: usize = 0x7fff_fff0;

/// One read: the event at the front of `s`, or the report where the read
/// fails, and what is left. A reader with nothing left is at the end of the
/// document, and stays there.
pub open spec fn next_of(s: Stream) -> (Result<XmlEventView, Seq<char>>, Stream) {
    if s.len() == 0 {
        (Ok(XmlEventView::Eof), s)
    } else {
        (s[0], s.skip(1))
    }
}

/// Reading up to the end tag `tag` that closes the element the reader is in,
/// `depth` elements of that name being open inside it: whether the end tag
/// was found, and what is left. The search fails where a read fails, with
/// the report of that read, and at the end of the document.
pub open spec fn end_of(s: Stream, tag: Seq<u8>, depth: nat) -> (Result<(), Seq<char>>, Stream)
    decreases s.len(),
{
    let (item, rest) = next_of(s);
    match item {
        Err(report) => (Err(report), rest),
        Ok(XmlEventView::Eof) => (Err(eof_report(tag)), rest),
        Ok(XmlEventView::End { name }) if name == tag => if depth == 0 {
            (Ok(()), rest)
        } else {
            end_of(rest, tag, (depth - 1) as nat)
        },
        Ok(XmlEventView::Start { name, .. }) if name == tag => end_of(rest, tag, depth + 1),
        Ok(_) => end_of(rest, tag, depth),
    }
}

/// Reading the text of the element `tag` that the reader is in: the text, or
/// the report of a failure, and what is left. The element holds one text
/// event and then its end tag, or its end tag at once, which makes empty
/// text. The text is decoded once the end tag has been found.
pub open spec fn text_of(s: Stream, tag: Seq<u8>) -> (Result<Seq<char>, Seq<char>>, Stream) {
    let (item, rest) = next_of(s);
    match item {
        Ok(XmlEventView::Text { raw }) => {
            let (found, after) = end_of(rest, tag, 0);
            match found {
                Ok(_) => (decoded(raw), after),
                Err(report) => (Err(report), after),
            }
        },
        Ok(XmlEventView::End { name }) if name == tag => (Ok(Seq::empty()), rest),
        Ok(event) => (Err(text_report(event)), rest),
        Err(report) => (Err(report), rest),
    }
}

/// Whether the stream holds few enough events for every count that the
/// reader keeps.
pub open spec fn countable(s: Stream) -> bool {
    s.len() <= MAX_DOCUMENT_LEN + 1
}

/// Reading to an end tag leaves no more events than there were.
pub proof fn lemma_end_of_shrinks(s: Stream, tag: Seq<u8>, depth: nat)
    ensures
        end_of(s, tag, depth).1.len() <= s.len(),
    decreases s.len(),
{
    let (item, rest) = next_of(s);
    match item {
        Ok(XmlEventView::End { name }) if name == tag => {
            if depth > 0 {
                lemma_end_of_shrinks(rest, tag, (depth - 1) as nat);
            }
        },
        Ok(XmlEventView::Start { name, .. }) if name == tag => {
            lemma_end_of_shrinks(rest, tag, depth + 1);
        },
        Ok(XmlEventView::Eof) => {},
        Ok(_) => {
            lemma_end_of_shrinks(rest, tag, depth);
        },
        Err(_) => {},
    }
}

/// Reading the text of an element leaves no more events than there were.
pub proof fn lemma_text_of_shrinks(s: Stream, tag: Seq<u8>)
    ensures
        text_of(s, tag).1.len() <= s.len(),
{
    lemma_end_of_shrinks(next_of(s).1, tag, 0);
}

/// `quick_xml::Reader::from_str`: a reader at the start of `text`, with all
/// the events of the text still to come. Every event takes at least one byte
/// of the text, so there are no more events than bytes, and at most one
/// failing read after them.
#[verifier::external_body]
fn reader_over<'a>(text: &'a str) -> (r: RawReader<'a>)
    ensures
        pending(r) == events_of(text@),
        pending(r).len() <= bytes_of(text@).len() + 1,
{
    RawReader { inner: quick_xml::Reader::from_str(text) }
}

/// `quick_xml::Reader::read_event`: takes the event at the front, or fails
/// and hands the reader's report; at the end of the document it gives `Eof`
/// and leaves the reader as it is. The event is copied out of the buffer as
/// it stands: names, the content of a start tag, raw text. The read ends for
/// every document, well formed or not, without a panic.
#[verifier::external_body]
fn next_event(reader: &mut RawReader, buf: &mut Vec<u8>) -> (r: Result<XmlEvent, String>)
    ensures
        pending(*final(reader)) == next_of(pending(*old(reader))).1,
        match r {
            Ok(event) => next_of(pending(*old(reader))).0 == Ok::<XmlEventView, Seq<char>>(
                event.deep_view(),
            ),
            Err(report) => next_of(pending(*old(reader))).0 == Err::<XmlEventView, Seq<char>>(
                report@,
            ),
        },
    no_unwind
{
    Ok(match reader.inner.read_event(buf).map_err(|e| e.to_string())? {
        Event::Start(s) => XmlEvent::Start { name: s.name().to_vec(), content: s.to_vec() },
        Event::End(e) => XmlEvent::End { name: e.name().to_vec() },
        Event::Empty(_) => XmlEvent::Empty,
        Event::Text(t) => XmlEvent::Text { raw: t.escaped().to_vec() },
        Event::Comment(_) => XmlEvent::Comment,
        Event::CData(_) => XmlEvent::CData,
        Event::Decl(_) => XmlEvent::Decl,
        Event::PI(_) => XmlEvent::PI,
        Event::DocType(d) => XmlEvent::DocType { raw: d.escaped().to_vec() },
        Event::Eof => XmlEvent::Eof,
    })
}

/// `quick_xml::Reader::read_to_end`: reads events up to the end tag named
/// `tag` that closes the element the reader is in, counting the elements of
/// that name that open inside it. It fails where a read fails and at the end
/// of the document. The count of open elements is kept in 32 bits, which is
/// enough for a stream that is countable; then there is no panic.
#[verifier::external_body]
fn read_to_end(reader: &mut RawReader, tag: &str, buf: &mut Vec<u8>) -> (r: Result<(), String>)
    requires
        countable(pending(*old(reader))),
    ensures
        match r {
            Ok(_) => end_of(pending(*old(reader)), bytes_of(tag@), 0).0 is Ok,
            Err(report) => end_of(pending(*old(reader)), bytes_of(tag@), 0).0 == Err::<
                (),
                Seq<char>,
            >(report@),
        },
        r is Err && pending(*old(reader)).len() == 0 ==> r->Err_0@ == eof_report(bytes_of(tag@)),
        pending(*final(reader)) == end_of(pending(*old(reader)), bytes_of(tag@), 0).1,
    no_unwind
{
    reader.inner.read_to_end(tag.as_bytes(), buf).map_err(|e| e.to_string())
}

/// `quick_xml::Reader::read_text`: reads the text of the element named
/// `tag` that the reader is in, up to and with its end tag. A text event is
/// decoded, the escapes replaced, after the end tag has been found. An end
/// tag at once makes empty text. Anything else fails, without a panic: the
/// end of the document with one fixed report, any other event with another.
#[verifier::external_body]
fn read_text(reader: &mut RawReader, tag: &str, buf: &mut Vec<u8>) -> (r: Result<String, String>)
    requires
        countable(pending(*old(reader))),
    ensures
        pending(*final(reader)) == text_of(pending(*old(reader)), bytes_of(tag@)).1,
        match r {
            Ok(text) => text_of(pending(*old(reader)), bytes_of(tag@)).0 == Ok::<
                Seq<char>,
                Seq<char>,
            >(text@),
            Err(report) => text_of(pending(*old(reader)), bytes_of(tag@)).0 == Err::<
                Seq<char>,
                Seq<char>,
            >(report@),
        },
    no_unwind
{
    reader.inner.read_text(tag.as_bytes(), buf).map_err(|e| e.to_string())
}

/// `quick_xml::events::BytesStart::attributes`: the attributes of a start
/// tag, read one by one from its content after the name. Reading stops after
/// an attribute that is malformed or repeats a key; the reader's report
/// stands in its place.
#[verifier::external_body]
pub(crate) fn start_attributes(content: &Vec<u8>, name_len: usize) -> (r: Vec<
    Result<RawAttribute, String>,
>)
    ensures
        attribute_views(r@) == attributes_in(content@, name_len as int),
{
    BytesStart::borrowed(content, name_len).attributes().map(
        |a| match a {
            Ok(a) => Ok(RawAttribute { key: a.key.to_vec(), value: a.value.to_vec() }),
            Err(e) => Err(e.to_string()),
        },
    ).collect()
}

/// `quick_xml::events::attributes::Attribute::unescape_and_decode_value`:
/// decodes the raw bytes of a value as UTF-8 and replaces the escapes.
#[verifier::external_body]
fn decode_value(raw: &Vec<u8>, reader: &RawReader) -> (r: Result<String, String>)
    ensures
        match r {
            Ok(text) => decoded(raw@) == Ok::<Seq<char>, Seq<char>>(text@),
            Err(report) => decoded(raw@) == Err::<Seq<char>, Seq<char>>(report@),
        },
{
    let attribute = Attribute { key: &[], value: std::borrow::Cow::Borrowed(&raw[..]) };
    attribute.unescape_and_decode_value(&reader.inner).map_err(|e| e.to_string())
}

impl<'a> EventReader<'a> {
    /// What the reader still has to hand out is never more than it can
    /// count.
    #[verifier::type_invariant]
    closed spec fn bounded(self) -> bool {
        countable(pending(self.raw))
    }

    /// Opens a reader at the start of `text`, with all the events of the
    /// text still to come. Text longer than [`MAX_DOCUMENT_LEN`] bytes gets
    /// no reader.
    pub fn open(text: &'a str) -> (r: Option<EventReader<'a>>)
        ensures
            (r is Some) == (bytes_of(text@).len() <= MAX_DOCUMENT_LEN),
            r matches Some(reader) ==> upcoming(reader) == events_of(text@),
    {
        if text.as_bytes().len() <= MAX_DOCUMENT_LEN {
            Some(EventReader { raw: reader_over(text) })
        } else {
            None
        }
    }

    /// Takes the event at the front, or fails with the reader's report. At
    /// the end of the document it gives `Eof` and leaves the reader as it is.
    pub(crate) fn next_event(&mut self, buf: &mut Vec<u8>) -> (r: Result<XmlEvent, String>)
        ensures
            upcoming(*final(self)) == next_of(upcoming(*old(self))).1,
            match r {
                Ok(event) => next_of(upcoming(*old(self))).0 == Ok::<XmlEventView, Seq<char>>(
                    event.deep_view(),
                ),
                Err(report) => next_of(upcoming(*old(self))).0 == Err::<
                    XmlEventView,
                    Seq<char>,
                >(report@),
            },
    {
        proof {
            use_type_invariant(&*self);
        }
        next_event(&mut self.raw, buf)
    }

    /// Reads events up to the end tag named `tag` that closes the element
    /// the reader is in.
    pub(crate) fn read_to_end(&mut self, tag: &str, buf: &mut Vec<u8>) -> (r: Result<(), String>)
        ensures
            match r {
                Ok(_) => end_of(upcoming(*old(self)), bytes_of(tag@), 0).0 is Ok,
                Err(report) => end_of(upcoming(*old(self)), bytes_of(tag@), 0).0 == Err::<
                    (),
                    Seq<char>,
                >(report@),
            },
            upcoming(*final(self)) == end_of(upcoming(*old(self)), bytes_of(tag@), 0).1,
    {
        proof {
            use_type_invariant(&*self);
            lemma_end_of_shrinks(pending(self.raw), bytes_of(tag@), 0);
        }
        read_to_end(&mut self.raw, tag, buf)
    }

    /// Reads the text of the element named `tag` that the reader is in, up
    /// to and with its end tag.
    pub(crate) fn read_text(&mut self, tag: &str, buf: &mut Vec<u8>) -> (r: Result<String, String>)
        ensures
            upcoming(*final(self)) == text_of(upcoming(*old(self)), bytes_of(tag@)).1,
            match r {
                Ok(text) => text_of(upcoming(*old(self)), bytes_of(tag@)).0 == Ok::<
                    Seq<char>,
                    Seq<char>,
                >(text@),
                Err(report) => text_of(upcoming(*old(self)), bytes_of(tag@)).0 == Err::<
                    Seq<char>,
                    Seq<char>,
                >(report@),
            },
    {
        proof {
            use_type_invariant(&*self);
            lemma_text_of_shrinks(pending(self.raw), bytes_of(tag@));
        }
        read_text(&mut self.raw, tag, buf)
    }

    /// Decodes the raw bytes of an attribute value and replaces the escapes.
    pub(crate) fn decode_value(&self, raw: &Vec<u8>) -> (r: Result<String, String>)
        ensures
            match r {
                Ok(text) => decoded(raw@) == Ok::<Seq<char>, Seq<char>>(text@),
                Err(report) => decoded(raw@) == Err::<Seq<char>, Seq<char>>(report@),
            },
    {
        decode_value(raw, &self.raw)
    }
}

} // verus!
