//! The reader of whole documents from their events.

use vstd::prelude::*;
use crate::attributes::{Element, Settings};
use crate::config::Config;
use crate::dirs::{CacheDir, Dir, Include};
use crate::document::Document;
use crate::error::{Error, ErrorView};
use crate::events::{
    attribute_views, events_of, start_attributes, upcoming, EventReader, RawAttribute, Stream,
    XmlEvent, MAX_DOCUMENT_LEN,
};
use crate::property::{Property, PropertyKind};
use crate::reader::{
    body_at, cell_at, config_at, document_at, element_at, is_leaf, leaf_of,
    lemma_element_at_shrinks, lemma_property_at_shrinks, lemma_string_at_shrinks, match_at,
    matrix_at, path_at, property_at, root_at, string_at, value_at,
};
use crate::rules::{Edit, Match, MatchTarget, MatchView, Test};
use crate::text::{bytes_are, bytes_of, parse_bool, parse_int};
use crate::value::{Constant, Double, Expression, Value};
use crate::views::{lemma_empty, lemma_pushed, outcome};

verus! {

/// Reads documents from their events. It keeps one buffer for the events of
/// every document that it reads.
pub struct DocumentReader {
    buf: Vec<u8>,
}

/// Whether a read gave `r` and left `after`, as `expected` says.
pub open spec fn reads<T: DeepView>(
    r: Result<T, Error>,
    after: EventReader,
    expected: (Result<T::V, ErrorView>, Stream),
) -> bool {
    outcome(r) == expected.0 && upcoming(after) == expected.1
}

/// The error for a document that ends where `what` was expected.
fn expected(what: &str) -> (e: Error)
    ensures
        e.deep_view() == ErrorView::UnexpectedEof("Expect "@ + what@),
{
    Error::UnexpectedEof(String::from_str("Expect ").concat(what))
}

/// The value that the text of the leaf element named `name` writes.
fn leaf_value(name: &[u8], text: String) -> (r: Result<Value, Error>)
    ensures
        outcome(r) == leaf_of(name@, text@),
{
    if bytes_are(name, "string") {
        Ok(Value::String(text))
    } else if bytes_are(name, "double") {
        Ok(Value::Double(Double::from_text(text.as_str())?))
    } else if bytes_are(name, "int") {
        match parse_int(text.as_str()) {
            Some(n) => Ok(Value::Int(n)),
            None => Err(Error::ParseIntError(text)),
        }
    } else if bytes_are(name, "bool") {
        match parse_bool(text.as_str()) {
            Some(b) => Ok(Value::Bool(b)),
            None => Err(Error::ParseBoolError(text)),
        }
    } else {
        Ok(Value::Constant(Constant::from_text(text.as_str())?))
    }
}

/// The name of the leaf element that the bytes `name` name, if they name
/// one.
fn leaf_tag(name: &[u8]) -> (r: Option<&'static str>)
    ensures
        (r is Some) == is_leaf(name@),
        r matches Some(tag) ==> bytes_of(tag@) == name@,
{
    if bytes_are(name, "string") {
        Some("string")
    } else if bytes_are(name, "double") {
        Some("double")
    } else if bytes_are(name, "int") {
        Some("int")
    } else if bytes_are(name, "bool") {
        Some("bool")
    } else if bytes_are(name, "const") {
        Some("const")
    } else {
        None
    }
}

impl DocumentReader {
    /// What the buffer holds.
    pub closed spec fn buffer(&self) -> Seq<u8> {
        self.buf@
    }

    /// A reader with an empty buffer.
    pub fn new() -> (r: Self)
        ensures
            r.buffer() == Seq::<u8>::empty(),
    {
        Self { buf: Vec::with_capacity(128) }
    }

    /// Empties the buffer.
    pub fn clear(&mut self)
        ensures
            final(self).buffer() == Seq::<u8>::empty(),
    {
        self.buf.clear();
    }

    /// Reads the text of the next element, which must be named `tag`.
    fn read_string(&mut self, tag: &str, reader: &mut EventReader) -> (r: Result<String, Error>)
        ensures
            reads(r, *final(reader), string_at(upcoming(*old(reader)), tag@)),
    {
        loop
            invariant
                string_at(upcoming(*reader), tag@) == string_at(upcoming(*old(reader)), tag@),
            decreases upcoming(*reader).len(),
        {
            match reader.next_event(&mut self.buf) {
                Err(report) => {
                    return Err(Error::Xml(report));
                },
                Ok(XmlEvent::Eof) => {
                    return Err(expected(tag));
                },
                Ok(XmlEvent::Start { name, content }) => {
                    if bytes_are(name.as_slice(), tag) {
                        return match reader.read_text(tag, &mut self.buf) {
                            Ok(text) => Ok(text),
                            Err(report) => Err(Error::Xml(report)),
                        };
                    } else {
                        return Err(Error::InvalidFormat);
                    }
                },
                Ok(_) => {},
            }
        }
    }

    /// Reads one cell of a matrix.
    fn read_cell(&mut self, reader: &mut EventReader) -> (r: Result<Expression, Error>)
        ensures
            reads(r, *final(reader), cell_at(upcoming(*old(reader)))),
    {
        let text = self.read_string("double", reader)?;
        let literal = Double::from_text(text.as_str())?;
        Ok(Expression::Simple(Value::Double(literal)))
    }

    /// Reads the four cells of a matrix.
    fn read_matrix(&mut self, reader: &mut EventReader) -> (r: Result<Expression, Error>)
        ensures
            reads(r, *final(reader), matrix_at(upcoming(*old(reader)))),
    {
        let a = self.read_cell(reader)?;
        let b = self.read_cell(reader)?;
        let c = self.read_cell(reader)?;
        let d = self.read_cell(reader)?;
        Ok(Expression::Matrix(Box::new(a), Box::new(b), Box::new(c), Box::new(d)))
    }

    /// Reads the value of a test or an edit: the next element must be a leaf
    /// or a matrix.
    fn read_value(&mut self, reader: &mut EventReader) -> (r: Result<Expression, Error>)
        ensures
            reads(r, *final(reader), value_at(upcoming(*old(reader)))),
    {
        loop
            invariant
                value_at(upcoming(*reader)) == value_at(upcoming(*old(reader))),
            decreases upcoming(*reader).len(),
        {
            match reader.next_event(&mut self.buf) {
                Err(report) => {
                    return Err(Error::Xml(report));
                },
                Ok(XmlEvent::Eof) => {
                    return Err(expected("property"));
                },
                Ok(XmlEvent::Start { name, content }) => {
                    match leaf_tag(name.as_slice()) {
                        Some(tag) => {
                            let text = match reader.read_text(tag, &mut self.buf) {
                                Ok(text) => text,
                                Err(report) => {
                                    return Err(Error::Xml(report));
                                },
                            };
                            return Ok(Expression::Simple(leaf_value(name.as_slice(), text)?));
                        },
                        None => {
                            if bytes_are(name.as_slice(), "matrix") {
                                return self.read_matrix(reader);
                            } else {
                                return Err(Error::InvalidFormat);
                            }
                        },
                    }
                },
                Ok(_) => {},
            }
        }
    }

    /// Reads what a test or an edit named `tag` holds after its start tag.
    fn read_property(&mut self, kind: PropertyKind, tag: &str, reader: &mut EventReader) -> (r:
        Result<Property, Error>)
        ensures
            reads(r, *final(reader), property_at(upcoming(*old(reader)), kind, tag@)),
    {
        let value = self.read_value(reader)?;
        let property = kind.make_property(value)?;
        match reader.read_to_end(tag, &mut self.buf) {
            Ok(_) => Ok(property),
            Err(report) => Err(Error::Xml(report)),
        }
    }

    /// Reads the rest of a match rule on `target`, after its start tag.
    fn read_match(&mut self, target: MatchTarget, reader: &mut EventReader) -> (r: Result<
        Match,
        Error,
    >)
        ensures
            reads(
                r,
                *final(reader),
                match_at(upcoming(*old(reader)), MatchView { target, ..MatchView::empty() }),
            ),
    {
        let mut ret = Match { target, tests: Vec::new(), edits: Vec::new() };
        proof {
            lemma_empty(ret.tests);
            lemma_empty(ret.edits);
        }
        loop
            invariant
                match_at(upcoming(*reader), ret.deep_view()) == match_at(
                    upcoming(*old(reader)),
                    MatchView { target, ..MatchView::empty() },
                ),
            decreases upcoming(*reader).len(),
        {
            match reader.next_event(&mut self.buf) {
                Err(report) => {
                    return Err(Error::Xml(report));
                },
                Ok(XmlEvent::Eof) => {
                    return Ok(ret);
                },
                Ok(XmlEvent::End { name }) => {
                    if bytes_are(name.as_slice(), "match") {
                        return Ok(ret);
                    }
                },
                Ok(XmlEvent::Start { name, content }) => {
                    if bytes_are(name.as_slice(), "test") {
                        let ghost rest = upcoming(*reader);
                        let attributes = start_attributes(&content, name.len());
                        let settings = Element::Test.read_settings(&attributes, reader)?;
                        proof {
                            lemma_property_at_shrinks(rest, settings.kind, "test"@);
                        }
                        let value = self.read_property(settings.kind, "test", reader)?;
                        let test = Test {
                            qual: settings.qual,
                            target: settings.test_target,
                            compare: settings.compare,
                            value,
                        };
                        let ghost tests = ret.tests;
                        let ghost pushed = test;
                        ret.tests.push(test);
                        proof {
                            lemma_pushed(tests, ret.tests, pushed);
                        }
                    } else if bytes_are(name.as_slice(), "edit") {
                        let ghost rest = upcoming(*reader);
                        let attributes = start_attributes(&content, name.len());
                        let settings = Element::Edit.read_settings(&attributes, reader)?;
                        proof {
                            lemma_property_at_shrinks(rest, settings.kind, "edit"@);
                        }
                        let value = self.read_property(settings.kind, "edit", reader)?;
                        let edit = Edit { mode: settings.mode, binding: settings.binding, value };
                        let ghost edits = ret.edits;
                        let ghost pushed = edit;
                        ret.edits.push(edit);
                        proof {
                            lemma_pushed(edits, ret.edits, pushed);
                        }
                    }
                },
                Ok(_) => {},
            }
        }
    }

    /// Reads the rest of a `config` element, after its start tag.
    fn read_config(&mut self, reader: &mut EventReader) -> (r: Result<Config, Error>)
        ensures
            reads(
                r,
                *final(reader),
                config_at(upcoming(*old(reader)), crate::config::ConfigView::empty()),
            ),
    {
        let mut ret = Config::new();
        loop
            invariant
                config_at(upcoming(*reader), ret.deep_view()) == config_at(
                    upcoming(*old(reader)),
                    crate::config::ConfigView::empty(),
                ),
            decreases upcoming(*reader).len(),
        {
            match reader.next_event(&mut self.buf) {
                Err(report) => {
                    return Err(Error::Xml(report));
                },
                Ok(XmlEvent::Eof) => {
                    return Err(Error::UnexpectedEof(String::from_str("Expected config")));
                },
                Ok(XmlEvent::End { name }) => {
                    if bytes_are(name.as_slice(), "config") {
                        return Ok(ret);
                    }
                },
                Ok(XmlEvent::Start { name, content }) => {
                    if bytes_are(name.as_slice(), "rescan") {
                        proof {
                            lemma_string_at_shrinks(upcoming(*reader), "int"@);
                        }
                        let text = self.read_string("int", reader)?;
                        let n = match parse_int(text.as_str()) {
                            Some(n) => n,
                            None => {
                                return Err(Error::ParseIntError(text));
                            },
                        };
                        ret.rescans.push(n);
                    }
                },
                Ok(_) => {},
            }
        }
    }

    /// Reads an element of the body that holds a path, after its start tag:
    /// its settings from the attributes, then its text.
    fn read_path(
        &mut self,
        element: Element,
        attributes: &Vec<Result<RawAttribute, String>>,
        tag: &str,
        reader: &mut EventReader,
    ) -> (r: Result<(Settings, String), Error>)
        ensures
            upcoming(*final(reader)) == path_at(
                upcoming(*old(reader)),
                element,
                attribute_views(attributes@),
                tag@,
            ).1,
            match r {
                Ok((settings, path)) => path_at(
                    upcoming(*old(reader)),
                    element,
                    attribute_views(attributes@),
                    tag@,
                ).0 == Ok::<_, ErrorView>((settings.deep_view(), path@)),
                Err(e) => path_at(
                    upcoming(*old(reader)),
                    element,
                    attribute_views(attributes@),
                    tag@,
                ).0 == Err::<(crate::attributes::SettingsView, Seq<char>), _>(e.deep_view()),
            },
    {
        let settings = element.read_settings(attributes, reader)?;
        match reader.read_text(tag, &mut self.buf) {
            Ok(path) => Ok((settings, path)),
            Err(report) => Err(Error::Xml(report)),
        }
    }

    /// Reads one element of the body named `name` into `document`, after its
    /// start tag.
    fn read_element(
        &mut self,
        document: Document,
        name: &[u8],
        attributes: &Vec<Result<RawAttribute, String>>,
        reader: &mut EventReader,
    ) -> (r: Result<Document, Error>)
        ensures
            reads(
                r,
                *final(reader),
                element_at(
                    upcoming(*old(reader)),
                    name@,
                    attribute_views(attributes@),
                    document.deep_view(),
                ),
            ),
    {
        reveal(element_at);
        let mut ret = document;
        if bytes_are(name, "description") {
            ret.description = match reader.read_text("description", &mut self.buf) {
                Ok(text) => text,
                Err(report) => {
                    return Err(Error::Xml(report));
                },
            };
        } else if bytes_are(name, "match") {
            let settings = Element::Match.read_settings(attributes, reader)?;
            let rule = self.read_match(settings.match_target, reader)?;
            let ghost before = ret.matches;
            let ghost pushed = rule;
            ret.matches.push(rule);
            proof {
                lemma_pushed(before, ret.matches, pushed);
            }
        } else if bytes_are(name, "config") {
            ret.config = self.read_config(reader)?;
        } else if bytes_are(name, "dir") {
            let (settings, path) = self.read_path(Element::Dir, attributes, "dir", reader)?;
            let dir = Dir { prefix: settings.prefix, salt: settings.salt, path };
            let ghost before = ret.dirs;
            ret.dirs.push(dir);
            proof {
                lemma_pushed(before, ret.dirs, dir);
            }
        } else if bytes_are(name, "cachedir") {
            let (settings, path) = self.read_path(
                Element::CacheDir,
                attributes,
                "cachedir",
                reader,
            )?;
            let dir = CacheDir { prefix: settings.prefix, path };
            let ghost before = ret.cache_dirs;
            ret.cache_dirs.push(dir);
            proof {
                lemma_pushed(before, ret.cache_dirs, dir);
            }
        } else if bytes_are(name, "include") {
            let (settings, path) = self.read_path(
                Element::Include,
                attributes,
                "include",
                reader,
            )?;
            let dir = Include {
                prefix: settings.prefix,
                ignore_missing: settings.ignore_missing,
                path,
            };
            let ghost before = ret.includes;
            ret.includes.push(dir);
            proof {
                lemma_pushed(before, ret.includes, dir);
            }
        }
        Ok(ret)
    }

    /// Reads one document from the events of `reader`.
    ///
    /// The root element is looked for first: declarations, text and comments
    /// before it are passed over, a document type must be that of font
    /// configurations, and anything else means that there is no font
    /// configuration. Then the body is read to the end of the events:
    /// `description`, `match`, `config`, `dir`, `cachedir` and `include`
    /// elements add to the document in document order, and other elements
    /// are passed over. On an error no document is returned.
    pub fn read_document(&mut self, reader: &mut EventReader) -> (r: Result<Document, Error>)
        ensures
            reads(r, *final(reader), document_at(upcoming(*old(reader)))),
    {
        self.clear();
        loop
            invariant_except_break
                root_at(upcoming(*reader)) == root_at(upcoming(*old(reader))),
            invariant
            ensures
                root_at(upcoming(*old(reader))) == (Ok::<(), ErrorView>(()), upcoming(*reader)),
            decreases upcoming(*reader).len(),
        {
            match reader.next_event(&mut self.buf) {
                Err(report) => {
                    return Err(Error::Xml(report));
                },
                Ok(XmlEvent::Decl) | Ok(XmlEvent::Text { .. }) | Ok(XmlEvent::Comment) => {},
                Ok(XmlEvent::DocType { raw }) => {
                    let expected = " fontconfig SYSTEM \"urn:fontconfig:fonts.dtd\"";
                    if !bytes_are(raw.as_slice(), expected) {
                        return Err(Error::UnmatchedDocType);
                    }
                },
                Ok(XmlEvent::Start { name, content }) => {
                    if bytes_are(name.as_slice(), "fontconfig") {
                        break ;
                    }
                },
                Ok(_) => {
                    return Err(Error::NoFontconfig);
                },
            }
        }
        let ghost body = upcoming(*reader);
        let mut ret = Document::new();
        loop
            invariant
                root_at(upcoming(*old(reader))) == (Ok::<(), ErrorView>(()), body),
                body_at(upcoming(*reader), ret.deep_view()) == body_at(
                    body,
                    crate::document::DocumentView::empty(),
                ),
            decreases upcoming(*reader).len(),
        {
            match reader.next_event(&mut self.buf) {
                Err(report) => {
                    return Err(Error::Xml(report));
                },
                Ok(XmlEvent::Eof) => {
                    return Ok(ret);
                },
                Ok(XmlEvent::Start { name, content }) => {
                    let attributes = start_attributes(&content, name.len());
                    proof {
                        lemma_element_at_shrinks(
                            upcoming(*reader),
                            name@,
                            attribute_views(attributes@),
                            ret.deep_view(),
                        );
                    }
                    ret = self.read_element(ret, name.as_slice(), &attributes, reader)?;
                },
                Ok(_) => {},
            }
        }
    }

    /// Reads the document that `text` writes, from its first event to its
    /// last. Text longer than [`MAX_DOCUMENT_LEN`] bytes is not read.
    pub fn read_str(&mut self, text: &str) -> (r: Option<Result<Document, Error>>)
        ensures
            (r is Some) == (bytes_of(text@).len() <= MAX_DOCUMENT_LEN),
            r matches Some(found) ==> outcome(found) == document_at(events_of(text@)).0,
    {
        match EventReader::open(text) {
            Some(reader) => {
                let mut reader = reader;
                Some(self.read_document(&mut reader))
            },
            None => None,
        }
    }
}

} // verus!
