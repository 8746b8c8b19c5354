//! Reading one document from its events, without building a tree of it.

use vstd::prelude::*;
use crate::attributes::{Element, SettingsView};
use crate::config::ConfigView;
use crate::dirs::{CacheDirView, DirView, IncludeView};
use crate::document::DocumentView;
use crate::error::ErrorView;
use crate::events::{
    attributes_of, end_of, lemma_end_of_shrinks, lemma_text_of_shrinks, next_of, text_of,
    Attributes, Stream, XmlEventView,
};
use crate::property::{PropertyKind, PropertyView};
use crate::rules::{EditView, MatchView, TestView};
use crate::text::{bool_of_text, bytes_of, int_of_text};
use crate::value::{Constant, Double, ExpressionView, ValueView};

verus! {

/// The document type that a font configuration declares, as it stands
/// between `<!DOCTYPE` and `>`.
pub open spec fn doctype_text() -> Seq<char> {
    " fontconfig SYSTEM \"urn:fontconfig:fonts.dtd\""@
}

/// A text that was read, or the markup error of a failed read.
pub open spec fn text_or_markup(found: Result<Seq<char>, Seq<char>>) -> Result<
    Seq<char>,
    ErrorView,
> {
    match found {
        Ok(text) => Ok(text),
        Err(report) => Err(ErrorView::Xml(report)),
    }
}

/// Reading the text of the next element, which must be named `tag`: the
/// text, and what is left of the events. Events that start no element are
/// passed over. Another element is a format error, and the end of the
/// document is an error that says what was expected.
pub open spec fn string_at(s: Stream, tag: Seq<char>) -> (Result<Seq<char>, ErrorView>, Stream)
    decreases s.len(),
{
    let (item, rest) = next_of(s);
    match item {
        Err(report) => (Err(ErrorView::Xml(report)), rest),
        Ok(XmlEventView::Eof) => (Err(ErrorView::UnexpectedEof("Expect "@ + tag)), rest),
        Ok(XmlEventView::Start { name, .. }) => if name == bytes_of(tag) {
            (text_or_markup(text_of(rest, bytes_of(tag)).0), text_of(rest, bytes_of(tag)).1)
        } else {
            (Err(ErrorView::InvalidFormat), rest)
        },
        Ok(_) => string_at(rest, tag),
    }
}

/// The floating-point literal that `text` writes, or the error that names
/// the text.
pub open spec fn double_of(text: Seq<char>) -> Result<Seq<char>, ErrorView> {
    match Double::of_text(text) {
        Some(literal) => Ok(literal),
        None => Err(ErrorView::ParseFloatError(text)),
    }
}

/// Reading one cell of a matrix: the next element must be a `double`.
pub open spec fn cell_at(s: Stream) -> (Result<ExpressionView, ErrorView>, Stream) {
    let (text, rest) = string_at(s, "double"@);
    match text {
        Err(e) => (Err(e), rest),
        Ok(text) => match double_of(text) {
            Err(e) => (Err(e), rest),
            Ok(literal) => (Ok(ExpressionView::Simple(ValueView::Double(literal))), rest),
        },
    }
}

/// Reading the four cells of a matrix, one after another.
pub open spec fn matrix_at(s: Stream) -> (Result<ExpressionView, ErrorView>, Stream) {
    let (a, s1) = cell_at(s);
    match a {
        Err(e) => (Err(e), s1),
        Ok(a) => {
            let (b, s2) = cell_at(s1);
            match b {
                Err(e) => (Err(e), s2),
                Ok(b) => {
                    let (c, s3) = cell_at(s2);
                    match c {
                        Err(e) => (Err(e), s3),
                        Ok(c) => {
                            let (d, s4) = cell_at(s3);
                            match d {
                                Err(e) => (Err(e), s4),
                                Ok(d) => (
                                    Ok(
                                        ExpressionView::Matrix(
                                            Box::new(a),
                                            Box::new(b),
                                            Box::new(c),
                                            Box::new(d),
                                        ),
                                    ),
                                    s4,
                                ),
                            }
                        },
                    }
                },
            }
        },
    }
}

/// The value that the text of a leaf element named `name` writes, for the
/// five leaves that hold text.
pub open spec fn leaf_of(name: Seq<u8>, text: Seq<char>) -> Result<ValueView, ErrorView> {
    if name == bytes_of("string"@) {
        Ok(ValueView::String(text))
    } else if name == bytes_of("double"@) {
        match double_of(text) {
            Ok(literal) => Ok(ValueView::Double(literal)),
            Err(e) => Err(e),
        }
    } else if name == bytes_of("int"@) {
        match int_of_text(text) {
            Some(n) => Ok(ValueView::Int(n)),
            None => Err(ErrorView::ParseIntError(text)),
        }
    } else if name == bytes_of("bool"@) {
        match bool_of_text(text) {
            Some(b) => Ok(ValueView::Bool(b)),
            None => Err(ErrorView::ParseBoolError(text)),
        }
    } else {
        match Constant::of_text(text) {
            Some(c) => Ok(ValueView::Constant(c)),
            None => Err(ErrorView::ParseError(text)),
        }
    }
}

/// Whether `name` names one of the five leaves that hold text.
pub open spec fn is_leaf(name: Seq<u8>) -> bool {
    name == bytes_of("string"@) || name == bytes_of("double"@) || name == bytes_of("int"@) || name
        == bytes_of("bool"@) || name == bytes_of("const"@)
}

/// Reading the value of a test or an edit: the next element must be a leaf
/// or a matrix. Events that start no element are passed over. Any other
/// element is a format error, and the end of the document is an error.
pub open spec fn value_at(s: Stream) -> (Result<ExpressionView, ErrorView>, Stream)
    decreases s.len(),
{
    let (item, rest) = next_of(s);
    match item {
        Err(report) => (Err(ErrorView::Xml(report)), rest),
        Ok(XmlEventView::Eof) => (Err(ErrorView::UnexpectedEof("Expect "@ + "property"@)), rest),
        Ok(XmlEventView::Start { name, .. }) => if is_leaf(name) {
            let (text, after) = text_of(rest, name);
            match text {
                Err(report) => (Err(ErrorView::Xml(report)), after),
                Ok(text) => match leaf_of(name, text) {
                    Ok(v) => (Ok(ExpressionView::Simple(v)), after),
                    Err(e) => (Err(e), after),
                },
            }
        } else if name == bytes_of("matrix"@) {
            matrix_at(rest)
        } else {
            (Err(ErrorView::InvalidFormat), rest)
        },
        Ok(_) => value_at(rest),
    }
}

/// Reading what a test or an edit named `tag` holds once its settings are
/// known: its value, made into a property of the kind that the settings
/// name, and then everything up to its end tag.
pub open spec fn property_at(s: Stream, kind: PropertyKind, tag: Seq<char>) -> (
    Result<PropertyView, ErrorView>,
    Stream,
) {
    let (value, rest) = value_at(s);
    match value {
        Err(e) => (Err(e), rest),
        Ok(value) => match kind.property_of(value) {
            Err(e) => (Err(e), rest),
            Ok(property) => {
                let (found, after) = end_of(rest, bytes_of(tag), 0);
                match found {
                    Ok(_) => (Ok(property), after),
                    Err(report) => (Err(ErrorView::Xml(report)), after),
                }
            },
        },
    }
}

/// Reading one test, from the attributes of its start tag on.
pub open spec fn test_at(s: Stream, attributes: Attributes) -> (
    Result<TestView, ErrorView>,
    Stream,
) {
    match Element::Test.settings_of(attributes) {
        Err(e) => (Err(e), s),
        Ok(settings) => {
            let (property, rest) = property_at(s, settings.kind, "test"@);
            match property {
                Err(e) => (Err(e), rest),
                Ok(value) => (
                    Ok(
                        TestView {
                            qual: settings.qual,
                            target: settings.test_target,
                            compare: settings.compare,
                            value,
                        },
                    ),
                    rest,
                ),
            }
        },
    }
}

/// Reading one edit, from the attributes of its start tag on.
pub open spec fn edit_at(s: Stream, attributes: Attributes) -> (
    Result<EditView, ErrorView>,
    Stream,
) {
    match Element::Edit.settings_of(attributes) {
        Err(e) => (Err(e), s),
        Ok(settings) => {
            let (property, rest) = property_at(s, settings.kind, "edit"@);
            match property {
                Err(e) => (Err(e), rest),
                Ok(value) => (
                    Ok(EditView { mode: settings.mode, binding: settings.binding, value }),
                    rest,
                ),
            }
        },
    }
}

/// Reading the rest of a match rule that holds `so_far` already: tests and
/// edits in document order, up to the end tag of the rule or the end of the
/// document. Other events are passed over.
pub open spec fn match_at(s: Stream, so_far: MatchView) -> (Result<MatchView, ErrorView>, Stream)
    decreases s.len(),
{
    let (item, rest) = next_of(s);
    match item {
        Err(report) => (Err(ErrorView::Xml(report)), rest),
        Ok(XmlEventView::Eof) => (Ok(so_far), rest),
        Ok(XmlEventView::End { name }) if name == bytes_of("match"@) => (Ok(so_far), rest),
        Ok(XmlEventView::Start { name, content }) if name == bytes_of("test"@) => {
            let (test, after) = test_at(rest, attributes_of(name, content));
            match test {
                Err(e) => (Err(e), after),
                Ok(test) => {
                    proof {
                        lemma_test_at_shrinks(rest, attributes_of(name, content));
                    }
                    match_at(after, MatchView { tests: so_far.tests.push(test), ..so_far })
                },
            }
        },
        Ok(XmlEventView::Start { name, content }) if name == bytes_of("edit"@) => {
            let (edit, after) = edit_at(rest, attributes_of(name, content));
            match edit {
                Err(e) => (Err(e), after),
                Ok(edit) => {
                    proof {
                        lemma_edit_at_shrinks(rest, attributes_of(name, content));
                    }
                    match_at(after, MatchView { edits: so_far.edits.push(edit), ..so_far })
                },
            }
        },
        Ok(_) => match_at(rest, so_far),
    }
}

/// The integer that `text` writes, or the error that names the text.
pub open spec fn int_of(text: Seq<char>) -> Result<u32, ErrorView> {
    match int_of_text(text) {
        Some(n) => Ok(n),
        None => Err(ErrorView::ParseIntError(text)),
    }
}

/// Reading the rest of a `config` element that holds `so_far` already: the
/// integer of each `rescan`, up to the end tag of the element. The end of
/// the document before that is an error.
pub open spec fn config_at(s: Stream, so_far: ConfigView) -> (Result<ConfigView, ErrorView>, Stream)
    decreases s.len(),
{
    let (item, rest) = next_of(s);
    match item {
        Err(report) => (Err(ErrorView::Xml(report)), rest),
        Ok(XmlEventView::Eof) => (Err(ErrorView::UnexpectedEof("Expected config"@)), rest),
        Ok(XmlEventView::End { name }) if name == bytes_of("config"@) => (Ok(so_far), rest),
        Ok(XmlEventView::Start { name, .. }) if name == bytes_of("rescan"@) => {
            let (text, after) = string_at(rest, "int"@);
            match text {
                Err(e) => (Err(e), after),
                Ok(text) => match int_of(text) {
                    Err(e) => (Err(e), after),
                    Ok(n) => {
                        proof {
                            lemma_string_at_shrinks(rest, "int"@);
                        }
                        config_at(after, ConfigView { rescans: so_far.rescans.push(n), ..so_far })
                    },
                },
            }
        },
        Ok(_) => config_at(rest, so_far),
    }
}

/// Looking for the root element. Declarations, text and comments are passed
/// over, and so is an element of another name. A document type must be that
/// of font configurations. Anything else, the end of the document too,
/// means that there is no font configuration here.
pub open spec fn root_at(s: Stream) -> (Result<(), ErrorView>, Stream)
    decreases s.len(),
{
    let (item, rest) = next_of(s);
    if s.len() == 0 {
        (Err(ErrorView::NoFontconfig), rest)
    } else {
        match item {
            Err(report) => (Err(ErrorView::Xml(report)), rest),
            Ok(XmlEventView::Decl) | Ok(XmlEventView::Text { .. }) | Ok(
                XmlEventView::Comment,
            ) => root_at(rest),
            Ok(XmlEventView::DocType { raw }) => if raw == bytes_of(doctype_text()) {
                root_at(rest)
            } else {
                (Err(ErrorView::UnmatchedDocType), rest)
            },
            Ok(XmlEventView::Start { name, .. }) => if name == bytes_of("fontconfig"@) {
                (Ok(()), rest)
            } else {
                root_at(rest)
            },
            Ok(_) => (Err(ErrorView::NoFontconfig), rest),
        }
    }
}

/// Reading one element of the body that holds a path: its settings from
/// the attributes, then its text.
pub open spec fn path_at(
    s: Stream,
    element: Element,
    attributes: Attributes,
    tag: Seq<char>,
) -> (Result<(SettingsView, Seq<char>), ErrorView>, Stream) {
    match element.settings_of(attributes) {
        Err(e) => (Err(e), s),
        Ok(settings) => {
            let (text, rest) = text_of(s, bytes_of(tag));
            match text {
                Err(report) => (Err(ErrorView::Xml(report)), rest),
                Ok(path) => (Ok((settings, path)), rest),
            }
        },
    }
}

/// Reading one element of the body named `name` into a document that
/// holds `so_far` already, from the attributes of its start tag on. Each
/// known element adds to the document; a `config` element replaces the
/// settings read before it. An unknown element leaves the document as it is,
/// and what it holds is read as part of the body.
#[verifier::opaque]
pub open spec fn element_at(
    s: Stream,
    name: Seq<u8>,
    attributes: Attributes,
    so_far: DocumentView,
) -> (Result<DocumentView, ErrorView>, Stream) {
    if name == bytes_of("description"@) {
        let (text, after) = text_of(s, name);
        match text {
            Err(report) => (Err(ErrorView::Xml(report)), after),
            Ok(text) => (Ok(DocumentView { description: text, ..so_far }), after),
        }
    } else if name == bytes_of("match"@) {
        match Element::Match.settings_of(attributes) {
            Err(e) => (Err(e), s),
            Ok(settings) => {
                let (rule, after) = match_at(
                    s,
                    MatchView { target: settings.match_target, ..MatchView::empty() },
                );
                match rule {
                    Err(e) => (Err(e), after),
                    Ok(rule) => (
                        Ok(DocumentView { matches: so_far.matches.push(rule), ..so_far }),
                        after,
                    ),
                }
            },
        }
    } else if name == bytes_of("config"@) {
        let (config, after) = config_at(s, ConfigView::empty());
        match config {
            Err(e) => (Err(e), after),
            Ok(config) => (Ok(DocumentView { config, ..so_far }), after),
        }
    } else if name == bytes_of("dir"@) {
        let (found, after) = path_at(s, Element::Dir, attributes, "dir"@);
        match found {
            Err(e) => (Err(e), after),
            Ok((settings, path)) => (
                Ok(
                    DocumentView {
                        dirs: so_far.dirs.push(
                            DirView { prefix: settings.prefix, salt: settings.salt, path },
                        ),
                        ..so_far
                    },
                ),
                after,
            ),
        }
    } else if name == bytes_of("cachedir"@) {
        let (found, after) = path_at(s, Element::CacheDir, attributes, "cachedir"@);
        match found {
            Err(e) => (Err(e), after),
            Ok((settings, path)) => (
                Ok(
                    DocumentView {
                        cache_dirs: so_far.cache_dirs.push(
                            CacheDirView { prefix: settings.prefix, path },
                        ),
                        ..so_far
                    },
                ),
                after,
            ),
        }
    } else if name == bytes_of("include"@) {
        let (found, after) = path_at(s, Element::Include, attributes, "include"@);
        match found {
            Err(e) => (Err(e), after),
            Ok((settings, path)) => (
                Ok(
                    DocumentView {
                        includes: so_far.includes.push(
                            IncludeView {
                                prefix: settings.prefix,
                                ignore_missing: settings.ignore_missing,
                                path,
                            },
                        ),
                        ..so_far
                    },
                ),
                after,
            ),
        }
    } else {
        (Ok(so_far), s)
    }
}

/// Reading the body of a document that holds `so_far` already, up to the
/// end of the events: the elements in document order. Events that start no
/// element are passed over.
pub open spec fn body_at(s: Stream, so_far: DocumentView) -> (
    Result<DocumentView, ErrorView>,
    Stream,
)
    decreases s.len(),
{
    let (item, rest) = next_of(s);
    match item {
        Err(report) => (Err(ErrorView::Xml(report)), rest),
        Ok(XmlEventView::Eof) => (Ok(so_far), rest),
        Ok(XmlEventView::Start { name, content }) => {
            let (document, after) = element_at(rest, name, attributes_of(name, content), so_far);
            match document {
                Err(e) => (Err(e), after),
                Ok(document) => {
                    proof {
                        lemma_element_at_shrinks(rest, name, attributes_of(name, content), so_far);
                    }
                    body_at(after, document)
                },
            }
        },
        Ok(_) => body_at(rest, so_far),
    }
}

/// Reading a whole document: the root element is looked for, then the body
/// is read into an empty document.
pub open spec fn document_at(s: Stream) -> (Result<DocumentView, ErrorView>, Stream) {
    let (root, rest) = root_at(s);
    match root {
        Err(e) => (Err(e), rest),
        Ok(_) => body_at(rest, DocumentView::empty()),
    }
}

/// Whether the event is one that may stand before the document type:
/// a declaration, text or a comment.
pub open spec fn is_prologue(item: Result<XmlEventView, Seq<char>>) -> bool {
    item matches Ok(event) && (event is Decl || event is Comment || event is Text)
}

/// A document that declares another type than that of font configurations
/// is refused, and no document comes of it: not even a part of one.
pub proof fn lemma_other_doctype_is_refused(s: Stream, at: int, raw: Seq<u8>)
    requires
        0 <= at < s.len(),
        forall|i: int| 0 <= i < at ==> is_prologue(#[trigger] s[i]),
        s[at] == Ok::<XmlEventView, Seq<char>>(XmlEventView::DocType { raw }),
        raw != bytes_of(doctype_text()),
    ensures
        document_at(s).0 == Err::<DocumentView, ErrorView>(ErrorView::UnmatchedDocType),
    decreases at,
{
    if at > 0 {
        assert(is_prologue(s[0]));
        let rest = s.skip(1);
        assert forall|i: int| 0 <= i < at - 1 implies is_prologue(#[trigger] rest[i]) by {
            assert(rest[i] == s[i + 1]);
        }
        lemma_other_doctype_is_refused(rest, at - 1, raw);
    }
}

/// Reading a named element's text leaves no more events than there were.
pub proof fn lemma_string_at_shrinks(s: Stream, tag: Seq<char>)
    ensures
        string_at(s, tag).1.len() <= s.len(),
    decreases s.len(),
{
    let (item, rest) = next_of(s);
    match item {
        Ok(XmlEventView::Start { name, .. }) => {
            lemma_text_of_shrinks(rest, bytes_of(tag));
        },
        Ok(XmlEventView::Eof) => {},
        Ok(_) => {
            lemma_string_at_shrinks(rest, tag);
        },
        Err(_) => {},
    }
}

/// Reading a matrix leaves no more events than there were.
pub proof fn lemma_matrix_at_shrinks(s: Stream)
    ensures
        cell_at(s).1.len() <= s.len(),
        matrix_at(s).1.len() <= s.len(),
{
    lemma_string_at_shrinks(s, "double"@);
    let s1 = cell_at(s).1;
    lemma_string_at_shrinks(s1, "double"@);
    let s2 = cell_at(s1).1;
    lemma_string_at_shrinks(s2, "double"@);
    let s3 = cell_at(s2).1;
    lemma_string_at_shrinks(s3, "double"@);
}

/// Reading a value leaves no more events than there were.
pub proof fn lemma_value_at_shrinks(s: Stream)
    ensures
        value_at(s).1.len() <= s.len(),
    decreases s.len(),
{
    let (item, rest) = next_of(s);
    match item {
        Ok(XmlEventView::Start { name, .. }) => {
            lemma_text_of_shrinks(rest, name);
            lemma_matrix_at_shrinks(rest);
        },
        Ok(XmlEventView::Eof) => {},
        Ok(_) => {
            lemma_value_at_shrinks(rest);
        },
        Err(_) => {},
    }
}

/// Reading a test or an edit leaves no more events than there were.
pub proof fn lemma_property_at_shrinks(s: Stream, kind: PropertyKind, tag: Seq<char>)
    ensures
        property_at(s, kind, tag).1.len() <= s.len(),
{
    lemma_value_at_shrinks(s);
    lemma_end_of_shrinks(value_at(s).1, bytes_of(tag), 0);
}

/// Reading a test leaves no more events than there were.
pub proof fn lemma_test_at_shrinks(s: Stream, attributes: Attributes)
    ensures
        test_at(s, attributes).1.len() <= s.len(),
{
    if let Ok(settings) = Element::Test.settings_of(attributes) {
        lemma_property_at_shrinks(s, settings.kind, "test"@);
    }
}

/// Reading an edit leaves no more events than there were.
pub proof fn lemma_edit_at_shrinks(s: Stream, attributes: Attributes)
    ensures
        edit_at(s, attributes).1.len() <= s.len(),
{
    if let Ok(settings) = Element::Edit.settings_of(attributes) {
        lemma_property_at_shrinks(s, settings.kind, "edit"@);
    }
}

/// Reading a match rule leaves no more events than there were.
pub proof fn lemma_match_at_shrinks(s: Stream, so_far: MatchView)
    ensures
        match_at(s, so_far).1.len() <= s.len(),
    decreases s.len(),
{
    let (item, rest) = next_of(s);
    match item {
        Err(_) => {},
        Ok(XmlEventView::Eof) => {},
        Ok(XmlEventView::End { name }) if name == bytes_of("match"@) => {},
        Ok(XmlEventView::Start { name, content }) if name == bytes_of("test"@) => {
            let attributes = attributes_of(name, content);
            lemma_test_at_shrinks(rest, attributes);
            let (test, after) = test_at(rest, attributes);
            if let Ok(test) = test {
                lemma_match_at_shrinks(
                    after,
                    MatchView { tests: so_far.tests.push(test), ..so_far },
                );
            }
        },
        Ok(XmlEventView::Start { name, content }) if name == bytes_of("edit"@) => {
            let attributes = attributes_of(name, content);
            lemma_edit_at_shrinks(rest, attributes);
            let (edit, after) = edit_at(rest, attributes);
            if let Ok(edit) = edit {
                lemma_match_at_shrinks(
                    after,
                    MatchView { edits: so_far.edits.push(edit), ..so_far },
                );
            }
        },
        Ok(_) => {
            lemma_match_at_shrinks(rest, so_far);
        },
    }
}

/// Reading a `config` element leaves no more events than there were.
pub proof fn lemma_config_at_shrinks(s: Stream, so_far: ConfigView)
    ensures
        config_at(s, so_far).1.len() <= s.len(),
    decreases s.len(),
{
    let (item, rest) = next_of(s);
    match item {
        Err(_) => {},
        Ok(XmlEventView::Eof) => {},
        Ok(XmlEventView::End { name }) if name == bytes_of("config"@) => {},
        Ok(XmlEventView::Start { name, .. }) if name == bytes_of("rescan"@) => {
            lemma_string_at_shrinks(rest, "int"@);
            let (text, after) = string_at(rest, "int"@);
            if let Ok(text) = text {
                if let Ok(n) = int_of(text) {
                    lemma_config_at_shrinks(
                        after,
                        ConfigView { rescans: so_far.rescans.push(n), ..so_far },
                    );
                }
            }
        },
        Ok(_) => {
            lemma_config_at_shrinks(rest, so_far);
        },
    }
}

/// Reading an element of the body leaves no more events than there were.
pub proof fn lemma_element_at_shrinks(
    s: Stream,
    name: Seq<u8>,
    attributes: Attributes,
    so_far: DocumentView,
)
    ensures
        element_at(s, name, attributes, so_far).1.len() <= s.len(),
{
    reveal(element_at);
    lemma_text_of_shrinks(s, name);
    lemma_text_of_shrinks(s, bytes_of("dir"@));
    lemma_text_of_shrinks(s, bytes_of("cachedir"@));
    lemma_text_of_shrinks(s, bytes_of("include"@));
    lemma_config_at_shrinks(s, ConfigView::empty());
    if let Ok(settings) = Element::Match.settings_of(attributes) {
        lemma_match_at_shrinks(
            s,
            MatchView { target: settings.match_target, ..MatchView::empty() },
        );
    }
}

/// What a test or an edit of the kind `kind` comes to once its value has
/// been read: the property of that kind with the value as it was read, where
/// the kind takes the value and the end tag follows; or one of the two
/// conversion errors with the kind and the value, where the kind does not
/// take it. A number is never turned into a number of the other type.
pub proof fn lemma_property_is_typed(s: Stream, kind: PropertyKind, tag: Seq<char>)
    requires
        value_at(s).0 is Ok,
    ensures
        ({
            let value = value_at(s).0->Ok_0;
            let read = property_at(s, kind, tag).0;
            let ended = end_of(value_at(s).1, bytes_of(tag), 0).0;
            &&& kind.accepts(value) && ended is Ok ==> read == Ok::<PropertyView, ErrorView>(
                PropertyView { kind, value },
            )
            &&& kind.accepts(value) && ended is Err ==> read == Err::<PropertyView, ErrorView>(
                ErrorView::Xml(ended->Err_0),
            )
            &&& !kind.accepts(value) ==> read == Err::<PropertyView, ErrorView>(
                ErrorView::PropertyConvertError(kind, value),
            ) || (exists|c: Constant|
                value == ExpressionView::Simple(ValueView::Constant(c)) && read == Err::<
                    PropertyView,
                    ErrorView,
                >(ErrorView::ConstantPropertyError(kind, c)))
            &&& (kind.value_type() == crate::property::ValueType::Double && value
                matches ExpressionView::Simple(ValueView::Int(_))) || (kind.value_type()
                == crate::property::ValueType::Int && value matches ExpressionView::Simple(
                ValueView::Double(_),
            )) ==> read == Err::<PropertyView, ErrorView>(
                ErrorView::PropertyConvertError(kind, value),
            )
        }),
{
    let value = value_at(s).0->Ok_0;
    crate::property::lemma_property_or_conversion_error(kind, value);
}

/// A match rule that holds one more test, and then ends, comes to the rule
/// with that test added, where the property of the test takes its value; and
/// to one of the two conversion errors, with the kind that the test names
/// and the value as it was read, where it does not. Nothing else comes of
/// it.
pub proof fn lemma_one_test_is_read(s: Stream, so_far: MatchView)
    requires
        s.len() > 0,
        s[0] matches Ok(XmlEventView::Start { name, content }) && name == bytes_of("test"@)
            && Element::Test.settings_of(attributes_of(name, content)) is Ok,
        value_at(s.skip(1)).0 is Ok,
        end_of(value_at(s.skip(1)).1, bytes_of("test"@), 0).0 is Ok,
        next_of(end_of(value_at(s.skip(1)).1, bytes_of("test"@), 0).1).0 == Ok::<XmlEventView, Seq<char>>(
            XmlEventView::End { name: bytes_of("match"@) },
        ),
    ensures
        ({
            let settings = Element::Test.settings_of(
                attributes_of(s[0]->Ok_0->Start_name, s[0]->Ok_0->Start_content),
            )->Ok_0;
            let kind = settings.kind;
            let value = value_at(s.skip(1)).0->Ok_0;
            let read = match_at(s, so_far).0;
            &&& kind.accepts(value) ==> read == Ok::<MatchView, ErrorView>(
                MatchView {
                    tests: so_far.tests.push(
                        TestView {
                            qual: settings.qual,
                            target: settings.test_target,
                            compare: settings.compare,
                            value: PropertyView { kind, value },
                        },
                    ),
                    ..so_far
                },
            )
            &&& !kind.accepts(value) ==> read == Err::<MatchView, ErrorView>(
                ErrorView::PropertyConvertError(kind, value),
            ) || (exists|c: Constant|
                value == ExpressionView::Simple(ValueView::Constant(c)) && read == Err::<
                    MatchView,
                    ErrorView,
                >(ErrorView::ConstantPropertyError(kind, c)))
        }),
{
    let name = s[0]->Ok_0->Start_name;
    let content = s[0]->Ok_0->Start_content;
    let attributes = attributes_of(name, content);
    let settings = Element::Test.settings_of(attributes)->Ok_0;
    let rest = s.skip(1);
    lemma_property_is_typed(rest, settings.kind, "test"@);
    let value = value_at(rest).0->Ok_0;
    let after = end_of(value_at(rest).1, bytes_of("test"@), 0).1;
    if settings.kind.accepts(value) {
        let test = TestView {
            qual: settings.qual,
            target: settings.test_target,
            compare: settings.compare,
            value: PropertyView { kind: settings.kind, value },
        };
        let next = MatchView { tests: so_far.tests.push(test), ..so_far };
        assert(test_at(rest, attributes) == (Ok::<TestView, ErrorView>(test), after));
        assert(match_at(after, next).0 == Ok::<MatchView, ErrorView>(next));
        assert(match_at(s, so_far) == match_at(after, next));
    } else {
        assert(test_at(rest, attributes).0 is Err);
        assert(match_at(s, so_far).0 == Err::<MatchView, ErrorView>(
            test_at(rest, attributes).0->Err_0,
        ));
    }
}

/// A match rule that holds one more edit, and then ends, comes to the rule
/// with that edit added, where the property of the edit takes its value; and
/// to one of the two conversion errors, with the kind that the edit names
/// and the value as it was read, where it does not.
pub proof fn lemma_one_edit_is_read(s: Stream, so_far: MatchView)
    requires
        s.len() > 0,
        s[0] matches Ok(XmlEventView::Start { name, content }) && name == bytes_of("edit"@)
            && Element::Edit.settings_of(attributes_of(name, content)) is Ok,
        value_at(s.skip(1)).0 is Ok,
        end_of(value_at(s.skip(1)).1, bytes_of("edit"@), 0).0 is Ok,
        next_of(end_of(value_at(s.skip(1)).1, bytes_of("edit"@), 0).1).0 == Ok::<XmlEventView, Seq<char>>(
            XmlEventView::End { name: bytes_of("match"@) },
        ),
    ensures
        ({
            let settings = Element::Edit.settings_of(
                attributes_of(s[0]->Ok_0->Start_name, s[0]->Ok_0->Start_content),
            )->Ok_0;
            let kind = settings.kind;
            let value = value_at(s.skip(1)).0->Ok_0;
            let read = match_at(s, so_far).0;
            &&& kind.accepts(value) ==> read == Ok::<MatchView, ErrorView>(
                MatchView {
                    edits: so_far.edits.push(
                        EditView {
                            mode: settings.mode,
                            binding: settings.binding,
                            value: PropertyView { kind, value },
                        },
                    ),
                    ..so_far
                },
            )
            &&& !kind.accepts(value) ==> read == Err::<MatchView, ErrorView>(
                ErrorView::PropertyConvertError(kind, value),
            ) || (exists|c: Constant|
                value == ExpressionView::Simple(ValueView::Constant(c)) && read == Err::<
                    MatchView,
                    ErrorView,
                >(ErrorView::ConstantPropertyError(kind, c)))
        }),
{
    let name = s[0]->Ok_0->Start_name;
    let content = s[0]->Ok_0->Start_content;
    let attributes = attributes_of(name, content);
    let settings = Element::Edit.settings_of(attributes)->Ok_0;
    let rest = s.skip(1);
    lemma_property_is_typed(rest, settings.kind, "edit"@);
    lemma_tags_differ();
    let value = value_at(rest).0->Ok_0;
    let after = end_of(value_at(rest).1, bytes_of("edit"@), 0).1;
    if settings.kind.accepts(value) {
        let edit = EditView {
            mode: settings.mode,
            binding: settings.binding,
            value: PropertyView { kind: settings.kind, value },
        };
        let next = MatchView { edits: so_far.edits.push(edit), ..so_far };
        assert(edit_at(rest, attributes) == (Ok::<EditView, ErrorView>(edit), after));
        assert(match_at(after, next).0 == Ok::<MatchView, ErrorView>(next));
        assert(match_at(s, so_far) == match_at(after, next));
    } else {
        assert(edit_at(rest, attributes).0 is Err);
        assert(match_at(s, so_far).0 == Err::<MatchView, ErrorView>(
            edit_at(rest, attributes).0->Err_0,
        ));
    }
}

/// The names of a test and of an edit differ.
proof fn lemma_tags_differ()
    ensures
        bytes_of("test"@) != bytes_of("edit"@),
{
    reveal_strlit("test");
    reveal_strlit("edit");
    assert("test"@[0] != "edit"@[0]);
    if bytes_of("test"@) == bytes_of("edit"@) {
        crate::text::lemma_bytes_of_injective("test"@, "edit"@);
    }
}

} // verus!
