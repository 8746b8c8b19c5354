//! Writing literals as text, and reading them back.

use vstd::prelude::*;
use crate::attributes::SettingsView;
use crate::error::ErrorView;
use crate::expressions::value_in;
use crate::events::{decoded, end_of, next_of, Stream, XmlEventView};
use crate::reader::{is_leaf, leaf_of, value_at};
use crate::text::{
    bool_text, bytes_of, int_text, is_double_text, lemma_bool_round_trip, lemma_bytes_of_injective,
    lemma_int_round_trip, text_of_bool, text_of_int,
};
use crate::value::{Double, ExpressionView, Value, ValueView};

verus! {

/// Whether the value is a literal: text, a number or a boolean.
pub open spec fn is_literal(v: ValueView) -> bool {
    v is String || v is Double || v is Int || v is Bool
}

/// Whether a literal is valid: a floating-point literal holds the text of
/// one.
pub open spec fn is_valid_literal(v: ValueView) -> bool {
    is_literal(v) && (v matches ValueView::Double(text) ==> is_double_text(text))
}

/// The name of the element that writes a literal.
pub open spec fn element_of(v: ValueView) -> Seq<char> {
    match v {
        ValueView::String(_) => "string"@,
        ValueView::Double(_) => "double"@,
        ValueView::Int(_) => "int"@,
        _ => "bool"@,
    }
}

/// The text that writes a literal.
pub open spec fn text_of(v: ValueView) -> Seq<char> {
    match v {
        ValueView::String(text) => text,
        ValueView::Double(text) => text,
        ValueView::Int(n) => text_of_int(n as nat),
        ValueView::Bool(b) => text_of_bool(b),
        _ => Seq::empty(),
    }
}

/// The names of the four elements that write literals differ.
proof fn lemma_element_names_differ()
    ensures
        "string"@ != "double"@,
        "string"@ != "int"@,
        "string"@ != "bool"@,
        "double"@ != "int"@,
        "double"@ != "bool"@,
        "int"@ != "bool"@,
{
    reveal_strlit("string");
    reveal_strlit("double");
    reveal_strlit("int");
    reveal_strlit("bool");
    assert("string"@[0] != "double"@[0]);
    assert("string"@.len() != "int"@.len());
    assert("string"@.len() != "bool"@.len());
    assert("double"@.len() != "int"@.len());
    assert("double"@.len() != "bool"@.len());
    assert("int"@.len() != "bool"@.len());
}

/// A valid literal that is written as text and read back, by either reader
/// of documents, is the literal that was written.
pub proof fn lemma_literal_round_trip(v: ValueView, settings: SettingsView)
    requires
        is_valid_literal(v),
    ensures
        value_in(element_of(v), text_of(v), settings) == Ok::<ValueView, ErrorView>(v),
        leaf_of(bytes_of(element_of(v)), text_of(v)) == Ok::<ValueView, ErrorView>(v),
{
    lemma_element_names_differ();
    assert(bytes_of("string"@) != bytes_of("double"@)) by {
        if bytes_of("string"@) == bytes_of("double"@) {
            lemma_bytes_of_injective("string"@, "double"@);
        }
    }
    assert(bytes_of("string"@) != bytes_of("int"@)) by {
        if bytes_of("string"@) == bytes_of("int"@) {
            lemma_bytes_of_injective("string"@, "int"@);
        }
    }
    assert(bytes_of("string"@) != bytes_of("bool"@)) by {
        if bytes_of("string"@) == bytes_of("bool"@) {
            lemma_bytes_of_injective("string"@, "bool"@);
        }
    }
    assert(bytes_of("double"@) != bytes_of("int"@)) by {
        if bytes_of("double"@) == bytes_of("int"@) {
            lemma_bytes_of_injective("double"@, "int"@);
        }
    }
    assert(bytes_of("double"@) != bytes_of("bool"@)) by {
        if bytes_of("double"@) == bytes_of("bool"@) {
            lemma_bytes_of_injective("double"@, "bool"@);
        }
    }
    assert(bytes_of("int"@) != bytes_of("bool"@)) by {
        if bytes_of("int"@) == bytes_of("bool"@) {
            lemma_bytes_of_injective("int"@, "bool"@);
        }
    }
    match v {
        ValueView::Int(n) => {
            lemma_int_round_trip(n);
        },
        ValueView::Bool(b) => {
            lemma_bool_round_trip(b);
        },
        _ => {},
    }
}

/// A valid literal that is written as an element and read back from the
/// events of that element is the literal that was written: the start tag
/// of the element of its type, its text, and the end tag.
pub proof fn lemma_literal_is_read_back(s: Stream, v: ValueView, content: Seq<u8>, raw: Seq<u8>)
    requires
        is_valid_literal(v),
        s.len() >= 3,
        s[0] == Ok::<XmlEventView, Seq<char>>(
            XmlEventView::Start { name: bytes_of(element_of(v)), content },
        ),
        s[1] == Ok::<XmlEventView, Seq<char>>(XmlEventView::Text { raw }),
        s[2] == Ok::<XmlEventView, Seq<char>>(
            XmlEventView::End { name: bytes_of(element_of(v)) },
        ),
        decoded(raw) == Ok::<Seq<char>, Seq<char>>(text_of(v)),
    ensures
        value_at(s) == (Ok::<ExpressionView, ErrorView>(ExpressionView::Simple(v)), s.skip(3)),
{
    let name = bytes_of(element_of(v));
    let rest = s.skip(1);
    lemma_literal_round_trip(v, SettingsView::initial());
    assert(is_leaf(name));
    assert(next_of(rest) == (s[1], rest.skip(1)));
    assert(next_of(rest.skip(1)) == (s[2], rest.skip(1).skip(1)));
    assert(rest.skip(1).skip(1) =~= s.skip(3));
    assert(end_of(rest.skip(1), name, 0) == (Ok::<(), Seq<char>>(()), s.skip(3)));
    assert(crate::events::text_of(rest, name) == (
        Ok::<Seq<char>, Seq<char>>(text_of(v)),
        s.skip(3),
    ));
}

impl Value {
    /// The text that writes the value, for a literal: text as it is, a
    /// floating-point number as the literal that it holds, an integer in
    /// decimal, a boolean as `true` or `false`.
    pub fn literal_text(&self) -> (r: Option<String>)
        ensures
            (r is Some) == is_literal(self.deep_view()),
            r matches Some(text) ==> text@ == text_of(self.deep_view()) && is_valid_literal(
                self.deep_view(),
            ),
    {
        match self {
            Value::String(text) => Some(text.clone()),
            Value::Double(literal) => {
                let text = literal.as_str();
                Some(String::from_str(text))
            },
            Value::Int(n) => Some(int_text(*n)),
            Value::Bool(b) => Some(String::from_str(bool_text(*b))),
            _ => None,
        }
    }
}

} // verus!
