//! The errors of the library.

use vstd::prelude::*;
use crate::property::PropertyKind;
use crate::value::{Constant, Expression, ExpressionView};

verus! {

/// Why a document could not be loaded.
#[derive(Debug)]
pub enum Error {
    /// The event reader found the markup malformed; the text is its report.
    Xml(String),
    /// The tree builder found the markup malformed; the text is its report.
    Tree(String),
    /// The file system refused a request; the text says how.
    Io(String),
    /// A file asks for a file that is being loaded already, itself or one
    /// that led to it; the text is the path.
    IncludeCycle(String),
    /// Files ask for files that ask for files, more deeply than the library
    /// follows; the text is the path that was not followed.
    IncludeTooDeep(String),
    /// The document ended where something was still expected; the text says
    /// what.
    UnexpectedEof(String),
    /// The document declares a type other than that of font configurations.
    UnmatchedDocType,
    /// The document has no `fontconfig` element at its root.
    NoFontconfig,
    /// An element stands where it cannot, or lacks what it needs.
    InvalidFormat,
    /// The text names no variant of what was expected.
    ParseError(String),
    /// The text is no integer.
    ParseIntError(String),
    /// The text is no floating-point number.
    ParseFloatError(String),
    /// The text is no boolean.
    ParseBoolError(String),
    /// The property does not take the value.
    PropertyConvertError(PropertyKind, Expression),
    /// The property takes constants, but not this one.
    ConstantPropertyError(PropertyKind, Constant),
}

/// What an [`Error`] says.
pub enum ErrorView {
    Xml(Seq<char>),
    Tree(Seq<char>),
    Io(Seq<char>),
    IncludeCycle(Seq<char>),
    IncludeTooDeep(Seq<char>),
    UnexpectedEof(Seq<char>),
    UnmatchedDocType,
    NoFontconfig,
    InvalidFormat,
    ParseError(Seq<char>),
    ParseIntError(Seq<char>),
    ParseFloatError(Seq<char>),
    ParseBoolError(Seq<char>),
    PropertyConvertError(PropertyKind, ExpressionView),
    ConstantPropertyError(PropertyKind, Constant),
}

impl DeepView for Error {
    type V = ErrorView;

    open spec fn deep_view(&self) -> ErrorView {
        match self {
            Error::Xml(report) => ErrorView::Xml(report@),
            Error::Tree(report) => ErrorView::Tree(report@),
            Error::Io(s) => ErrorView::Io(s@),
            Error::IncludeCycle(s) => ErrorView::IncludeCycle(s@),
            Error::IncludeTooDeep(s) => ErrorView::IncludeTooDeep(s@),
            Error::UnexpectedEof(s) => ErrorView::UnexpectedEof(s@),
            Error::UnmatchedDocType => ErrorView::UnmatchedDocType,
            Error::NoFontconfig => ErrorView::NoFontconfig,
            Error::InvalidFormat => ErrorView::InvalidFormat,
            Error::ParseError(s) => ErrorView::ParseError(s@),
            Error::ParseIntError(s) => ErrorView::ParseIntError(s@),
            Error::ParseFloatError(s) => ErrorView::ParseFloatError(s@),
            Error::ParseBoolError(s) => ErrorView::ParseBoolError(s@),
            Error::PropertyConvertError(kind, value) => ErrorView::PropertyConvertError(
                *kind,
                value.deep_view(),
            ),
            Error::ConstantPropertyError(kind, constant) => ErrorView::ConstantPropertyError(
                *kind,
                *constant,
            ),
        }
    }
}

/// The variant that was found, or the error that names the text which stands
/// for none.
pub open spec fn variant_or_unknown<T>(found: Option<T>, text: Seq<char>) -> Result<T, ErrorView> {
    match found {
        Some(v) => Ok(v),
        None => Err(ErrorView::ParseError(text)),
    }
}

/// The error for text that names no variant.
pub fn unknown_variant(text: &str) -> (e: Error)
    ensures
        e.deep_view() == ErrorView::ParseError(text@),
{
    Error::ParseError(String::from_str(text))
}

} // verus!
