//! Leaf values and the expression trees built from them.

use vstd::prelude::*;
use vstd::std_specs::convert::FromSpecImpl;
use crate::error::{unknown_variant, variant_or_unknown, Error, ErrorView};
use crate::views::outcome;
use crate::property::PropertyKind;
use crate::text::{is_double_literal, is_double_text, text_eq};

verus! {

/// Which pattern a property reference reads: the pattern being matched, the
/// candidate font, or whichever the enclosing rule works on.
#[derive(Clone, Copy, Debug, PartialEq, Eq, Structural)]
pub enum PropertyTarget {
    Default,
    Font,
    Pattern,
}

impl DeepView for PropertyTarget {
    type V = PropertyTarget;

    open spec fn deep_view(&self) -> PropertyTarget {
        *self
    }
}

impl PropertyTarget {
    /// The target of a property reference that `text` names, if it names one.
    pub open spec fn of_text(text: Seq<char>) -> Option<PropertyTarget> {
        if text == "default"@ {
            Some(PropertyTarget::Default)
        } else if text == "font"@ {
            Some(PropertyTarget::Font)
        } else if text == "pattern"@ {
            Some(PropertyTarget::Pattern)
        } else {
            None
        }
    }

    /// Reads a target of a property reference from the text of an attribute or an element.
    pub fn from_text(text: &str) -> (r: Result<PropertyTarget, Error>)
        ensures
            outcome(r) == variant_or_unknown(Self::of_text(text@), text@),
    {
        if text_eq(text, "default") {
            Ok(PropertyTarget::Default)
        } else if text_eq(text, "font") {
            Ok(PropertyTarget::Font)
        } else if text_eq(text, "pattern") {
            Ok(PropertyTarget::Pattern)
        } else {
            Err(unknown_variant(text))
        }
    }
}

/// Operators that combine any number of operands.
#[derive(Clone, Copy, Debug, PartialEq, Eq, Structural)]
pub enum ListOp {
    Times,
    Divide,
    Or,
    And,
    Plus,
    Minus,
}

impl DeepView for ListOp {
    type V = ListOp;

    open spec fn deep_view(&self) -> ListOp {
        *self
    }
}

impl ListOp {
    /// The list operator that `text` names, if it names one.
    pub open spec fn of_text(text: Seq<char>) -> Option<ListOp> {
        if text == "times"@ {
            Some(ListOp::Times)
        } else if text == "divide"@ {
            Some(ListOp::Divide)
        } else if text == "or"@ {
            Some(ListOp::Or)
        } else if text == "and"@ {
            Some(ListOp::And)
        } else if text == "plus"@ {
            Some(ListOp::Plus)
        } else if text == "minus"@ {
            Some(ListOp::Minus)
        } else {
            None
        }
    }

    /// Reads a list operator from the text of an attribute or an element.
    pub fn from_text(text: &str) -> (r: Result<ListOp, Error>)
        ensures
            outcome(r) == variant_or_unknown(Self::of_text(text@), text@),
    {
        if text_eq(text, "times") {
            Ok(ListOp::Times)
        } else if text_eq(text, "divide") {
            Ok(ListOp::Divide)
        } else if text_eq(text, "or") {
            Ok(ListOp::Or)
        } else if text_eq(text, "and") {
            Ok(ListOp::And)
        } else if text_eq(text, "plus") {
            Ok(ListOp::Plus)
        } else if text_eq(text, "minus") {
            Ok(ListOp::Minus)
        } else {
            Err(unknown_variant(text))
        }
    }
}

/// Operators on one operand.
#[derive(Clone, Copy, Debug, PartialEq, Eq, Structural)]
pub enum UnaryOp {
    Not,
    Ceil,
    Floor,
    Round,
    Trunc,
}

impl DeepView for UnaryOp {
    type V = UnaryOp;

    open spec fn deep_view(&self) -> UnaryOp {
        *self
    }
}

impl UnaryOp {
    /// The unary operator that `text` names, if it names one.
    pub open spec fn of_text(text: Seq<char>) -> Option<UnaryOp> {
        if text == "not"@ {
            Some(UnaryOp::Not)
        } else if text == "ceil"@ {
            Some(UnaryOp::Ceil)
        } else if text == "floor"@ {
            Some(UnaryOp::Floor)
        } else if text == "round"@ {
            Some(UnaryOp::Round)
        } else if text == "trunc"@ {
            Some(UnaryOp::Trunc)
        } else {
            None
        }
    }

    /// Reads a unary operator from the text of an attribute or an element.
    pub fn from_text(text: &str) -> (r: Result<UnaryOp, Error>)
        ensures
            outcome(r) == variant_or_unknown(Self::of_text(text@), text@),
    {
        if text_eq(text, "not") {
            Ok(UnaryOp::Not)
        } else if text_eq(text, "ceil") {
            Ok(UnaryOp::Ceil)
        } else if text_eq(text, "floor") {
            Ok(UnaryOp::Floor)
        } else if text_eq(text, "round") {
            Ok(UnaryOp::Round)
        } else if text_eq(text, "trunc") {
            Ok(UnaryOp::Trunc)
        } else {
            Err(unknown_variant(text))
        }
    }
}

/// Operators that compare two operands.
#[derive(Clone, Copy, Debug, PartialEq, Eq, Structural)]
pub enum BinaryOp {
    Eq,
    NotEq,
    Less,
    LessEq,
    More,
    MoreEq,
    Contains,
    NotContains,
}

impl DeepView for BinaryOp {
    type V = BinaryOp;

    open spec fn deep_view(&self) -> BinaryOp {
        *self
    }
}

impl BinaryOp {
    /// The binary operator that `text` names, if it names one.
    pub open spec fn of_text(text: Seq<char>) -> Option<BinaryOp> {
        if text == "eq"@ {
            Some(BinaryOp::Eq)
        } else if text == "not_eq"@ {
            Some(BinaryOp::NotEq)
        } else if text == "less"@ {
            Some(BinaryOp::Less)
        } else if text == "less_eq"@ {
            Some(BinaryOp::LessEq)
        } else if text == "more"@ {
            Some(BinaryOp::More)
        } else if text == "more_eq"@ {
            Some(BinaryOp::MoreEq)
        } else if text == "contains"@ {
            Some(BinaryOp::Contains)
        } else if text == "not_contains"@ {
            Some(BinaryOp::NotContains)
        } else {
            None
        }
    }

    /// Reads a binary operator from the text of an attribute or an element.
    pub fn from_text(text: &str) -> (r: Result<BinaryOp, Error>)
        ensures
            outcome(r) == variant_or_unknown(Self::of_text(text@), text@),
    {
        if text_eq(text, "eq") {
            Ok(BinaryOp::Eq)
        } else if text_eq(text, "not_eq") {
            Ok(BinaryOp::NotEq)
        } else if text_eq(text, "less") {
            Ok(BinaryOp::Less)
        } else if text_eq(text, "less_eq") {
            Ok(BinaryOp::LessEq)
        } else if text_eq(text, "more") {
            Ok(BinaryOp::More)
        } else if text_eq(text, "more_eq") {
            Ok(BinaryOp::MoreEq)
        } else if text_eq(text, "contains") {
            Ok(BinaryOp::Contains)
        } else if text_eq(text, "not_contains") {
            Ok(BinaryOp::NotContains)
        } else {
            Err(unknown_variant(text))
        }
    }
}

/// Operators on three operands.
#[derive(Clone, Copy, Debug, PartialEq, Eq, Structural)]
pub enum TernaryOp {
    If,
}

impl DeepView for TernaryOp {
    type V = TernaryOp;

    open spec fn deep_view(&self) -> TernaryOp {
        *self
    }
}

impl TernaryOp {
    /// The ternary operator that `text` names, if it names one.
    pub open spec fn of_text(text: Seq<char>) -> Option<TernaryOp> {
        if text == "if"@ {
            Some(TernaryOp::If)
        } else {
            None
        }
    }

    /// Reads a ternary operator from the text of an attribute or an element.
    pub fn from_text(text: &str) -> (r: Result<TernaryOp, Error>)
        ensures
            outcome(r) == variant_or_unknown(Self::of_text(text@), text@),
    {
        if text_eq(text, "if") {
            Ok(TernaryOp::If)
        } else {
            Err(unknown_variant(text))
        }
    }
}

/// The families of named constants. A property that takes a constant takes
/// those of one family.
#[derive(Clone, Copy, Debug, PartialEq, Eq, Structural)]
pub enum ConstantFamily {
    Weight,
    Slant,
    Width,
    Spacing,
    Rgba,
    HintStyle,
    LcdFilter,
}

/// A named symbolic constant, such as a weight or a slant.
#[derive(Clone, Copy, Debug, PartialEq, Eq, Structural)]
pub enum Constant {
    Thin,
    Extralight,
    Ultralight,
    Light,
    Demilight,
    Semilight,
    Book,
    Regular,
    Normal,
    Medium,
    Demibold,
    Semibold,
    Bold,
    Extrabold,
    Ultrabold,
    Black,
    Heavy,
    Roman,
    Italic,
    Oblique,
    Ultracondensed,
    Extracondensed,
    Condensed,
    Semicondensed,
    Semiexpanded,
    Expanded,
    Extraexpanded,
    Ultraexpanded,
    Proportional,
    Dual,
    Mono,
    Charcell,
    Unknown,
    Rgb,
    Bgr,
    Vrgb,
    Vbgr,
    NoRgba,
    Hintnone,
    Hintslight,
    Hintmedium,
    Hintfull,
    Lcdnone,
    Lcddefault,
    Lcdlight,
    Lcdlegacy,
}

impl DeepView for Constant {
    type V = Constant;

    open spec fn deep_view(&self) -> Constant {
        *self
    }
}

impl Constant {
    /// The constant that `text` names, if it names one.
    pub open spec fn of_text(text: Seq<char>) -> Option<Constant> {
        if text == "thin"@ {
            Some(Constant::Thin)
        } else if text == "extralight"@ {
            Some(Constant::Extralight)
        } else if text == "ultralight"@ {
            Some(Constant::Ultralight)
        } else if text == "light"@ {
            Some(Constant::Light)
        } else if text == "demilight"@ {
            Some(Constant::Demilight)
        } else if text == "semilight"@ {
            Some(Constant::Semilight)
        } else if text == "book"@ {
            Some(Constant::Book)
        } else if text == "regular"@ {
            Some(Constant::Regular)
        } else if text == "normal"@ {
            Some(Constant::Normal)
        } else if text == "medium"@ {
            Some(Constant::Medium)
        } else if text == "demibold"@ {
            Some(Constant::Demibold)
        } else if text == "semibold"@ {
            Some(Constant::Semibold)
        } else if text == "bold"@ {
            Some(Constant::Bold)
        } else if text == "extrabold"@ {
            Some(Constant::Extrabold)
        } else if text == "ultrabold"@ {
            Some(Constant::Ultrabold)
        } else if text == "black"@ {
            Some(Constant::Black)
        } else if text == "heavy"@ {
            Some(Constant::Heavy)
        } else if text == "roman"@ {
            Some(Constant::Roman)
        } else if text == "italic"@ {
            Some(Constant::Italic)
        } else if text == "oblique"@ {
            Some(Constant::Oblique)
        } else if text == "ultracondensed"@ {
            Some(Constant::Ultracondensed)
        } else if text == "extracondensed"@ {
            Some(Constant::Extracondensed)
        } else if text == "condensed"@ {
            Some(Constant::Condensed)
        } else if text == "semicondensed"@ {
            Some(Constant::Semicondensed)
        } else if text == "semiexpanded"@ {
            Some(Constant::Semiexpanded)
        } else if text == "expanded"@ {
            Some(Constant::Expanded)
        } else if text == "extraexpanded"@ {
            Some(Constant::Extraexpanded)
        } else if text == "ultraexpanded"@ {
            Some(Constant::Ultraexpanded)
        } else if text == "proportional"@ {
            Some(Constant::Proportional)
        } else if text == "dual"@ {
            Some(Constant::Dual)
        } else if text == "mono"@ {
            Some(Constant::Mono)
        } else if text == "charcell"@ {
            Some(Constant::Charcell)
        } else if text == "unknown"@ {
            Some(Constant::Unknown)
        } else if text == "rgb"@ {
            Some(Constant::Rgb)
        } else if text == "bgr"@ {
            Some(Constant::Bgr)
        } else if text == "vrgb"@ {
            Some(Constant::Vrgb)
        } else if text == "vbgr"@ {
            Some(Constant::Vbgr)
        } else if text == "none"@ {
            Some(Constant::NoRgba)
        } else if text == "hintnone"@ {
            Some(Constant::Hintnone)
        } else if text == "hintslight"@ {
            Some(Constant::Hintslight)
        } else if text == "hintmedium"@ {
            Some(Constant::Hintmedium)
        } else if text == "hintfull"@ {
            Some(Constant::Hintfull)
        } else if text == "lcdnone"@ {
            Some(Constant::Lcdnone)
        } else if text == "lcddefault"@ {
            Some(Constant::Lcddefault)
        } else if text == "lcdlight"@ {
            Some(Constant::Lcdlight)
        } else if text == "lcdlegacy"@ {
            Some(Constant::Lcdlegacy)
        } else {
            None
        }
    }

    /// Reads a constant from the text of an attribute or an element.
    pub fn from_text(text: &str) -> (r: Result<Constant, Error>)
        ensures
            outcome(r) == variant_or_unknown(Self::of_text(text@), text@),
    {
        if text_eq(text, "thin") {
            Ok(Constant::Thin)
        } else if text_eq(text, "extralight") {
            Ok(Constant::Extralight)
        } else if text_eq(text, "ultralight") {
            Ok(Constant::Ultralight)
        } else if text_eq(text, "light") {
            Ok(Constant::Light)
        } else if text_eq(text, "demilight") {
            Ok(Constant::Demilight)
        } else if text_eq(text, "semilight") {
            Ok(Constant::Semilight)
        } else if text_eq(text, "book") {
            Ok(Constant::Book)
        } else if text_eq(text, "regular") {
            Ok(Constant::Regular)
        } else if text_eq(text, "normal") {
            Ok(Constant::Normal)
        } else if text_eq(text, "medium") {
            Ok(Constant::Medium)
        } else if text_eq(text, "demibold") {
            Ok(Constant::Demibold)
        } else if text_eq(text, "semibold") {
            Ok(Constant::Semibold)
        } else if text_eq(text, "bold") {
            Ok(Constant::Bold)
        } else if text_eq(text, "extrabold") {
            Ok(Constant::Extrabold)
        } else if text_eq(text, "ultrabold") {
            Ok(Constant::Ultrabold)
        } else if text_eq(text, "black") {
            Ok(Constant::Black)
        } else if text_eq(text, "heavy") {
            Ok(Constant::Heavy)
        } else if text_eq(text, "roman") {
            Ok(Constant::Roman)
        } else if text_eq(text, "italic") {
            Ok(Constant::Italic)
        } else if text_eq(text, "oblique") {
            Ok(Constant::Oblique)
        } else if text_eq(text, "ultracondensed") {
            Ok(Constant::Ultracondensed)
        } else if text_eq(text, "extracondensed") {
            Ok(Constant::Extracondensed)
        } else if text_eq(text, "condensed") {
            Ok(Constant::Condensed)
        } else if text_eq(text, "semicondensed") {
            Ok(Constant::Semicondensed)
        } else if text_eq(text, "semiexpanded") {
            Ok(Constant::Semiexpanded)
        } else if text_eq(text, "expanded") {
            Ok(Constant::Expanded)
        } else if text_eq(text, "extraexpanded") {
            Ok(Constant::Extraexpanded)
        } else if text_eq(text, "ultraexpanded") {
            Ok(Constant::Ultraexpanded)
        } else if text_eq(text, "proportional") {
            Ok(Constant::Proportional)
        } else if text_eq(text, "dual") {
            Ok(Constant::Dual)
        } else if text_eq(text, "mono") {
            Ok(Constant::Mono)
        } else if text_eq(text, "charcell") {
            Ok(Constant::Charcell)
        } else if text_eq(text, "unknown") {
            Ok(Constant::Unknown)
        } else if text_eq(text, "rgb") {
            Ok(Constant::Rgb)
        } else if text_eq(text, "bgr") {
            Ok(Constant::Bgr)
        } else if text_eq(text, "vrgb") {
            Ok(Constant::Vrgb)
        } else if text_eq(text, "vbgr") {
            Ok(Constant::Vbgr)
        } else if text_eq(text, "none") {
            Ok(Constant::NoRgba)
        } else if text_eq(text, "hintnone") {
            Ok(Constant::Hintnone)
        } else if text_eq(text, "hintslight") {
            Ok(Constant::Hintslight)
        } else if text_eq(text, "hintmedium") {
            Ok(Constant::Hintmedium)
        } else if text_eq(text, "hintfull") {
            Ok(Constant::Hintfull)
        } else if text_eq(text, "lcdnone") {
            Ok(Constant::Lcdnone)
        } else if text_eq(text, "lcddefault") {
            Ok(Constant::Lcddefault)
        } else if text_eq(text, "lcdlight") {
            Ok(Constant::Lcdlight)
        } else if text_eq(text, "lcdlegacy") {
            Ok(Constant::Lcdlegacy)
        } else {
            Err(unknown_variant(text))
        }
    }
}

impl Constant {
    /// The family that the constant is listed under.
    pub open spec fn family(self) -> ConstantFamily {
        match self {
            Constant::Thin | Constant::Extralight | Constant::Ultralight | Constant::Light |
            Constant::Demilight | Constant::Semilight | Constant::Book | Constant::Regular |
            Constant::Normal | Constant::Medium | Constant::Demibold | Constant::Semibold |
            Constant::Bold | Constant::Extrabold | Constant::Ultrabold | Constant::Black |
            Constant::Heavy => ConstantFamily::Weight,
            Constant::Roman | Constant::Italic | Constant::Oblique => ConstantFamily::Slant,
            Constant::Ultracondensed | Constant::Extracondensed | Constant::Condensed |
            Constant::Semicondensed | Constant::Semiexpanded | Constant::Expanded |
            Constant::Extraexpanded | Constant::Ultraexpanded => ConstantFamily::Width,
            Constant::Proportional | Constant::Dual | Constant::Mono | Constant::Charcell =>
                ConstantFamily::Spacing,
            Constant::Unknown | Constant::Rgb | Constant::Bgr | Constant::Vrgb |
            Constant::Vbgr | Constant::NoRgba => ConstantFamily::Rgba,
            Constant::Hintnone | Constant::Hintslight | Constant::Hintmedium |
            Constant::Hintfull => ConstantFamily::HintStyle,
            Constant::Lcdnone | Constant::Lcddefault | Constant::Lcdlight |
            Constant::Lcdlegacy => ConstantFamily::LcdFilter,
        }
    }

    /// Whether the constant may stand for a value of `family`. `normal` is a
    /// weight and a width; every other constant is of one family.
    pub open spec fn in_family(self, family: ConstantFamily) -> bool {
        self.family() == family || (self == Constant::Normal && family == ConstantFamily::Width)
    }

    /// The family that the constant is listed under.
    pub fn listed_family(self) -> (r: ConstantFamily)
        ensures
            r == self.family(),
    {
        match self {
            Constant::Thin | Constant::Extralight | Constant::Ultralight | Constant::Light |
            Constant::Demilight | Constant::Semilight | Constant::Book | Constant::Regular |
            Constant::Normal | Constant::Medium | Constant::Demibold | Constant::Semibold |
            Constant::Bold | Constant::Extrabold | Constant::Ultrabold | Constant::Black |
            Constant::Heavy => ConstantFamily::Weight,
            Constant::Roman | Constant::Italic | Constant::Oblique => ConstantFamily::Slant,
            Constant::Ultracondensed | Constant::Extracondensed | Constant::Condensed |
            Constant::Semicondensed | Constant::Semiexpanded | Constant::Expanded |
            Constant::Extraexpanded | Constant::Ultraexpanded => ConstantFamily::Width,
            Constant::Proportional | Constant::Dual | Constant::Mono | Constant::Charcell =>
                ConstantFamily::Spacing,
            Constant::Unknown | Constant::Rgb | Constant::Bgr | Constant::Vrgb |
            Constant::Vbgr | Constant::NoRgba => ConstantFamily::Rgba,
            Constant::Hintnone | Constant::Hintslight | Constant::Hintmedium |
            Constant::Hintfull => ConstantFamily::HintStyle,
            Constant::Lcdnone | Constant::Lcddefault | Constant::Lcdlight |
            Constant::Lcdlegacy => ConstantFamily::LcdFilter,
        }
    }

    /// Whether the constant may stand for a value of `family`.
    pub fn belongs_to(self, family: ConstantFamily) -> (r: bool)
        ensures
            r == self.in_family(family),
    {
        self.listed_family() == family || (self == Constant::Normal && family
            == ConstantFamily::Width)
    }
}

/// A floating-point literal, kept as the text that wrote it.
#[derive(Debug, PartialEq, Eq)]
pub struct Double {
    pub(crate) literal: String,
}

impl DeepView for Double {
    type V = Seq<char>;

    closed spec fn deep_view(&self) -> Seq<char> {
        self.literal@
    }
}

impl Clone for Double {
    fn clone(&self) -> (r: Self)
        ensures
            r.deep_view() == self.deep_view(),
    {
        proof {
            use_type_invariant(self);
        }
        Double { literal: self.literal.clone() }
    }
}

impl Double {
    /// The text held is always that of a floating-point literal.
    #[verifier::type_invariant]
    pub closed spec fn well_formed(self) -> bool {
        is_double_text(self.literal@)
    }

    /// The literal that `text` writes, if it writes one.
    pub open spec fn of_text(text: Seq<char>) -> Option<Seq<char>> {
        if is_double_text(text) {
            Some(text)
        } else {
            None
        }
    }

    /// Reads a floating-point literal.
    pub fn from_text(text: &str) -> (r: Result<Double, Error>)
        ensures
            outcome(r) == (match Self::of_text(text@) {
                Some(literal) => Ok(literal),
                None => Err(ErrorView::ParseFloatError(text@)),
            }),
    {
        if is_double_literal(text) {
            Ok(Double { literal: String::from_str(text) })
        } else {
            Err(Error::ParseFloatError(String::from_str(text)))
        }
    }

    /// The text of the literal, which is always that of a floating-point
    /// literal: reading it back gives the same literal.
    pub fn as_str(&self) -> (r: &str)
        ensures
            r@ == self.deep_view(),
            is_double_text(r@),
            Self::of_text(r@) == Some(self.deep_view()),
    {
        proof {
            use_type_invariant(self);
        }
        self.literal.as_str()
    }
}

/// A leaf value of a rule.
#[derive(Debug, PartialEq, Eq)]
pub enum Value {
    /// Text.
    String(String),
    /// A floating-point number.
    Double(Double),
    /// An integer.
    Int(u32),
    /// A boolean.
    Bool(bool),
    /// A named constant.
    Constant(Constant),
    /// The value that a property has in one of the patterns.
    Property(PropertyTarget, PropertyKind),
}

/// What a [`Value`] holds.
pub enum ValueView {
    String(Seq<char>),
    Double(Seq<char>),
    Int(u32),
    Bool(bool),
    Constant(Constant),
    Property(PropertyTarget, PropertyKind),
}

impl DeepView for Value {
    type V = ValueView;

    open spec fn deep_view(&self) -> ValueView {
        match self {
            Value::String(s) => ValueView::String(s@),
            Value::Double(d) => ValueView::Double(d.deep_view()),
            Value::Int(n) => ValueView::Int(*n),
            Value::Bool(b) => ValueView::Bool(*b),
            Value::Constant(c) => ValueView::Constant(*c),
            Value::Property(target, kind) => ValueView::Property(*target, *kind),
        }
    }
}

impl Clone for Value {
    fn clone(&self) -> (r: Self)
        ensures
            r.deep_view() == self.deep_view(),
    {
        match self {
            Value::String(text) => Value::String(text.clone()),
            Value::Double(literal) => Value::Double(literal.clone()),
            Value::Int(n) => Value::Int(*n),
            Value::Bool(b) => Value::Bool(*b),
            Value::Constant(c) => Value::Constant(*c),
            Value::Property(target, kind) => Value::Property(*target, *kind),
        }
    }
}

/// An expression: a value, a matrix of four expressions, or an operator with
/// its operands in order. The number of operands is not part of the shape:
/// whoever evaluates the expression checks it.
#[derive(Debug, PartialEq, Eq)]
pub enum Expression {
    Simple(Value),
    Matrix(Box<Expression>, Box<Expression>, Box<Expression>, Box<Expression>),
    List(ListOp, Vec<Expression>),
    Unary(UnaryOp, Vec<Expression>),
    Binary(BinaryOp, Vec<Expression>),
    Ternary(TernaryOp, Vec<Expression>),
}

impl From<Value> for Expression {
    fn from(v: Value) -> (r: Expression)
        ensures
            r == Expression::Simple(v),
    {
        Expression::Simple(v)
    }
}

impl FromSpecImpl<Value> for Expression {
    open spec fn obeys_from_spec() -> bool {
        true
    }

    open spec fn from_spec(v: Value) -> Expression {
        Expression::Simple(v)
    }
}

/// What an [`Expression`] holds.
pub enum ExpressionView {
    Simple(ValueView),
    Matrix(Box<ExpressionView>, Box<ExpressionView>, Box<ExpressionView>, Box<ExpressionView>),
    List(ListOp, Seq<ExpressionView>),
    Unary(UnaryOp, Seq<ExpressionView>),
    Binary(BinaryOp, Seq<ExpressionView>),
    Ternary(TernaryOp, Seq<ExpressionView>),
}

/// The views of the expressions `items`, in order.
pub open spec fn views_of(items: Seq<Expression>) -> Seq<ExpressionView>
    decreases items, 1int,
{
    Seq::new(
        items.len(),
        |i: int|
            if 0 <= i < items.len() {
                view_of(items[i])
            } else {
                arbitrary()
            },
    )
}

/// The view of the expression `e`.
pub open spec fn view_of(e: Expression) -> ExpressionView
    decreases e, 0int,
{
    match e {
        Expression::Simple(v) => ExpressionView::Simple(v.deep_view()),
        Expression::Matrix(a, b, c, d) => ExpressionView::Matrix(
            Box::new(view_of(*a)),
            Box::new(view_of(*b)),
            Box::new(view_of(*c)),
            Box::new(view_of(*d)),
        ),
        Expression::List(op, items) => ExpressionView::List(op, views_of(items@)),
        Expression::Unary(op, items) => ExpressionView::Unary(op, views_of(items@)),
        Expression::Binary(op, items) => ExpressionView::Binary(op, views_of(items@)),
        Expression::Ternary(op, items) => ExpressionView::Ternary(op, views_of(items@)),
    }
}

impl DeepView for Expression {
    type V = ExpressionView;

    open spec fn deep_view(&self) -> ExpressionView {
        view_of(*self)
    }
}

/// The view of a vector of expressions is the views of its items.
pub proof fn lemma_views_of(items: Vec<Expression>)
    ensures
        items.deep_view() == views_of(items@),
{
}

/// Copies the expressions `items`, in order.
fn clone_all(items: &Vec<Expression>) -> (r: Vec<Expression>)
    ensures
        views_of(r@) == views_of(items@),
    decreases items, 1int,
{
    let mut copies: Vec<Expression> = Vec::new();
    let mut i: usize = 0;
    while i < items.len()
        invariant
            i <= items@.len(),
            copies@.len() == i,
            forall|k: int| 0 <= k < i ==> view_of(#[trigger] copies@[k]) == view_of(items@[k]),
        decreases items@.len() - i,
    {
        let copy = items[i].clone();
        copies.push(copy);
        i += 1;
    }
    copies
}

impl Clone for Expression {
    fn clone(&self) -> (r: Self)
        ensures
            r.deep_view() == self.deep_view(),
        decreases self, 0int,
    {
        match self {
            Expression::Simple(v) => Expression::Simple(v.clone()),
            Expression::Matrix(a, b, c, d) => {
                let a: Expression = (**a).clone();
                let b: Expression = (**b).clone();
                let c: Expression = (**c).clone();
                let d: Expression = (**d).clone();
                Expression::Matrix(Box::new(a), Box::new(b), Box::new(c), Box::new(d))
            },
            Expression::List(op, items) => Expression::List(*op, clone_all(items)),
            Expression::Unary(op, items) => Expression::Unary(*op, clone_all(items)),
            Expression::Binary(op, items) => Expression::Binary(*op, clone_all(items)),
            Expression::Ternary(op, items) => Expression::Ternary(*op, clone_all(items)),
        }
    }
}

/// The depth of an expression: 1 for a value, and one more than the deepest
/// operand for a matrix or an operator.
pub open spec fn depth_of(e: ExpressionView) -> nat
    decreases e,
{
    match e {
        ExpressionView::Simple(_) => 1,
        ExpressionView::Matrix(a, b, c, d) => 1 + larger(
            larger(depth_of(*a), depth_of(*b)),
            larger(depth_of(*c), depth_of(*d)),
        ),
        ExpressionView::List(_, items) => 1 + max_depth(items),
        ExpressionView::Unary(_, items) => 1 + max_depth(items),
        ExpressionView::Binary(_, items) => 1 + max_depth(items),
        ExpressionView::Ternary(_, items) => 1 + max_depth(items),
    }
}

/// The depth of the deepest of `items`, 0 if there is none.
pub open spec fn max_depth(items: Seq<ExpressionView>) -> nat
    decreases items,
{
    if items.len() == 0 {
        0
    } else {
        larger(max_depth(items.drop_last()), depth_of(items.last()))
    }
}

/// The larger of two numbers.
pub open spec fn larger(a: nat, b: nat) -> nat {
    if a > b {
        a
    } else {
        b
    }
}

} // verus!
