//! Properties: each kind of property takes values of one type.

use vstd::prelude::*;
use crate::error::{unknown_variant, variant_or_unknown, Error, ErrorView};
use crate::views::outcome;
use crate::text::text_eq;
use crate::value::{Constant, ConstantFamily, Expression, ExpressionView, Value, ValueView};

verus! {

/// The types of value that a property can take.
#[derive(Clone, Copy, Debug, PartialEq, Eq, Structural)]
pub enum ValueType {
    Text,
    Double,
    Int,
    Bool,
    Matrix,
}

/// The properties of a font pattern that rules can test and edit.
#[derive(Clone, Copy, Debug, PartialEq, Eq, Structural)]
pub enum PropertyKind {
    Family,
    FamilyLang,
    Style,
    StyleLang,
    FullName,
    FullNameLang,
    Slant,
    Weight,
    Width,
    Size,
    Aspect,
    PixelSize,
    Spacing,
    Foundry,
    Antialias,
    HintStyle,
    Hinting,
    VerticalLayout,
    AutoHint,
    GlobalAdvance,
    File,
    Index,
    Rasterizer,
    Outline,
    Scalable,
    Dpi,
    Rgba,
    Scale,
    MinSpace,
    CharWidth,
    CharHeight,
    Matrix,
    Lang,
    FontVersion,
    Capability,
    FontFormat,
    Embolden,
    EmbeddedBitmap,
    Decorative,
    LcdFilter,
    NameLang,
    FontFeatures,
    PrgName,
    Hash,
    PostscriptName,
    Color,
    Symbol,
    FontVariations,
    Variable,
    FontHasHint,
    Order,
}

impl DeepView for PropertyKind {
    type V = PropertyKind;

    open spec fn deep_view(&self) -> PropertyKind {
        *self
    }
}

impl PropertyKind {
    /// The kind of property that `text` names, if it names one.
    pub open spec fn of_text(text: Seq<char>) -> Option<PropertyKind> {
        if text == "family"@ {
            Some(PropertyKind::Family)
        } else if text == "familylang"@ {
            Some(PropertyKind::FamilyLang)
        } else if text == "style"@ {
            Some(PropertyKind::Style)
        } else if text == "stylelang"@ {
            Some(PropertyKind::StyleLang)
        } else if text == "fullname"@ {
            Some(PropertyKind::FullName)
        } else if text == "fullnamelang"@ {
            Some(PropertyKind::FullNameLang)
        } else if text == "slant"@ {
            Some(PropertyKind::Slant)
        } else if text == "weight"@ {
            Some(PropertyKind::Weight)
        } else if text == "width"@ {
            Some(PropertyKind::Width)
        } else if text == "size"@ {
            Some(PropertyKind::Size)
        } else if text == "aspect"@ {
            Some(PropertyKind::Aspect)
        } else if text == "pixelsize"@ {
            Some(PropertyKind::PixelSize)
        } else if text == "spacing"@ {
            Some(PropertyKind::Spacing)
        } else if text == "foundry"@ {
            Some(PropertyKind::Foundry)
        } else if text == "antialias"@ {
            Some(PropertyKind::Antialias)
        } else if text == "hintstyle"@ {
            Some(PropertyKind::HintStyle)
        } else if text == "hinting"@ {
            Some(PropertyKind::Hinting)
        } else if text == "verticallayout"@ {
            Some(PropertyKind::VerticalLayout)
        } else if text == "autohint"@ {
            Some(PropertyKind::AutoHint)
        } else if text == "globaladvance"@ {
            Some(PropertyKind::GlobalAdvance)
        } else if text == "file"@ {
            Some(PropertyKind::File)
        } else if text == "index"@ {
            Some(PropertyKind::Index)
        } else if text == "rasterizer"@ {
            Some(PropertyKind::Rasterizer)
        } else if text == "outline"@ {
            Some(PropertyKind::Outline)
        } else if text == "scalable"@ {
            Some(PropertyKind::Scalable)
        } else if text == "dpi"@ {
            Some(PropertyKind::Dpi)
        } else if text == "rgba"@ {
            Some(PropertyKind::Rgba)
        } else if text == "scale"@ {
            Some(PropertyKind::Scale)
        } else if text == "minspace"@ {
            Some(PropertyKind::MinSpace)
        } else if text == "charwidth"@ {
            Some(PropertyKind::CharWidth)
        } else if text == "charheight"@ {
            Some(PropertyKind::CharHeight)
        } else if text == "matrix"@ {
            Some(PropertyKind::Matrix)
        } else if text == "lang"@ {
            Some(PropertyKind::Lang)
        } else if text == "fontversion"@ {
            Some(PropertyKind::FontVersion)
        } else if text == "capability"@ {
            Some(PropertyKind::Capability)
        } else if text == "fontformat"@ {
            Some(PropertyKind::FontFormat)
        } else if text == "embolden"@ {
            Some(PropertyKind::Embolden)
        } else if text == "embeddedbitmap"@ {
            Some(PropertyKind::EmbeddedBitmap)
        } else if text == "decorative"@ {
            Some(PropertyKind::Decorative)
        } else if text == "lcdfilter"@ {
            Some(PropertyKind::LcdFilter)
        } else if text == "namelang"@ {
            Some(PropertyKind::NameLang)
        } else if text == "fontfeatures"@ {
            Some(PropertyKind::FontFeatures)
        } else if text == "prgname"@ {
            Some(PropertyKind::PrgName)
        } else if text == "hash"@ {
            Some(PropertyKind::Hash)
        } else if text == "postscriptname"@ {
            Some(PropertyKind::PostscriptName)
        } else if text == "color"@ {
            Some(PropertyKind::Color)
        } else if text == "symbol"@ {
            Some(PropertyKind::Symbol)
        } else if text == "fontvariations"@ {
            Some(PropertyKind::FontVariations)
        } else if text == "variable"@ {
            Some(PropertyKind::Variable)
        } else if text == "fonthashint"@ {
            Some(PropertyKind::FontHasHint)
        } else if text == "order"@ {
            Some(PropertyKind::Order)
        } else {
            None
        }
    }

    /// Reads a kind of property from the text of an attribute or an element.
    pub fn from_text(text: &str) -> (r: Result<PropertyKind, Error>)
        ensures
            outcome(r) == variant_or_unknown(Self::of_text(text@), text@),
    {
        if text_eq(text, "family") {
            Ok(PropertyKind::Family)
        } else if text_eq(text, "familylang") {
            Ok(PropertyKind::FamilyLang)
        } else if text_eq(text, "style") {
            Ok(PropertyKind::Style)
        } else if text_eq(text, "stylelang") {
            Ok(PropertyKind::StyleLang)
        } else if text_eq(text, "fullname") {
            Ok(PropertyKind::FullName)
        } else if text_eq(text, "fullnamelang") {
            Ok(PropertyKind::FullNameLang)
        } else if text_eq(text, "slant") {
            Ok(PropertyKind::Slant)
        } else if text_eq(text, "weight") {
            Ok(PropertyKind::Weight)
        } else if text_eq(text, "width") {
            Ok(PropertyKind::Width)
        } else if text_eq(text, "size") {
            Ok(PropertyKind::Size)
        } else if text_eq(text, "aspect") {
            Ok(PropertyKind::Aspect)
        } else if text_eq(text, "pixelsize") {
            Ok(PropertyKind::PixelSize)
        } else if text_eq(text, "spacing") {
            Ok(PropertyKind::Spacing)
        } else if text_eq(text, "foundry") {
            Ok(PropertyKind::Foundry)
        } else if text_eq(text, "antialias") {
            Ok(PropertyKind::Antialias)
        } else if text_eq(text, "hintstyle") {
            Ok(PropertyKind::HintStyle)
        } else if text_eq(text, "hinting") {
            Ok(PropertyKind::Hinting)
        } else if text_eq(text, "verticallayout") {
            Ok(PropertyKind::VerticalLayout)
        } else if text_eq(text, "autohint") {
            Ok(PropertyKind::AutoHint)
        } else if text_eq(text, "globaladvance") {
            Ok(PropertyKind::GlobalAdvance)
        } else if text_eq(text, "file") {
            Ok(PropertyKind::File)
        } else if text_eq(text, "index") {
            Ok(PropertyKind::Index)
        } else if text_eq(text, "rasterizer") {
            Ok(PropertyKind::Rasterizer)
        } else if text_eq(text, "outline") {
            Ok(PropertyKind::Outline)
        } else if text_eq(text, "scalable") {
            Ok(PropertyKind::Scalable)
        } else if text_eq(text, "dpi") {
            Ok(PropertyKind::Dpi)
        } else if text_eq(text, "rgba") {
            Ok(PropertyKind::Rgba)
        } else if text_eq(text, "scale") {
            Ok(PropertyKind::Scale)
        } else if text_eq(text, "minspace") {
            Ok(PropertyKind::MinSpace)
        } else if text_eq(text, "charwidth") {
            Ok(PropertyKind::CharWidth)
        } else if text_eq(text, "charheight") {
            Ok(PropertyKind::CharHeight)
        } else if text_eq(text, "matrix") {
            Ok(PropertyKind::Matrix)
        } else if text_eq(text, "lang") {
            Ok(PropertyKind::Lang)
        } else if text_eq(text, "fontversion") {
            Ok(PropertyKind::FontVersion)
        } else if text_eq(text, "capability") {
            Ok(PropertyKind::Capability)
        } else if text_eq(text, "fontformat") {
            Ok(PropertyKind::FontFormat)
        } else if text_eq(text, "embolden") {
            Ok(PropertyKind::Embolden)
        } else if text_eq(text, "embeddedbitmap") {
            Ok(PropertyKind::EmbeddedBitmap)
        } else if text_eq(text, "decorative") {
            Ok(PropertyKind::Decorative)
        } else if text_eq(text, "lcdfilter") {
            Ok(PropertyKind::LcdFilter)
        } else if text_eq(text, "namelang") {
            Ok(PropertyKind::NameLang)
        } else if text_eq(text, "fontfeatures") {
            Ok(PropertyKind::FontFeatures)
        } else if text_eq(text, "prgname") {
            Ok(PropertyKind::PrgName)
        } else if text_eq(text, "hash") {
            Ok(PropertyKind::Hash)
        } else if text_eq(text, "postscriptname") {
            Ok(PropertyKind::PostscriptName)
        } else if text_eq(text, "color") {
            Ok(PropertyKind::Color)
        } else if text_eq(text, "symbol") {
            Ok(PropertyKind::Symbol)
        } else if text_eq(text, "fontvariations") {
            Ok(PropertyKind::FontVariations)
        } else if text_eq(text, "variable") {
            Ok(PropertyKind::Variable)
        } else if text_eq(text, "fonthashint") {
            Ok(PropertyKind::FontHasHint)
        } else if text_eq(text, "order") {
            Ok(PropertyKind::Order)
        } else {
            Err(unknown_variant(text))
        }
    }
}

impl PropertyKind {
    /// The type of value that a property of this kind takes.
    pub open spec fn value_type(self) -> ValueType {
        match self {
            PropertyKind::Family | PropertyKind::FamilyLang | PropertyKind::Style |
            PropertyKind::StyleLang | PropertyKind::FullName | PropertyKind::FullNameLang |
            PropertyKind::Foundry | PropertyKind::File | PropertyKind::Rasterizer |
            PropertyKind::Lang | PropertyKind::Capability | PropertyKind::FontFormat |
            PropertyKind::NameLang | PropertyKind::FontFeatures | PropertyKind::PrgName |
            PropertyKind::Hash | PropertyKind::PostscriptName | PropertyKind::FontVariations =>
                ValueType::Text,
            PropertyKind::Size | PropertyKind::Aspect | PropertyKind::PixelSize |
            PropertyKind::Dpi | PropertyKind::Scale => ValueType::Double,
            PropertyKind::Slant | PropertyKind::Weight | PropertyKind::Width |
            PropertyKind::Spacing | PropertyKind::HintStyle | PropertyKind::Index |
            PropertyKind::Rgba | PropertyKind::CharWidth | PropertyKind::CharHeight |
            PropertyKind::FontVersion | PropertyKind::LcdFilter | PropertyKind::Order =>
                ValueType::Int,
            PropertyKind::Antialias | PropertyKind::Hinting | PropertyKind::VerticalLayout |
            PropertyKind::AutoHint | PropertyKind::GlobalAdvance | PropertyKind::Outline |
            PropertyKind::Scalable | PropertyKind::MinSpace | PropertyKind::Embolden |
            PropertyKind::EmbeddedBitmap | PropertyKind::Decorative | PropertyKind::Color |
            PropertyKind::Symbol | PropertyKind::Variable | PropertyKind::FontHasHint =>
                ValueType::Bool,
            PropertyKind::Matrix => ValueType::Matrix,
        }
    }

    /// The family of constants that may stand for a value of this kind, for
    /// the kinds that take constants.
    pub open spec fn constant_family(self) -> Option<ConstantFamily> {
        match self {
            PropertyKind::Slant => Some(ConstantFamily::Slant),
            PropertyKind::Weight => Some(ConstantFamily::Weight),
            PropertyKind::Width => Some(ConstantFamily::Width),
            PropertyKind::Spacing => Some(ConstantFamily::Spacing),
            PropertyKind::Rgba => Some(ConstantFamily::Rgba),
            PropertyKind::HintStyle => Some(ConstantFamily::HintStyle),
            PropertyKind::LcdFilter => Some(ConstantFamily::LcdFilter),
            _ => None,
        }
    }

    /// The type of value that a property of this kind takes.
    pub fn expected_type(self) -> (r: ValueType)
        ensures
            r == self.value_type(),
    {
        match self {
            PropertyKind::Family | PropertyKind::FamilyLang | PropertyKind::Style |
            PropertyKind::StyleLang | PropertyKind::FullName | PropertyKind::FullNameLang |
            PropertyKind::Foundry | PropertyKind::File | PropertyKind::Rasterizer |
            PropertyKind::Lang | PropertyKind::Capability | PropertyKind::FontFormat |
            PropertyKind::NameLang | PropertyKind::FontFeatures | PropertyKind::PrgName |
            PropertyKind::Hash | PropertyKind::PostscriptName | PropertyKind::FontVariations =>
                ValueType::Text,
            PropertyKind::Size | PropertyKind::Aspect | PropertyKind::PixelSize |
            PropertyKind::Dpi | PropertyKind::Scale => ValueType::Double,
            PropertyKind::Slant | PropertyKind::Weight | PropertyKind::Width |
            PropertyKind::Spacing | PropertyKind::HintStyle | PropertyKind::Index |
            PropertyKind::Rgba | PropertyKind::CharWidth | PropertyKind::CharHeight |
            PropertyKind::FontVersion | PropertyKind::LcdFilter | PropertyKind::Order =>
                ValueType::Int,
            PropertyKind::Antialias | PropertyKind::Hinting | PropertyKind::VerticalLayout |
            PropertyKind::AutoHint | PropertyKind::GlobalAdvance | PropertyKind::Outline |
            PropertyKind::Scalable | PropertyKind::MinSpace | PropertyKind::Embolden |
            PropertyKind::EmbeddedBitmap | PropertyKind::Decorative | PropertyKind::Color |
            PropertyKind::Symbol | PropertyKind::Variable | PropertyKind::FontHasHint =>
                ValueType::Bool,
            PropertyKind::Matrix => ValueType::Matrix,
        }
    }

    /// The family of constants that may stand for a value of this kind.
    pub fn expected_family(self) -> (r: Option<ConstantFamily>)
        ensures
            r == self.constant_family(),
    {
        match self {
            PropertyKind::Slant => Some(ConstantFamily::Slant),
            PropertyKind::Weight => Some(ConstantFamily::Weight),
            PropertyKind::Width => Some(ConstantFamily::Width),
            PropertyKind::Spacing => Some(ConstantFamily::Spacing),
            PropertyKind::Rgba => Some(ConstantFamily::Rgba),
            PropertyKind::HintStyle => Some(ConstantFamily::HintStyle),
            PropertyKind::LcdFilter => Some(ConstantFamily::LcdFilter),
            _ => None,
        }
    }
}

/// A property together with the value that a rule gives it.
#[derive(Clone, Debug, PartialEq, Eq)]
pub struct Property {
    pub kind: PropertyKind,
    pub value: Expression,
}

/// What a [`Property`] holds.
pub struct PropertyView {
    pub kind: PropertyKind,
    pub value: ExpressionView,
}

impl DeepView for Property {
    type V = PropertyView;

    open spec fn deep_view(&self) -> PropertyView {
        PropertyView { kind: self.kind, value: self.value.deep_view() }
    }
}

impl PropertyKind {
    /// Whether a property of this kind may have `value`.
    ///
    /// A literal must be of the kind's type, with no conversion between
    /// integers and floating-point numbers. A constant must be of the kind's
    /// family of constants. A reference to another property must name a
    /// property of the same type. A matrix is a value of type matrix. What an
    /// operator yields is known only when it is evaluated, so every kind
    /// takes it.
    pub open spec fn accepts(self, value: ExpressionView) -> bool {
        match value {
            ExpressionView::Simple(ValueView::String(_)) => self.value_type() == ValueType::Text,
            ExpressionView::Simple(ValueView::Double(_)) => self.value_type() == ValueType::Double,
            ExpressionView::Simple(ValueView::Int(_)) => self.value_type() == ValueType::Int,
            ExpressionView::Simple(ValueView::Bool(_)) => self.value_type() == ValueType::Bool,
            ExpressionView::Simple(ValueView::Constant(c)) => match self.constant_family() {
                Some(family) => c.in_family(family),
                None => false,
            },
            ExpressionView::Simple(ValueView::Property(_, other)) => other.value_type()
                == self.value_type(),
            ExpressionView::Matrix(_, _, _, _) => self.value_type() == ValueType::Matrix,
            ExpressionView::List(_, _) => true,
            ExpressionView::Unary(_, _) => true,
            ExpressionView::Binary(_, _) => true,
            ExpressionView::Ternary(_, _) => true,
        }
    }

    /// The property of this kind with `value`, or the reason there is none:
    /// a constant of the wrong family for a kind that takes constants, or a
    /// value that the kind does not take.
    pub open spec fn property_of(self, value: ExpressionView) -> Result<PropertyView, ErrorView> {
        if self.accepts(value) {
            Ok(PropertyView { kind: self, value })
        } else {
            match value {
                ExpressionView::Simple(ValueView::Constant(c)) if self.constant_family() is Some =>
                    Err(ErrorView::ConstantPropertyError(self, c)),
                _ => Err(ErrorView::PropertyConvertError(self, value)),
            }
        }
    }

    /// Whether a property of this kind may have the value `value`.
    pub fn takes(self, value: &Expression) -> (r: bool)
        ensures
            r == self.accepts(value.deep_view()),
    {
        let expected = self.expected_type();
        match value {
            Expression::Simple(Value::String(_)) => expected == ValueType::Text,
            Expression::Simple(Value::Double(_)) => expected == ValueType::Double,
            Expression::Simple(Value::Int(_)) => expected == ValueType::Int,
            Expression::Simple(Value::Bool(_)) => expected == ValueType::Bool,
            Expression::Simple(Value::Constant(c)) => match self.expected_family() {
                Some(family) => c.belongs_to(family),
                None => false,
            },
            Expression::Simple(Value::Property(_, other)) => other.expected_type() == expected,
            Expression::Matrix(_, _, _, _) => expected == ValueType::Matrix,
            Expression::List(_, _) => true,
            Expression::Unary(_, _) => true,
            Expression::Binary(_, _) => true,
            Expression::Ternary(_, _) => true,
        }
    }

    /// Makes the property of this kind with `value`. The value is kept as it
    /// is: nothing is converted. Every pair of kind and value gives either
    /// the property or one of the two conversion errors.
    pub fn make_property(self, value: Expression) -> (r: Result<Property, Error>)
        ensures
            outcome(r) == self.property_of(value.deep_view()),
            r matches Ok(p) ==> p.kind == self && p.value == value && self.accepts(
                p.value.deep_view(),
            ),
            r matches Err(e) ==> !self.accepts(value.deep_view()) && (e is PropertyConvertError
                || e is ConstantPropertyError),
    {
        if self.takes(&value) {
            Ok(Property { kind: self, value })
        } else {
            let constant = match &value {
                Expression::Simple(Value::Constant(c)) => Some(*c),
                _ => None,
            };
            match constant {
                Some(c) if self.expected_family().is_some() => Err(
                    Error::ConstantPropertyError(self, c),
                ),
                _ => Err(Error::PropertyConvertError(self, value)),
            }
        }
    }
}

/// What making a property comes to, for every kind and every value: the
/// property of that kind with that value, where the kind takes the value, or
/// one of the two conversion errors with the kind and the value as they
/// were. Nothing else comes of it.
pub proof fn lemma_property_or_conversion_error(kind: PropertyKind, value: ExpressionView)
    ensures
        kind.accepts(value) ==> kind.property_of(value) == Ok::<PropertyView, ErrorView>(
            PropertyView { kind, value },
        ),
        !kind.accepts(value) ==> kind.property_of(value) == Err::<PropertyView, ErrorView>(
            ErrorView::PropertyConvertError(kind, value),
        ) || (exists|c: Constant|
            value == ExpressionView::Simple(ValueView::Constant(c)) && kind.property_of(value)
                == Err::<PropertyView, ErrorView>(ErrorView::ConstantPropertyError(kind, c))),
{
    if !kind.accepts(value) {
        match value {
            ExpressionView::Simple(ValueView::Constant(c)) => {
                if kind.constant_family() is Some {
                    assert(value == ExpressionView::Simple(ValueView::Constant(c))
                        && kind.property_of(value) == Err::<PropertyView, ErrorView>(
                        ErrorView::ConstantPropertyError(kind, c),
                    ));
                }
            },
            _ => {},
        }
    }
}

/// Numbers are not converted: an integer for a kind of floating-point
/// numbers, or a floating-point number for a kind of integers, makes no
/// property, and the error holds the number as it was written.
pub proof fn lemma_numbers_are_not_converted(kind: PropertyKind, value: ExpressionView)
    requires
        (kind.value_type() == ValueType::Double && value matches ExpressionView::Simple(
            ValueView::Int(_),
        )) || (kind.value_type() == ValueType::Int && value matches ExpressionView::Simple(
            ValueView::Double(_),
        )),
    ensures
        kind.property_of(value) == Err::<PropertyView, ErrorView>(
            ErrorView::PropertyConvertError(kind, value),
        ),
{
}

} // verus!
