//! Scalar settings, aliases and font selections.

use vstd::prelude::*;
use crate::property::{Property, PropertyView};

verus! {

/// One code point, or a range of code points with both ends in it.
#[derive(Clone, Copy, Debug, PartialEq, Eq, Structural)]
pub enum IntOrRange {
    Int(u32),
    Range(u32, u32),
}

impl DeepView for IntOrRange {
    type V = IntOrRange;

    open spec fn deep_view(&self) -> IntOrRange {
        *self
    }
}

/// Scalar settings: how often to look for changes, in seconds, and the code
/// points that may be blank.
#[derive(Clone, Debug, PartialEq, Eq)]
pub struct Config {
    pub rescans: Vec<u32>,
    pub blanks: Vec<IntOrRange>,
}

/// What a [`Config`] holds.
pub struct ConfigView {
    pub rescans: Seq<u32>,
    pub blanks: Seq<IntOrRange>,
}

impl DeepView for Config {
    type V = ConfigView;

    open spec fn deep_view(&self) -> ConfigView {
        ConfigView { rescans: self.rescans@, blanks: self.blanks@ }
    }
}

impl ConfigView {
    /// No setting at all.
    pub open spec fn empty() -> ConfigView {
        ConfigView { rescans: Seq::empty(), blanks: Seq::empty() }
    }
}

impl Config {
    /// No setting at all.
    pub fn new() -> (r: Config)
        ensures
            r.deep_view() == ConfigView::empty(),
    {
        Config { rescans: Vec::new(), blanks: Vec::new() }
    }
}

impl Default for Config {
    fn default() -> (r: Config)
        ensures
            r.deep_view() == ConfigView::empty(),
    {
        Config::new()
    }
}

/// Other families to try for a family: before it, after it, and at the end.
#[derive(Clone, Debug, PartialEq, Eq)]
pub struct Alias {
    pub alias: String,
    pub prefer: Vec<String>,
    pub accept: Vec<String>,
    pub default: Vec<String>,
}

/// What an [`Alias`] holds.
pub struct AliasView {
    pub alias: Seq<char>,
    pub prefer: Seq<Seq<char>>,
    pub accept: Seq<Seq<char>>,
    pub default: Seq<Seq<char>>,
}

impl DeepView for Alias {
    type V = AliasView;

    open spec fn deep_view(&self) -> AliasView {
        AliasView {
            alias: self.alias@,
            prefer: self.prefer.deep_view(),
            accept: self.accept.deep_view(),
            default: self.default.deep_view(),
        }
    }
}

/// What a font is selected by: the name of its file, or its properties.
#[derive(Clone, Debug, PartialEq, Eq)]
pub enum FontMatch {
    Glob(String),
    Pattern(Vec<Property>),
}

/// What a [`FontMatch`] holds.
pub enum FontMatchView {
    Glob(Seq<char>),
    Pattern(Seq<PropertyView>),
}

impl DeepView for FontMatch {
    type V = FontMatchView;

    open spec fn deep_view(&self) -> FontMatchView {
        match self {
            FontMatch::Glob(glob) => FontMatchView::Glob(glob@),
            FontMatch::Pattern(properties) => FontMatchView::Pattern(properties.deep_view()),
        }
    }
}

/// The fonts to leave out, and the fonts to take in all the same.
#[derive(Clone, Debug, PartialEq, Eq)]
pub struct SelectFont {
    pub rejects: Vec<FontMatch>,
    pub accepts: Vec<FontMatch>,
}

/// What a [`SelectFont`] holds.
pub struct SelectFontView {
    pub rejects: Seq<FontMatchView>,
    pub accepts: Seq<FontMatchView>,
}

impl DeepView for SelectFont {
    type V = SelectFontView;

    open spec fn deep_view(&self) -> SelectFontView {
        SelectFontView { rejects: self.rejects.deep_view(), accepts: self.accepts.deep_view() }
    }
}

} // verus!
