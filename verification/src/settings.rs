//! Scalar settings, aliases and font selections, read from the nodes of a
//! document's tree.

use vstd::prelude::*;
use crate::attributes::Element;
use crate::config::{
    Alias, AliasView, Config, ConfigView, FontMatch, FontMatchView, IntOrRange, SelectFont,
    SelectFontView,
};
use crate::error::{Error, ErrorView};
use crate::expressions::{expr_of, exprs_of, parse_expr, parse_exprs, text_in};
use crate::parts::{find_first_element, first_element, parse_text, property_in};
use crate::property::{Property, PropertyView};
use crate::text::text_eq;
use crate::tree::{lemma_node_views, XmlNode, XmlNodeView};
use crate::value::{Expression, ExpressionView, Value, ValueView};
use crate::views::{lemma_empty, lemma_pushed, outcome};

verus! {

/// The integer that the expression `e` is, if it is an integer literal.
pub open spec fn integer_in(e: ExpressionView) -> Option<u32> {
    match e {
        ExpressionView::Simple(ValueView::Int(n)) => Some(n),
        _ => None,
    }
}

/// The code points that the element `node` of a `blank` writes: an `int`
/// is one code point, and a `range` holds two `int`s, its ends. Anything
/// else is a format error.
pub open spec fn blank_of(node: XmlNodeView) -> Result<IntOrRange, ErrorView> {
    if node.name == "int"@ {
        match expr_of(node) {
            Err(e) => Err(e),
            Ok(e) => match integer_in(e) {
                Some(n) => Ok(IntOrRange::Int(n)),
                None => Err(ErrorView::InvalidFormat),
            },
        }
    } else if node.name == "range"@ {
        match exprs_of(node.children) {
            Err(e) => Err(e),
            Ok(ends) => if ends.len() == 2 && integer_in(ends[0]) is Some && integer_in(
                ends[1],
            ) is Some {
                Ok(IntOrRange::Range(integer_in(ends[0])->0, integer_in(ends[1])->0))
            } else {
                Err(ErrorView::InvalidFormat)
            },
        }
    } else {
        Err(ErrorView::InvalidFormat)
    }
}

/// The integer that `e` is, if it is an integer literal.
fn integer_of(e: &Expression) -> (r: Option<u32>)
    ensures
        r == integer_in(e.deep_view()),
{
    match e {
        Expression::Simple(Value::Int(n)) => Some(*n),
        _ => None,
    }
}

/// Reads the code points that the element `node` of a `blank` writes.
pub fn parse_blank(node: &XmlNode) -> (r: Result<IntOrRange, Error>)
    ensures
        outcome(r) == blank_of(node.deep_view()),
{
    if text_eq(node.name.as_str(), "int") {
        let e = parse_expr(node)?;
        match integer_of(&e) {
            Some(n) => Ok(IntOrRange::Int(n)),
            None => Err(Error::InvalidFormat),
        }
    } else if text_eq(node.name.as_str(), "range") {
        proof {
            lemma_node_views(node.children);
        }
        let ends = parse_exprs(&node.children)?;
        if ends.len() != 2 {
            return Err(Error::InvalidFormat);
        }
        match (integer_of(&ends[0]), integer_of(&ends[1])) {
            (Some(a), Some(b)) => Ok(IntOrRange::Range(a, b)),
            _ => Err(Error::InvalidFormat),
        }
    } else {
        Err(Error::InvalidFormat)
    }
}

/// What one node of a `config` element adds to the settings `so_far`: a
/// `rescan` whose first element is an `int` adds its integer, a `blank`
/// with an element adds the code points of its first element, and anything
/// else adds nothing.
pub open spec fn setting_of(node: XmlNodeView, so_far: ConfigView) -> Result<ConfigView, ErrorView> {
    match first_element(node.children) {
        None => Ok(so_far),
        Some(child) => if node.name == "rescan"@ && child.name == "int"@ {
            match expr_of(child) {
                Err(e) => Err(e),
                Ok(e) => match integer_in(e) {
                    Some(n) => Ok(ConfigView { rescans: so_far.rescans.push(n), ..so_far }),
                    None => Err(ErrorView::InvalidFormat),
                },
            }
        } else if node.name == "blank"@ {
            match blank_of(child) {
                Err(e) => Err(e),
                Ok(blank) => Ok(ConfigView { blanks: so_far.blanks.push(blank), ..so_far }),
            }
        } else {
            Ok(so_far)
        },
    }
}

/// The settings `so_far` and then what the nodes among `nodes` from item
/// `from` on add, in document order. The first that cannot be read decides.
pub open spec fn settings_from(nodes: Seq<XmlNodeView>, from: int, so_far: ConfigView) -> Result<
    ConfigView,
    ErrorView,
>
    decreases nodes.len() - from,
{
    if from < 0 || from >= nodes.len() {
        Ok(so_far)
    } else {
        match setting_of(nodes[from], so_far) {
            Err(e) => Err(e),
            Ok(next) => settings_from(nodes, from + 1, next),
        }
    }
}

/// The settings that the element `node` writes.
pub open spec fn config_of(node: XmlNodeView) -> Result<ConfigView, ErrorView> {
    settings_from(node.children, 0, ConfigView::empty())
}

/// Reads what one node of a `config` element adds to `config`.
fn parse_setting(node: &XmlNode, config: Config) -> (r: Result<Config, Error>)
    ensures
        outcome(r) == setting_of(node.deep_view(), config.deep_view()),
{
    let mut config = config;
    proof {
        lemma_node_views(node.children);
    }
    match find_first_element(&node.children) {
        None => {},
        Some(child) => {
            if text_eq(node.name.as_str(), "rescan") && text_eq(child.name.as_str(), "int") {
                let e = parse_expr(child)?;
                match integer_of(&e) {
                    Some(n) => {
                        config.rescans.push(n);
                    },
                    None => {
                        return Err(Error::InvalidFormat);
                    },
                }
            } else if text_eq(node.name.as_str(), "blank") {
                let blank = parse_blank(child)?;
                config.blanks.push(blank);
            }
        },
    }
    Ok(config)
}

/// Reads the settings that the element `node` writes.
pub fn parse_config_element(node: &XmlNode) -> (r: Result<Config, Error>)
    ensures
        outcome(r) == config_of(node.deep_view()),
{
    let mut config = Config::new();
    let ghost views = node.deep_view().children;
    proof {
        lemma_node_views(node.children);
    }
    let mut i: usize = 0;
    while i < node.children.len()
        invariant
            i <= node.children@.len(),
            views == node.children.deep_view(),
            settings_from(views, i as int, config.deep_view()) == config_of(node.deep_view()),
        decreases node.children@.len() - i,
    {
        let child = &node.children[i];
        config = parse_setting(child, config)?;
        i += 1;
    }
    Ok(config)
}

/// The families `so_far` and then those that the `family` elements among
/// `nodes` from item `from` on name, in document order. A `family` without
/// text is a format error.
pub open spec fn families_from(nodes: Seq<XmlNodeView>, from: int, so_far: Seq<Seq<char>>) -> Result<
    Seq<Seq<char>>,
    ErrorView,
>
    decreases nodes.len() - from,
{
    if from < 0 || from >= nodes.len() {
        Ok(so_far)
    } else if nodes[from].name == "family"@ {
        match text_in(nodes[from]) {
            Err(e) => Err(e),
            Ok(family) => families_from(nodes, from + 1, so_far.push(family)),
        }
    } else {
        families_from(nodes, from + 1, so_far)
    }
}

/// Reads the families that the `family` elements among `nodes` name, after
/// those of `so_far`.
fn parse_families(nodes: &Vec<XmlNode>, so_far: Vec<String>) -> (r: Result<Vec<String>, Error>)
    ensures
        outcome(r) == families_from(nodes.deep_view(), 0, so_far.deep_view()),
{
    let mut families = so_far;
    let ghost views = nodes.deep_view();
    let mut i: usize = 0;
    while i < nodes.len()
        invariant
            i <= nodes@.len(),
            views == nodes.deep_view(),
            families_from(views, i as int, families.deep_view()) == families_from(
                views,
                0,
                so_far.deep_view(),
            ),
        decreases nodes@.len() - i,
    {
        let child = &nodes[i];
        if text_eq(child.name.as_str(), "family") {
            let family = parse_text(child)?;
            let ghost before = families;
            families.push(family);
            proof {
                lemma_pushed(before, families, family);
            }
        }
        i += 1;
    }
    Ok(families)
}

/// What one node of an `alias` element adds to the alias `so_far`: a
/// `family` names the family that the alias is for, and `prefer`, `accept`
/// and `default` add the families that they hold to their list.
pub open spec fn alias_with(node: XmlNodeView, so_far: AliasView) -> Result<AliasView, ErrorView> {
    if node.name == "family"@ {
        match text_in(node) {
            Err(e) => Err(e),
            Ok(family) => Ok(AliasView { alias: family, ..so_far }),
        }
    } else if node.name == "prefer"@ {
        match families_from(node.children, 0, so_far.prefer) {
            Err(e) => Err(e),
            Ok(families) => Ok(AliasView { prefer: families, ..so_far }),
        }
    } else if node.name == "accept"@ {
        match families_from(node.children, 0, so_far.accept) {
            Err(e) => Err(e),
            Ok(families) => Ok(AliasView { accept: families, ..so_far }),
        }
    } else if node.name == "default"@ {
        match families_from(node.children, 0, so_far.default) {
            Err(e) => Err(e),
            Ok(families) => Ok(AliasView { default: families, ..so_far }),
        }
    } else {
        Ok(so_far)
    }
}

/// The alias `so_far` and then what the nodes among `nodes` from item
/// `from` on add, in document order.
pub open spec fn alias_from(nodes: Seq<XmlNodeView>, from: int, so_far: AliasView) -> Result<
    AliasView,
    ErrorView,
>
    decreases nodes.len() - from,
{
    if from < 0 || from >= nodes.len() {
        Ok(so_far)
    } else {
        match alias_with(nodes[from], so_far) {
            Err(e) => Err(e),
            Ok(next) => alias_from(nodes, from + 1, next),
        }
    }
}

impl AliasView {
    /// An alias for no family, with empty lists.
    pub open spec fn empty() -> AliasView {
        AliasView {
            alias: Seq::empty(),
            prefer: Seq::empty(),
            accept: Seq::empty(),
            default: Seq::empty(),
        }
    }
}

/// The alias that the element `node` writes.
pub open spec fn alias_of(node: XmlNodeView) -> Result<AliasView, ErrorView> {
    alias_from(node.children, 0, AliasView::empty())
}

/// Reads what one node of an `alias` element adds to `alias`.
fn parse_alias_part(node: &XmlNode, alias: Alias) -> (r: Result<Alias, Error>)
    ensures
        outcome(r) == alias_with(node.deep_view(), alias.deep_view()),
{
    let mut alias = alias;
    proof {
        lemma_node_views(node.children);
    }
    if text_eq(node.name.as_str(), "family") {
        alias.alias = parse_text(node)?;
    } else if text_eq(node.name.as_str(), "prefer") {
        alias.prefer = parse_families(&node.children, alias.prefer)?;
    } else if text_eq(node.name.as_str(), "accept") {
        alias.accept = parse_families(&node.children, alias.accept)?;
    } else if text_eq(node.name.as_str(), "default") {
        alias.default = parse_families(&node.children, alias.default)?;
    }
    Ok(alias)
}

/// Reads the alias that the element `node` writes.
pub fn parse_alias(node: &XmlNode) -> (r: Result<Alias, Error>)
    ensures
        outcome(r) == alias_of(node.deep_view()),
{
    let mut alias = Alias {
        alias: String::new(),
        prefer: Vec::new(),
        accept: Vec::new(),
        default: Vec::new(),
    };
    let ghost views = node.deep_view().children;
    proof {
        lemma_node_views(node.children);
        lemma_empty(alias.prefer);
        lemma_empty(alias.accept);
        lemma_empty(alias.default);
    }
    let mut i: usize = 0;
    while i < node.children.len()
        invariant
            i <= node.children@.len(),
            views == node.children.deep_view(),
            alias_from(views, i as int, alias.deep_view()) == alias_of(node.deep_view()),
        decreases node.children@.len() - i,
    {
        let child = &node.children[i];
        alias = parse_alias_part(child, alias)?;
        i += 1;
    }
    Ok(alias)
}

/// The properties `so_far` and then those that the `patelt` elements among
/// `nodes` from item `from` on write, in document order: each names its
/// property and holds its value.
pub open spec fn pattern_from(nodes: Seq<XmlNodeView>, from: int, so_far: Seq<PropertyView>) -> Result<
    Seq<PropertyView>,
    ErrorView,
>
    decreases nodes.len() - from,
{
    if from < 0 || from >= nodes.len() {
        Ok(so_far)
    } else if nodes[from].name == "patelt"@ {
        match Element::PatternElement.node_settings(nodes[from].attributes) {
            Err(e) => Err(e),
            Ok(settings) => match property_in(nodes[from], settings) {
                Err(e) => Err(e),
                Ok(property) => pattern_from(nodes, from + 1, so_far.push(property)),
            },
        }
    } else {
        pattern_from(nodes, from + 1, so_far)
    }
}

/// What the nodes among `nodes` from item `from` on select fonts by, after
/// `so_far` and in document order: a `glob` by the name of the file, a
/// `pattern` by properties. Other nodes are passed over.
pub open spec fn font_matches_from(
    nodes: Seq<XmlNodeView>,
    from: int,
    so_far: Seq<FontMatchView>,
) -> Result<Seq<FontMatchView>, ErrorView>
    decreases nodes.len() - from,
{
    if from < 0 || from >= nodes.len() {
        Ok(so_far)
    } else if nodes[from].name == "glob"@ {
        match text_in(nodes[from]) {
            Err(e) => Err(e),
            Ok(glob) => font_matches_from(nodes, from + 1, so_far.push(FontMatchView::Glob(glob))),
        }
    } else if nodes[from].name == "pattern"@ {
        match pattern_from(nodes[from].children, 0, Seq::empty()) {
            Err(e) => Err(e),
            Ok(pattern) => font_matches_from(
                nodes,
                from + 1,
                so_far.push(FontMatchView::Pattern(pattern)),
            ),
        }
    } else {
        font_matches_from(nodes, from + 1, so_far)
    }
}

/// What one node of a `selectfont` element adds to the selection `so_far`:
/// an `acceptfont` adds to the fonts to take in, a `rejectfont` to the fonts
/// to leave out.
pub open spec fn selection_with(node: XmlNodeView, so_far: SelectFontView) -> Result<
    SelectFontView,
    ErrorView,
> {
    if node.name == "acceptfont"@ {
        match font_matches_from(node.children, 0, so_far.accepts) {
            Err(e) => Err(e),
            Ok(accepts) => Ok(SelectFontView { accepts, ..so_far }),
        }
    } else if node.name == "rejectfont"@ {
        match font_matches_from(node.children, 0, so_far.rejects) {
            Err(e) => Err(e),
            Ok(rejects) => Ok(SelectFontView { rejects, ..so_far }),
        }
    } else {
        Ok(so_far)
    }
}

/// The selection `so_far` and then what the nodes among `nodes` from item
/// `from` on add, in document order.
pub open spec fn selection_from(nodes: Seq<XmlNodeView>, from: int, so_far: SelectFontView) -> Result<
    SelectFontView,
    ErrorView,
>
    decreases nodes.len() - from,
{
    if from < 0 || from >= nodes.len() {
        Ok(so_far)
    } else {
        match selection_with(nodes[from], so_far) {
            Err(e) => Err(e),
            Ok(next) => selection_from(nodes, from + 1, next),
        }
    }
}

/// The selection of fonts that the element `node` writes.
pub open spec fn select_font_of(node: XmlNodeView) -> Result<SelectFontView, ErrorView> {
    selection_from(
        node.children,
        0,
        SelectFontView { rejects: Seq::empty(), accepts: Seq::empty() },
    )
}

/// Reads the properties that the `patelt` elements among `nodes` write.
fn parse_pattern(nodes: &Vec<XmlNode>) -> (r: Result<Vec<Property>, Error>)
    ensures
        outcome(r) == pattern_from(nodes.deep_view(), 0, Seq::empty()),
{
    let mut pattern: Vec<Property> = Vec::new();
    let ghost views = nodes.deep_view();
    proof {
        lemma_empty(pattern);
    }
    let mut i: usize = 0;
    while i < nodes.len()
        invariant
            i <= nodes@.len(),
            views == nodes.deep_view(),
            pattern_from(views, i as int, pattern.deep_view()) == pattern_from(
                views,
                0,
                Seq::empty(),
            ),
        decreases nodes@.len() - i,
    {
        let child = &nodes[i];
        if text_eq(child.name.as_str(), "patelt") {
            let settings = Element::PatternElement.read_node_settings(&child.attributes)?;
            let property = crate::parts::parse_property(child, &settings)?;
            let ghost before = pattern;
            let ghost pushed = property;
            pattern.push(property);
            proof {
                lemma_pushed(before, pattern, pushed);
            }
        }
        i += 1;
    }
    Ok(pattern)
}

/// Reads what the nodes among `nodes` select fonts by, after `so_far`.
fn parse_font_matches(nodes: &Vec<XmlNode>, so_far: Vec<FontMatch>) -> (r: Result<
    Vec<FontMatch>,
    Error,
>)
    ensures
        outcome(r) == font_matches_from(nodes.deep_view(), 0, so_far.deep_view()),
{
    let mut matches = so_far;
    let ghost views = nodes.deep_view();
    let mut i: usize = 0;
    while i < nodes.len()
        invariant
            i <= nodes@.len(),
            views == nodes.deep_view(),
            font_matches_from(views, i as int, matches.deep_view()) == font_matches_from(
                views,
                0,
                so_far.deep_view(),
            ),
        decreases nodes@.len() - i,
    {
        let child = &nodes[i];
        if text_eq(child.name.as_str(), "glob") {
            let item = FontMatch::Glob(parse_text(child)?);
            let ghost before = matches;
            let ghost pushed = item;
            matches.push(item);
            proof {
                lemma_pushed(before, matches, pushed);
            }
        } else if text_eq(child.name.as_str(), "pattern") {
            proof {
                lemma_node_views(child.children);
            }
            let item = FontMatch::Pattern(parse_pattern(&child.children)?);
            let ghost before = matches;
            let ghost pushed = item;
            matches.push(item);
            proof {
                lemma_pushed(before, matches, pushed);
            }
        }
        i += 1;
    }
    Ok(matches)
}

/// Reads what one node of a `selectfont` element adds to `selection`.
fn parse_selection_part(node: &XmlNode, selection: SelectFont) -> (r: Result<SelectFont, Error>)
    ensures
        outcome(r) == selection_with(node.deep_view(), selection.deep_view()),
{
    let mut selection = selection;
    proof {
        lemma_node_views(node.children);
    }
    if text_eq(node.name.as_str(), "acceptfont") {
        selection.accepts = parse_font_matches(&node.children, selection.accepts)?;
    } else if text_eq(node.name.as_str(), "rejectfont") {
        selection.rejects = parse_font_matches(&node.children, selection.rejects)?;
    }
    Ok(selection)
}

/// Reads the selection of fonts that the element `node` writes.
pub fn parse_select_font(node: &XmlNode) -> (r: Result<SelectFont, Error>)
    ensures
        outcome(r) == select_font_of(node.deep_view()),
{
    let mut selection = SelectFont { rejects: Vec::new(), accepts: Vec::new() };
    let ghost views = node.deep_view().children;
    proof {
        lemma_node_views(node.children);
        lemma_empty(selection.rejects);
        lemma_empty(selection.accepts);
    }
    let mut i: usize = 0;
    while i < node.children.len()
        invariant
            i <= node.children@.len(),
            views == node.children.deep_view(),
            selection_from(views, i as int, selection.deep_view()) == select_font_of(
                node.deep_view(),
            ),
        decreases node.children@.len() - i,
    {
        let child = &node.children[i];
        selection = parse_selection_part(child, selection)?;
        i += 1;
    }
    Ok(selection)
}

} // verus!
