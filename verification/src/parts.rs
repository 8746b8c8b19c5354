//! The elements of a document's body, read from the nodes of its tree.

use vstd::prelude::*;
use crate::attributes::{Element, SettingsView};
use crate::dirs::{
    CacheDir, CacheDirView, Dir, DirView, Include, IncludeView, RemapDir, RemapDirView,
};
use crate::error::{Error, ErrorView};
use crate::expressions::{expr_of, parse_expr, text_in};
use crate::property::{Property, PropertyView};
use crate::rules::{Edit, EditView, Match, MatchView, Test, TestView};
use crate::text::text_eq;
use crate::tree::{lemma_node_views, XmlNode, XmlNodeView};
use crate::views::{lemma_empty, lemma_pushed, outcome};

verus! {

/// The first element among `nodes` from item `from` on, if there is one.
pub open spec fn first_element_from(nodes: Seq<XmlNodeView>, from: int) -> Option<XmlNodeView>
    decreases nodes.len() - from,
{
    if from < 0 || from >= nodes.len() {
        None
    } else if nodes[from].element {
        Some(nodes[from])
    } else {
        first_element_from(nodes, from + 1)
    }
}

/// The first element among `nodes`, if there is one.
pub open spec fn first_element(nodes: Seq<XmlNodeView>) -> Option<XmlNodeView> {
    first_element_from(nodes, 0)
}

/// Finds the first element among `nodes`.
pub fn find_first_element(nodes: &Vec<XmlNode>) -> (r: Option<&XmlNode>)
    ensures
        r.deep_view() == first_element(nodes.deep_view()),
{
    let ghost views = nodes.deep_view();
    let mut i: usize = 0;
    while i < nodes.len()
        invariant
            i <= nodes@.len(),
            views == nodes.deep_view(),
            first_element_from(views, i as int) == first_element(views),
        decreases nodes@.len() - i,
    {
        if nodes[i].element {
            return Some(&nodes[i]);
        }
        i += 1;
    }
    None
}

/// The property that an element with the settings `settings` holds: the
/// expression of its first element, made into a property of the kind that
/// the settings name. An element that holds no element is a format error.
pub open spec fn property_in(node: XmlNodeView, settings: SettingsView) -> Result<
    PropertyView,
    ErrorView,
> {
    match first_element(node.children) {
        None => Err(ErrorView::InvalidFormat),
        Some(child) => match expr_of(child) {
            Err(e) => Err(e),
            Ok(value) => settings.kind.property_of(value),
        },
    }
}

/// Reads the property that the element `node` holds.
pub(crate) fn parse_property(node: &XmlNode, settings: &crate::attributes::Settings) -> (r: Result<
    Property,
    Error,
>)
    ensures
        outcome(r) == property_in(node.deep_view(), settings.deep_view()),
{
    proof {
        lemma_node_views(node.children);
    }
    match find_first_element(&node.children) {
        None => Err(Error::InvalidFormat),
        Some(child) => settings.kind.make_property(parse_expr(child)?),
    }
}

/// The test that the element `node` writes: its settings from the
/// attributes, then its property.
pub open spec fn test_of(node: XmlNodeView) -> Result<TestView, ErrorView> {
    match Element::Test.node_settings(node.attributes) {
        Err(e) => Err(e),
        Ok(settings) => match property_in(node, settings) {
            Err(e) => Err(e),
            Ok(value) => Ok(
                TestView {
                    qual: settings.qual,
                    target: settings.test_target,
                    compare: settings.compare,
                    value,
                },
            ),
        },
    }
}

/// The edit that the element `node` writes: its settings from the
/// attributes, then its property.
pub open spec fn edit_of(node: XmlNodeView) -> Result<EditView, ErrorView> {
    match Element::Edit.node_settings(node.attributes) {
        Err(e) => Err(e),
        Ok(settings) => match property_in(node, settings) {
            Err(e) => Err(e),
            Ok(value) => Ok(EditView { mode: settings.mode, binding: settings.binding, value }),
        },
    }
}

/// Reads the test that the element `node` writes.
pub fn parse_test(node: &XmlNode) -> (r: Result<Test, Error>)
    ensures
        outcome(r) == test_of(node.deep_view()),
{
    let settings = Element::Test.read_node_settings(&node.attributes)?;
    let value = parse_property(node, &settings)?;
    Ok(Test { qual: settings.qual, target: settings.test_target, compare: settings.compare, value })
}

/// Reads the edit that the element `node` writes.
pub fn parse_edit(node: &XmlNode) -> (r: Result<Edit, Error>)
    ensures
        outcome(r) == edit_of(node.deep_view()),
{
    let settings = Element::Edit.read_node_settings(&node.attributes)?;
    let value = parse_property(node, &settings)?;
    Ok(Edit { mode: settings.mode, binding: settings.binding, value })
}

/// The match rule that holds `so_far` and then the tests and edits among
/// `nodes` from item `from` on, in document order. Other nodes are passed
/// over. The first test or edit that cannot be read decides.
pub open spec fn rule_from(nodes: Seq<XmlNodeView>, from: int, so_far: MatchView) -> Result<
    MatchView,
    ErrorView,
>
    decreases nodes.len() - from,
{
    if from < 0 || from >= nodes.len() {
        Ok(so_far)
    } else if nodes[from].name == "test"@ {
        match test_of(nodes[from]) {
            Err(e) => Err(e),
            Ok(test) => rule_from(
                nodes,
                from + 1,
                MatchView { tests: so_far.tests.push(test), ..so_far },
            ),
        }
    } else if nodes[from].name == "edit"@ {
        match edit_of(nodes[from]) {
            Err(e) => Err(e),
            Ok(edit) => rule_from(
                nodes,
                from + 1,
                MatchView { edits: so_far.edits.push(edit), ..so_far },
            ),
        }
    } else {
        rule_from(nodes, from + 1, so_far)
    }
}

/// The match rule that the element `node` writes: its target from the
/// attributes, then its tests and edits in document order.
pub open spec fn match_of(node: XmlNodeView) -> Result<MatchView, ErrorView> {
    match Element::Match.node_settings(node.attributes) {
        Err(e) => Err(e),
        Ok(settings) => rule_from(
            node.children,
            0,
            MatchView { target: settings.match_target, ..MatchView::empty() },
        ),
    }
}

/// Reads the match rule that the element `node` writes.
pub fn parse_match(node: &XmlNode) -> (r: Result<Match, Error>)
    ensures
        outcome(r) == match_of(node.deep_view()),
{
    let settings = Element::Match.read_node_settings(&node.attributes)?;
    let mut rule = Match { target: settings.match_target, tests: Vec::new(), edits: Vec::new() };
    let ghost views = node.deep_view().children;
    proof {
        lemma_node_views(node.children);
        lemma_empty(rule.tests);
        lemma_empty(rule.edits);
    }
    let mut i: usize = 0;
    while i < node.children.len()
        invariant
            i <= node.children@.len(),
            views == node.children.deep_view(),
            rule_from(views, i as int, rule.deep_view()) == match_of(node.deep_view()),
        decreases node.children@.len() - i,
    {
        let child = &node.children[i];
        if text_eq(child.name.as_str(), "test") {
            let test = parse_test(child)?;
            let ghost before = rule.tests;
            let ghost pushed = test;
            rule.tests.push(test);
            proof {
                lemma_pushed(before, rule.tests, pushed);
            }
        } else if text_eq(child.name.as_str(), "edit") {
            let edit = parse_edit(child)?;
            let ghost before = rule.edits;
            let ghost pushed = edit;
            rule.edits.push(edit);
            proof {
                lemma_pushed(before, rule.edits, pushed);
            }
        }
        i += 1;
    }
    Ok(rule)
}

/// The description that the element `node` writes: the text of its first
/// node, or nothing.
pub open spec fn description_of(node: XmlNodeView) -> Seq<char> {
    if node.children.len() > 0 {
        match node.children[0].text {
            Some(text) => text,
            None => Seq::empty(),
        }
    } else {
        Seq::empty()
    }
}

/// Reads the description that the element `node` writes.
pub fn parse_description(node: &XmlNode) -> (r: String)
    ensures
        r@ == description_of(node.deep_view()),
{
    proof {
        lemma_node_views(node.children);
    }
    if node.children.len() > 0 {
        match &node.children[0].text {
            Some(text) => text.clone(),
            None => String::new(),
        }
    } else {
        String::new()
    }
}

/// The font directory that the element `node` writes: its settings from
/// the attributes, then its text, which must be there.
pub open spec fn dir_of(node: XmlNodeView) -> Result<DirView, ErrorView> {
    match Element::Dir.node_settings(node.attributes) {
        Err(e) => Err(e),
        Ok(settings) => match text_in(node) {
            Err(e) => Err(e),
            Ok(path) => Ok(DirView { prefix: settings.prefix, salt: settings.salt, path }),
        },
    }
}

/// The cache directory that the element `node` writes.
pub open spec fn cache_dir_of(node: XmlNodeView) -> Result<CacheDirView, ErrorView> {
    match Element::CacheDir.node_settings(node.attributes) {
        Err(e) => Err(e),
        Ok(settings) => match text_in(node) {
            Err(e) => Err(e),
            Ok(path) => Ok(CacheDirView { prefix: settings.prefix, path }),
        },
    }
}

/// The include that the element `node` writes.
pub open spec fn include_of(node: XmlNodeView) -> Result<IncludeView, ErrorView> {
    match Element::Include.node_settings(node.attributes) {
        Err(e) => Err(e),
        Ok(settings) => match text_in(node) {
            Err(e) => Err(e),
            Ok(path) => Ok(
                IncludeView {
                    prefix: settings.prefix,
                    ignore_missing: settings.ignore_missing,
                    path,
                },
            ),
        },
    }
}

/// The remapped font directory that the element `node` writes.
pub open spec fn remap_dir_of(node: XmlNodeView) -> Result<RemapDirView, ErrorView> {
    match Element::RemapDir.node_settings(node.attributes) {
        Err(e) => Err(e),
        Ok(settings) => match text_in(node) {
            Err(e) => Err(e),
            Ok(path) => Ok(
                RemapDirView {
                    prefix: settings.prefix,
                    as_path: settings.as_path,
                    salt: settings.salt,
                    path,
                },
            ),
        },
    }
}

/// Reads the text of a node, which must have one.
pub fn parse_text(node: &XmlNode) -> (r: Result<String, Error>)
    ensures
        outcome(r) == text_in(node.deep_view()),
{
    match &node.text {
        Some(text) => Ok(text.clone()),
        None => Err(Error::InvalidFormat),
    }
}

/// Reads the font directory that the element `node` writes.
pub fn parse_dir(node: &XmlNode) -> (r: Result<Dir, Error>)
    ensures
        outcome(r) == dir_of(node.deep_view()),
{
    let settings = Element::Dir.read_node_settings(&node.attributes)?;
    let path = parse_text(node)?;
    Ok(Dir { prefix: settings.prefix, salt: settings.salt, path })
}

/// Reads the cache directory that the element `node` writes.
pub fn parse_cache_dir(node: &XmlNode) -> (r: Result<CacheDir, Error>)
    ensures
        outcome(r) == cache_dir_of(node.deep_view()),
{
    let settings = Element::CacheDir.read_node_settings(&node.attributes)?;
    let path = parse_text(node)?;
    Ok(CacheDir { prefix: settings.prefix, path })
}

/// Reads the include that the element `node` writes.
pub fn parse_include(node: &XmlNode) -> (r: Result<Include, Error>)
    ensures
        outcome(r) == include_of(node.deep_view()),
{
    let settings = Element::Include.read_node_settings(&node.attributes)?;
    let path = parse_text(node)?;
    Ok(Include { prefix: settings.prefix, ignore_missing: settings.ignore_missing, path })
}

/// Reads the remapped font directory that the element `node` writes.
pub fn parse_remap_dir(node: &XmlNode) -> (r: Result<RemapDir, Error>)
    ensures
        outcome(r) == remap_dir_of(node.deep_view()),
{
    let settings = Element::RemapDir.read_node_settings(&node.attributes)?;
    let path = parse_text(node)?;
    Ok(RemapDir { prefix: settings.prefix, as_path: settings.as_path, salt: settings.salt, path })
}

} // verus!
