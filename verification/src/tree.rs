//! The tree of a document, as a tree builder hands it out whole.
//!
//! The builder is the work of the `roxmltree` crate. This module holds the
//! nodes of its tree as plain values: what a node is, its name, its
//! attributes, its text and its children.
//!
//! A document may declare its type, which must be that of font
//! configurations, but no entities: the builder is not handed a text in
//! which `<!ENTITY` stands anywhere.

use vstd::prelude::*;
use crate::error::{Error, ErrorView};
use crate::prolog::{declares_other_type, has_other_doctype};
use crate::text::{bytes_of, contains_bytes, occurs};
use crate::views::outcome;

verus! {

/// An attribute of an element, with the escapes of its value replaced.
#[derive(Clone, Debug, PartialEq, Eq)]
pub struct XmlAttribute {
    /// The name, without prefix.
    pub name: String,
    pub value: String,
}

/// What an [`XmlAttribute`] holds.
pub struct XmlAttributeView {
    pub name: Seq<char>,
    pub value: Seq<char>,
}

impl DeepView for XmlAttribute {
    type V = XmlAttributeView;

    open spec fn deep_view(&self) -> XmlAttributeView {
        XmlAttributeView { name: self.name@, value: self.value@ }
    }
}

/// A node of a document: an element, or text, a comment or a processing
/// instruction between elements.
#[derive(Debug, PartialEq, Eq)]
pub struct XmlNode {
    /// Whether the node is an element.
    pub element: bool,
    /// The name of an element, without prefix; empty for other nodes.
    pub name: String,
    /// The attributes of an element, in document order.
    pub attributes: Vec<XmlAttribute>,
    /// For text and comments, their text. For an element, the text of its
    /// first child where that child is text.
    pub text: Option<String>,
    /// The nodes inside an element, in document order.
    pub children: Vec<XmlNode>,
}

/// What an [`XmlNode`] holds.
pub struct XmlNodeView {
    pub element: bool,
    pub name: Seq<char>,
    pub attributes: Seq<XmlAttributeView>,
    pub text: Option<Seq<char>>,
    pub children: Seq<XmlNodeView>,
}

/// The views of the nodes `nodes`, in order.
pub open spec fn node_views(nodes: Seq<XmlNode>) -> Seq<XmlNodeView>
    decreases nodes, 1int,
{
    Seq::new(
        nodes.len(),
        |i: int|
            if 0 <= i < nodes.len() {
                node_view(nodes[i])
            } else {
                arbitrary()
            },
    )
}

/// The view of the node `node`.
pub open spec fn node_view(node: XmlNode) -> XmlNodeView
    decreases node, 0int,
{
    XmlNodeView {
        element: node.element,
        name: node.name@,
        attributes: node.attributes.deep_view(),
        text: node.text.deep_view(),
        children: node_views(node.children@),
    }
}

impl DeepView for XmlNode {
    type V = XmlNodeView;

    open spec fn deep_view(&self) -> XmlNodeView {
        node_view(*self)
    }
}

/// The view of a vector of nodes is the views of its items.
pub proof fn lemma_node_views(nodes: Vec<XmlNode>)
    ensures
        nodes.deep_view() == node_views(nodes@),
{
}

/// The tree of one document, as the tree builder made it.
#[verifier::external_body]
pub struct XmlTree<'input> {
    inner: roxmltree::Document<'input>,
}

/// A node of a tree of the tree builder.
#[verifier::external_type_specification]
#[verifier::external_body]
pub struct ExNode<'a, 'input: 'a>(roxmltree::Node<'a, 'input>);

/// The root element of the tree that the text `text` of a document makes,
/// with all that is below it, or the builder's report where the text makes
/// no tree.
pub uninterp spec fn tree_of(text: Seq<char>) -> Result<XmlNodeView, Seq<char>>;

/// The root element of the tree `tree`, with all that is below it.
pub uninterp spec fn root_of(tree: XmlTree) -> XmlNodeView;

/// What the node `node` of a tree holds, with all that is below it.
pub uninterp spec fn held(node: roxmltree::Node) -> XmlNodeView;

/// Whether the text may declare an entity: whether `<!ENTITY` stands
/// anywhere in it. Only there does the builder read a declaration of one.
pub open spec fn declares_entity(text: Seq<char>) -> bool {
    occurs(bytes_of(text), bytes_of("<!ENTITY"@))
}

/// `roxmltree::Document::parse_with_options`, document type declarations
/// allowed: builds the tree of a document, or hands the builder's report.
/// Text that may declare an entity is left out: the builder reads the value
/// of an entity as markup of its own, and end tags in it can take the
/// builder above the root of the tree, where it panics.
#[verifier::external_body]
fn parse_tree<'input>(text: &'input str) -> (r: Result<XmlTree<'input>, String>)
    requires
        !declares_entity(text@),
    ensures
        match r {
            Ok(tree) => tree_of(text@) == Ok::<XmlNodeView, Seq<char>>(root_of(tree)),
            Err(report) => tree_of(text@) == Err::<XmlNodeView, Seq<char>>(report@),
        },
{
    let options = roxmltree::ParsingOptions { allow_dtd: true };
    match roxmltree::Document::parse_with_options(text, options) {
        Ok(inner) => Ok(XmlTree { inner }),
        Err(e) => Err(e.to_string()),
    }
}

/// `roxmltree::Document::root_element`: the root element of a tree.
#[verifier::external_body]
fn root_element<'a, 'input>(tree: &'a XmlTree<'input>) -> (r: roxmltree::Node<
    'a,
    'input,
>)
    ensures
        held(r) == root_of(*tree),
{
    tree.inner.root_element()
}

/// `roxmltree::Node::is_element`: whether the node is an element.
#[verifier::external_body]
fn node_is_element(node: roxmltree::Node) -> (r: bool)
    ensures
        r == held(node).element,
{
    node.is_element()
}

/// `roxmltree::Node::tag_name`: the name of an element without its prefix,
/// and nothing for any other node.
#[verifier::external_body]
fn node_name(node: roxmltree::Node) -> (r: String)
    ensures
        r@ == held(node).name,
{
    node.tag_name().name().to_string()
}

/// `roxmltree::Node::attributes`: the attributes of an element in document
/// order, each with its name without prefix and its value.
#[verifier::external_body]
fn node_attributes(node: roxmltree::Node) -> (r: Vec<XmlAttribute>)
    ensures
        r.deep_view() == held(node).attributes,
{
    node.attributes().iter().map(
        |a| XmlAttribute { name: a.name().to_string(), value: a.value().to_string() },
    ).collect()
}

/// `roxmltree::Node::text`: the text of a text node or a comment, and for an
/// element the text of its first node where that node is text.
#[verifier::external_body]
fn node_text(node: roxmltree::Node) -> (r: Option<String>)
    ensures
        r.deep_view() == held(node).text,
{
    node.text().map(str::to_string)
}

/// `roxmltree::Node::children`: the nodes inside a node, in document
/// order.
#[verifier::external_body]
fn node_children<'a, 'input>(node: roxmltree::Node<'a, 'input>) -> (r: Vec<
    roxmltree::Node<'a, 'input>,
>)
    ensures
        r@.len() == held(node).children.len(),
        forall|i: int| 0 <= i < r@.len() ==> held(#[trigger] r@[i]) == held(node).children[i],
{
    node.children().collect()
}

/// Copies a node of a tree out, with all that is below it.
fn owned_node(node: roxmltree::Node) -> (r: XmlNode)
    ensures
        r.deep_view() == held(node),
    decreases held(node),
{
    let below = node_children(node);
    let mut children: Vec<XmlNode> = Vec::new();
    let mut i: usize = 0;
    while i < below.len()
        invariant
            i <= below@.len(),
            below@.len() == held(node).children.len(),
            forall|k: int| 0 <= k < below@.len() ==> held(#[trigger] below@[k]) == held(
                node,
            ).children[k],
            children@.len() == i,
            forall|k: int| 0 <= k < i ==> node_view(#[trigger] children@[k]) == held(
                node,
            ).children[k],
        decreases below@.len() - i,
    {
        let child = owned_node(below[i]);
        children.push(child);
        i += 1;
    }
    let r = XmlNode {
        element: node_is_element(node),
        name: node_name(node),
        attributes: node_attributes(node),
        text: node_text(node),
        children,
    };
    assert(r.deep_view().children =~= held(node).children);
    r
}

/// The root element of the document that `text` writes, with all that is
/// below it. Text that may declare an entity is refused as markup that the
/// library does not take, a document that declares another type than that
/// of font configurations is refused for that, and text that makes no tree
/// is refused as markup again.
pub open spec fn root_in(text: Seq<char>) -> Result<XmlNodeView, ErrorView> {
    if declares_entity(text) {
        Err(ErrorView::Tree("entities are not taken"@))
    } else if declares_other_type(text) {
        Err(ErrorView::UnmatchedDocType)
    } else {
        match tree_of(text) {
            Err(report) => Err(ErrorView::Tree(report)),
            Ok(root) => Ok(root),
        }
    }
}

/// Builds the tree of the document that `text` writes and copies its root
/// element out.
pub fn read_root(text: &str) -> (r: Result<XmlNode, Error>)
    ensures
        outcome(r) == root_in(text@),
{
    if contains_bytes(text.as_bytes(), "<!ENTITY".as_bytes()) {
        return Err(Error::Tree(String::from_str("entities are not taken")));
    }
    if has_other_doctype(text) {
        return Err(Error::UnmatchedDocType);
    }
    match parse_tree(text) {
        Err(report) => Err(Error::Tree(report)),
        Ok(tree) => Ok(owned_node(root_element(&tree))),
    }
}

} // verus!
