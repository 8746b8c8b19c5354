//! Reading a whole document from its tree.

use vstd::prelude::*;
use crate::document::{ConfigPart, ConfigPartView, Document, DocumentView};
use crate::error::{Error, ErrorView};
use crate::parts::{
    cache_dir_of, description_of, dir_of, include_of, match_of, parse_cache_dir, parse_description,
    parse_dir, parse_include, parse_match, parse_remap_dir, remap_dir_of,
};
use crate::settings::{
    alias_of, config_of, parse_alias, parse_config_element, parse_select_font, select_font_of,
};
use crate::text::text_eq;
use crate::tree::{lemma_node_views, read_root, root_in, XmlNode, XmlNodeView};
use crate::views::{lemma_empty, lemma_pushed, outcome};

verus! {

/// The part of a document that the element `node` of its body writes, or
/// `None` for an element that the library does not know: such an element is
/// passed over, so that documents may hold what later versions define.
#[verifier::opaque]
pub open spec fn part_of(node: XmlNodeView) -> Result<Option<ConfigPartView>, ErrorView> {
    if node.name == "description"@ {
        Ok(Some(ConfigPartView::Description(description_of(node))))
    } else if node.name == "selectfont"@ {
        match select_font_of(node) {
            Ok(v) => Ok(Some(ConfigPartView::SelectFont(v))),
            Err(e) => Err(e),
        }
    } else if node.name == "dir"@ {
        match dir_of(node) {
            Ok(v) => Ok(Some(ConfigPartView::Dir(v))),
            Err(e) => Err(e),
        }
    } else if node.name == "cachedir"@ {
        match cache_dir_of(node) {
            Ok(v) => Ok(Some(ConfigPartView::CacheDir(v))),
            Err(e) => Err(e),
        }
    } else if node.name == "include"@ {
        match include_of(node) {
            Ok(v) => Ok(Some(ConfigPartView::Include(v))),
            Err(e) => Err(e),
        }
    } else if node.name == "match"@ {
        match match_of(node) {
            Ok(v) => Ok(Some(ConfigPartView::Match(v))),
            Err(e) => Err(e),
        }
    } else if node.name == "config"@ {
        match config_of(node) {
            Ok(v) => Ok(Some(ConfigPartView::Config(v))),
            Err(e) => Err(e),
        }
    } else if node.name == "alias"@ {
        match alias_of(node) {
            Ok(v) => Ok(Some(ConfigPartView::Alias(v))),
            Err(e) => Err(e),
        }
    } else if node.name == "remap-dir"@ {
        match remap_dir_of(node) {
            Ok(v) => Ok(Some(ConfigPartView::RemapDir(v))),
            Err(e) => Err(e),
        }
    } else if node.name == "reset-dirs"@ {
        Ok(Some(ConfigPartView::ResetDirs))
    } else {
        Ok(None)
    }
}

/// Reads the part of a document that the element `node` of its body writes.
pub fn parse_part(node: &XmlNode) -> (r: Result<Option<ConfigPart>, Error>)
    ensures
        outcome(r) == part_of(node.deep_view()),
{
    reveal(part_of);
    let name = node.name.as_str();
    if text_eq(name, "description") {
        Ok(Some(ConfigPart::Description(parse_description(node))))
    } else if text_eq(name, "selectfont") {
        Ok(Some(ConfigPart::SelectFont(parse_select_font(node)?)))
    } else if text_eq(name, "dir") {
        Ok(Some(ConfigPart::Dir(parse_dir(node)?)))
    } else if text_eq(name, "cachedir") {
        Ok(Some(ConfigPart::CacheDir(parse_cache_dir(node)?)))
    } else if text_eq(name, "include") {
        Ok(Some(ConfigPart::Include(parse_include(node)?)))
    } else if text_eq(name, "match") {
        Ok(Some(ConfigPart::Match(parse_match(node)?)))
    } else if text_eq(name, "config") {
        Ok(Some(ConfigPart::Config(parse_config_element(node)?)))
    } else if text_eq(name, "alias") {
        Ok(Some(ConfigPart::Alias(parse_alias(node)?)))
    } else if text_eq(name, "remap-dir") {
        Ok(Some(ConfigPart::RemapDir(parse_remap_dir(node)?)))
    } else if text_eq(name, "reset-dirs") {
        Ok(Some(ConfigPart::ResetDirs))
    } else {
        Ok(None)
    }
}

/// The parts of one document in document order, up to the first element
/// that could not be read, and the error of that element if there is one.
#[derive(Debug)]
pub struct ConfigParts {
    pub parts: Vec<ConfigPart>,
    pub failure: Option<Error>,
}

/// What a [`ConfigParts`] holds.
pub struct ConfigPartsView {
    pub parts: Seq<ConfigPartView>,
    pub failure: Option<ErrorView>,
}

impl DeepView for ConfigParts {
    type V = ConfigPartsView;

    open spec fn deep_view(&self) -> ConfigPartsView {
        ConfigPartsView { parts: self.parts.deep_view(), failure: self.failure.deep_view() }
    }
}

/// The parts `so_far` and then those that the elements among `nodes` from
/// item `from` on write, in document order, up to the first element that
/// cannot be read. Nodes that are no elements are passed over.
pub open spec fn parts_from(
    nodes: Seq<XmlNodeView>,
    from: int,
    so_far: Seq<ConfigPartView>,
) -> ConfigPartsView
    decreases nodes.len() - from,
{
    if from < 0 || from >= nodes.len() {
        ConfigPartsView { parts: so_far, failure: None }
    } else if !nodes[from].element {
        parts_from(nodes, from + 1, so_far)
    } else {
        match part_of(nodes[from]) {
            Err(e) => ConfigPartsView { parts: so_far, failure: Some(e) },
            Ok(None) => parts_from(nodes, from + 1, so_far),
            Ok(Some(part)) => parts_from(nodes, from + 1, so_far.push(part)),
        }
    }
}

/// The parts of the document with the root element `root`, which must be a
/// `fontconfig` element.
pub open spec fn config_parts(root: XmlNodeView) -> Result<ConfigPartsView, ErrorView> {
    if root.name == "fontconfig"@ {
        Ok(parts_from(root.children, 0, Seq::empty()))
    } else {
        Err(ErrorView::NoFontconfig)
    }
}

/// Reads the parts of the document with the root element `root`: one part
/// for each known element of the body, in document order.
pub fn parse_config(root: &XmlNode) -> (r: Result<ConfigParts, Error>)
    ensures
        outcome(r) == config_parts(root.deep_view()),
{
    if !text_eq(root.name.as_str(), "fontconfig") {
        return Err(Error::NoFontconfig);
    }
    let mut parts: Vec<ConfigPart> = Vec::new();
    let ghost views = root.deep_view().children;
    proof {
        lemma_node_views(root.children);
        lemma_empty(parts);
    }
    let mut i: usize = 0;
    while i < root.children.len()
        invariant
            i <= root.children@.len(),
            views == root.children.deep_view(),
            root.name@ == "fontconfig"@,
            views == root.deep_view().children,
            parts_from(views, i as int, parts.deep_view()) == parts_from(views, 0, Seq::empty()),
        decreases root.children@.len() - i,
    {
        let child = &root.children[i];
        if child.element {
            match parse_part(child) {
                Err(e) => {
                    return Ok(ConfigParts { parts, failure: Some(e) });
                },
                Ok(None) => {},
                Ok(Some(part)) => {
                    let ghost before = parts;
                    let ghost pushed = part;
                    parts.push(part);
                    proof {
                        lemma_pushed(before, parts, pushed);
                    }
                },
            }
        }
        i += 1;
    }
    Ok(ConfigParts { parts, failure: None })
}

/// The parts of the document that `text` writes, or the markup error of
/// text that makes no tree.
pub open spec fn text_parts(text: Seq<char>) -> Result<ConfigPartsView, ErrorView> {
    match root_in(text) {
        Err(e) => Err(e),
        Ok(root) => config_parts(root),
    }
}

/// Reads the parts of the document that `text` writes.
pub fn parse_config_text(text: &str) -> (r: Result<ConfigParts, Error>)
    ensures
        outcome(r) == text_parts(text@),
{
    let root = read_root(text)?;
    parse_config(&root)
}

/// The document `so_far` with the part `part` added: a description or
/// scalar settings replace what was there, a directory, an include or a
/// match rule comes last in its list, and the parts that a document does not
/// hold change nothing.
pub open spec fn with_part(so_far: DocumentView, part: ConfigPartView) -> DocumentView {
    match part {
        ConfigPartView::Description(text) => DocumentView { description: text, ..so_far },
        ConfigPartView::Dir(dir) => DocumentView { dirs: so_far.dirs.push(dir), ..so_far },
        ConfigPartView::CacheDir(dir) => DocumentView {
            cache_dirs: so_far.cache_dirs.push(dir),
            ..so_far
        },
        ConfigPartView::Include(dir) => DocumentView {
            includes: so_far.includes.push(dir),
            ..so_far
        },
        ConfigPartView::Match(rule) => DocumentView {
            matches: so_far.matches.push(rule),
            ..so_far
        },
        ConfigPartView::Config(config) => DocumentView { config, ..so_far },
        _ => so_far,
    }
}

/// The document `so_far` and then the parts that the elements among
/// `nodes` from item `from` on write, in document order. The first element
/// that cannot be read decides, and then there is no document.
pub open spec fn document_from(nodes: Seq<XmlNodeView>, from: int, so_far: DocumentView) -> Result<
    DocumentView,
    ErrorView,
>
    decreases nodes.len() - from,
{
    if from < 0 || from >= nodes.len() {
        Ok(so_far)
    } else if !nodes[from].element {
        document_from(nodes, from + 1, so_far)
    } else {
        match part_of(nodes[from]) {
            Err(e) => Err(e),
            Ok(None) => document_from(nodes, from + 1, so_far),
            Ok(Some(part)) => document_from(nodes, from + 1, with_part(so_far, part)),
        }
    }
}

/// The document with the root element `root`, which must be a `fontconfig`
/// element.
pub open spec fn document_of(root: XmlNodeView) -> Result<DocumentView, ErrorView> {
    if root.name == "fontconfig"@ {
        document_from(root.children, 0, DocumentView::empty())
    } else {
        Err(ErrorView::NoFontconfig)
    }
}

/// The document `so_far` with the parts `parts` added, one after another.
pub open spec fn assembled(so_far: DocumentView, parts: Seq<ConfigPartView>) -> DocumentView
    decreases parts.len(),
{
    if parts.len() == 0 {
        so_far
    } else {
        with_part(assembled(so_far, parts.drop_last()), parts.last())
    }
}

/// The document that the elements among some nodes write is the document
/// that their parts add up to.
pub proof fn lemma_document_from_parts(
    nodes: Seq<XmlNodeView>,
    from: int,
    start: DocumentView,
    parts: Seq<ConfigPartView>,
)
    requires
        0 <= from <= nodes.len(),
    ensures
        document_from(nodes, from, assembled(start, parts)) == (match parts_from(
            nodes,
            from,
            parts,
        ).failure {
            Some(e) => Err(e),
            None => Ok(assembled(start, parts_from(nodes, from, parts).parts)),
        }),
    decreases nodes.len() - from,
{
    if from < nodes.len() {
        if !nodes[from].element {
            lemma_document_from_parts(nodes, from + 1, start, parts);
        } else {
            match part_of(nodes[from]) {
                Err(_) => {},
                Ok(None) => {
                    lemma_document_from_parts(nodes, from + 1, start, parts);
                },
                Ok(Some(part)) => {
                    assert(parts.push(part).drop_last() =~= parts);
                    lemma_document_from_parts(nodes, from + 1, start, parts.push(part));
                },
            }
        }
    }
}

/// Both ways of reading a tree agree: the document of a tree is the
/// document that the parts of the tree add up to, and there is no document
/// where an element could not be read.
pub proof fn lemma_document_is_its_parts(root: XmlNodeView)
    ensures
        document_of(root) == (match config_parts(root) {
            Err(e) => Err(e),
            Ok(found) => match found.failure {
                Some(e) => Err(e),
                None => Ok(assembled(DocumentView::empty(), found.parts)),
            },
        }),
{
    lemma_document_from_parts(root.children, 0, DocumentView::empty(), Seq::empty());
}

/// Adds the part `part` to `document`.
fn add_part(document: Document, part: ConfigPart) -> (r: Document)
    ensures
        r.deep_view() == with_part(document.deep_view(), part.deep_view()),
{
    let mut document = document;
    match part {
        ConfigPart::Description(text) => {
            document.description = text;
        },
        ConfigPart::Dir(dir) => {
            let ghost before = document.dirs;
            document.dirs.push(dir);
            proof {
                lemma_pushed(before, document.dirs, dir);
            }
        },
        ConfigPart::CacheDir(dir) => {
            let ghost before = document.cache_dirs;
            document.cache_dirs.push(dir);
            proof {
                lemma_pushed(before, document.cache_dirs, dir);
            }
        },
        ConfigPart::Include(dir) => {
            let ghost before = document.includes;
            document.includes.push(dir);
            proof {
                lemma_pushed(before, document.includes, dir);
            }
        },
        ConfigPart::Match(rule) => {
            let ghost before = document.matches;
            let ghost pushed = rule;
            document.matches.push(rule);
            proof {
                lemma_pushed(before, document.matches, pushed);
            }
        },
        ConfigPart::Config(config) => {
            document.config = config;
        },
        _ => {},
    }
    document
}

/// Reads the document with the root element `root`.
///
/// The root must be a `fontconfig` element. Each known element of its body
/// adds to the document in document order, and unknown elements are passed
/// over. On an error no document is returned.
pub fn parse_document(root: &XmlNode) -> (r: Result<Document, Error>)
    ensures
        outcome(r) == document_of(root.deep_view()),
{
    if !text_eq(root.name.as_str(), "fontconfig") {
        return Err(Error::NoFontconfig);
    }
    let mut document = Document::new();
    let ghost views = root.deep_view().children;
    proof {
        lemma_node_views(root.children);
    }
    let mut i: usize = 0;
    while i < root.children.len()
        invariant
            i <= root.children@.len(),
            views == root.children.deep_view(),
            document_from(views, i as int, document.deep_view()) == document_of(root.deep_view()),
        decreases root.children@.len() - i,
    {
        let child = &root.children[i];
        if child.element {
            match parse_part(child)? {
                None => {},
                Some(part) => {
                    document = add_part(document, part);
                },
            }
        }
        i += 1;
    }
    Ok(document)
}

/// The document that `text` writes, or the markup error of text that makes
/// no tree.
pub open spec fn text_document(text: Seq<char>) -> Result<DocumentView, ErrorView> {
    match root_in(text) {
        Err(e) => Err(e),
        Ok(root) => document_of(root),
    }
}

/// Reads the document that `text` writes, by way of its tree.
pub fn parse_document_text(text: &str) -> (r: Result<Document, Error>)
    ensures
        outcome(r) == text_document(text@),
{
    let root = read_root(text)?;
    parse_document(&root)
}

} // verus!
