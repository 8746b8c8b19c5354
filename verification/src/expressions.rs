//! Expressions, read from the nodes of a document's tree.

use vstd::prelude::*;
use crate::attributes::{Element, Settings, SettingsView};
use crate::error::{Error, ErrorView};
use crate::property::PropertyKind;
use crate::reader::{double_of, int_of};
use crate::text::{bool_of_text, bytes_of, parse_bool, parse_int, text_eq};
use crate::tree::{lemma_node_views, XmlAttribute, XmlAttributeView, XmlNode, XmlNodeView};
use crate::value::{
    depth_of, larger, lemma_views_of, max_depth, BinaryOp, Constant, Double, Expression,
    ExpressionView, ListOp, TernaryOp, UnaryOp, Value, ValueView,
};
use crate::views::{lemma_empty, lemma_pushed, outcome};

verus! {

impl Element {
    /// The settings that the attributes `items` of a node give to this
    /// element, taken in from item `from` on, on top of `settings`. The
    /// attributes are taken in document order, each by its name without
    /// prefix, and the first whose text its slot does not take decides.
    pub open spec fn node_settings_from(
        self,
        items: Seq<XmlAttributeView>,
        from: int,
        settings: SettingsView,
    ) -> Result<SettingsView, ErrorView>
        decreases items.len() - from,
    {
        if from < 0 || from >= items.len() {
            Ok(settings)
        } else {
            match self.slot_of(bytes_of(items[from].name)) {
                None => self.node_settings_from(items, from + 1, settings),
                Some(slot) => match settings.with(slot, items[from].value) {
                    Ok(next) => self.node_settings_from(items, from + 1, next),
                    Err(e) => Err(e),
                },
            }
        }
    }

    /// The settings that the attributes `items` of a node give to this
    /// element.
    pub open spec fn node_settings(self, items: Seq<XmlAttributeView>) -> Result<
        SettingsView,
        ErrorView,
    > {
        self.node_settings_from(items, 0, SettingsView::initial())
    }

    /// Reads the settings of this element from the attributes of its node.
    pub fn read_node_settings(self, items: &Vec<XmlAttribute>) -> (r: Result<Settings, Error>)
        ensures
            outcome(r) == self.node_settings(items.deep_view()),
    {
        let ghost views = items.deep_view();
        let mut settings = Settings::new();
        let mut i: usize = 0;
        while i < items.len()
            invariant
                i <= items@.len(),
                views == items.deep_view(),
                self.node_settings_from(views, i as int, settings.deep_view())
                    == self.node_settings(views),
            decreases items@.len() - i,
        {
            let attribute = &items[i];
            match self.slot_for(attribute.name.as_str().as_bytes()) {
                None => {},
                Some(slot) => {
                    settings = settings.set(slot, attribute.value.as_str())?;
                },
            }
            i += 1;
        }
        Ok(settings)
    }
}

/// The text of a node, which must have one.
pub open spec fn text_in(node: XmlNodeView) -> Result<Seq<char>, ErrorView> {
    match node.text {
        Some(text) => Ok(text),
        None => Err(ErrorView::InvalidFormat),
    }
}

/// Whether `name` names an element that holds one value as text.
pub open spec fn is_value_name(name: Seq<char>) -> bool {
    name == "string"@ || name == "double"@ || name == "int"@ || name == "bool"@ || name == "const"@
        || name == "name"@
}

/// The value that an element named `name`, one of those that hold a value
/// as text, writes with `text` and the settings of its attributes.
pub open spec fn value_in(name: Seq<char>, text: Seq<char>, settings: SettingsView) -> Result<
    ValueView,
    ErrorView,
> {
    if name == "string"@ {
        Ok(ValueView::String(text))
    } else if name == "double"@ {
        match double_of(text) {
            Ok(literal) => Ok(ValueView::Double(literal)),
            Err(e) => Err(e),
        }
    } else if name == "int"@ {
        match int_of(text) {
            Ok(n) => Ok(ValueView::Int(n)),
            Err(e) => Err(e),
        }
    } else if name == "bool"@ {
        match bool_of_text(text) {
            Some(b) => Ok(ValueView::Bool(b)),
            None => Err(ErrorView::ParseBoolError(text)),
        }
    } else if name == "const"@ {
        match Constant::of_text(text) {
            Some(c) => Ok(ValueView::Constant(c)),
            None => Err(ErrorView::ParseError(text)),
        }
    } else {
        match PropertyKind::of_text(text) {
            Some(kind) => Ok(ValueView::Property(settings.name_target, kind)),
            None => Err(ErrorView::ParseError(text)),
        }
    }
}

/// The value of a node that holds one as text: a literal, a constant, or a
/// reference to a property with its target. The attributes are read first
/// for a reference, then the text, which must be there.
pub open spec fn simple_of(node: XmlNodeView) -> Result<ValueView, ErrorView> {
    if node.name == "name"@ {
        match Element::Name.node_settings(node.attributes) {
            Err(e) => Err(e),
            Ok(settings) => match text_in(node) {
                Err(e) => Err(e),
                Ok(text) => value_in(node.name, text, settings),
            },
        }
    } else {
        match text_in(node) {
            Err(e) => Err(e),
            Ok(text) => value_in(node.name, text, SettingsView::initial()),
        }
    }
}

/// The operator expression named `name` with the operands `items`. The name
/// is tried as a list operator, then as a unary, a binary and a ternary one.
/// A name of none of them is an error that carries the name.
pub open spec fn operator_of(name: Seq<char>, items: Seq<ExpressionView>) -> Result<
    ExpressionView,
    ErrorView,
> {
    match ListOp::of_text(name) {
        Some(op) => Ok(ExpressionView::List(op, items)),
        None => match UnaryOp::of_text(name) {
            Some(op) => Ok(ExpressionView::Unary(op, items)),
            None => match BinaryOp::of_text(name) {
                Some(op) => Ok(ExpressionView::Binary(op, items)),
                None => match TernaryOp::of_text(name) {
                    Some(op) => Ok(ExpressionView::Ternary(op, items)),
                    None => Err(ErrorView::ParseError(name)),
                },
            },
        },
    }
}

/// The matrix of the cells `items`, which must be four.
pub open spec fn matrix_of(items: Seq<ExpressionView>) -> Result<ExpressionView, ErrorView> {
    if items.len() == 4 {
        Ok(
            ExpressionView::Matrix(
                Box::new(items[0]),
                Box::new(items[1]),
                Box::new(items[2]),
                Box::new(items[3]),
            ),
        )
    } else {
        Err(ErrorView::InvalidFormat)
    }
}

/// The expressions that the elements among `nodes` write, in document
/// order. Nodes that are no elements are passed over. The first element that
/// writes none decides.
pub open spec fn exprs_of(nodes: Seq<XmlNodeView>) -> Result<Seq<ExpressionView>, ErrorView>
    decreases nodes, 1int,
{
    if nodes.len() == 0 {
        Ok(Seq::empty())
    } else {
        match exprs_of(nodes.drop_last()) {
            Err(e) => Err(e),
            Ok(items) => if nodes.last().element {
                match expr_of(nodes.last()) {
                    Err(e) => Err(e),
                    Ok(item) => Ok(items.push(item)),
                }
            } else {
                Ok(items)
            },
        }
    }
}

/// The expression that the element `node` writes: a value, a matrix of the
/// four expressions of its elements, or an operator, named by the element,
/// on the expressions of its elements. The operands are read before the
/// name of the operator is looked up.
pub open spec fn expr_of(node: XmlNodeView) -> Result<ExpressionView, ErrorView>
    decreases node, 0int,
{
    if is_value_name(node.name) {
        match simple_of(node) {
            Ok(v) => Ok(ExpressionView::Simple(v)),
            Err(e) => Err(e),
        }
    } else {
        match exprs_of(node.children) {
            Err(e) => Err(e),
            Ok(items) => if node.name == "matrix"@ {
                matrix_of(items)
            } else {
                operator_of(node.name, items)
            },
        }
    }
}

/// How deep the elements below `node` nest, as far as expressions go: an
/// element that holds a value as text counts 1 whatever it holds, and any
/// other element one more than the deepest of its elements.
pub open spec fn nesting(node: XmlNodeView) -> nat
    decreases node, 0int,
{
    if is_value_name(node.name) {
        1
    } else {
        1 + max_nesting(node.children)
    }
}

/// The nesting of the deepest element among `nodes`, 0 if there is none.
pub open spec fn max_nesting(nodes: Seq<XmlNodeView>) -> nat
    decreases nodes, 1int,
{
    if nodes.len() == 0 {
        0
    } else if nodes.last().element {
        larger(max_nesting(nodes.drop_last()), nesting(nodes.last()))
    } else {
        max_nesting(nodes.drop_last())
    }
}

/// The elements among `nodes`, in order.
pub open spec fn elements_of(nodes: Seq<XmlNodeView>) -> Seq<XmlNodeView>
    decreases nodes.len(),
{
    if nodes.len() == 0 {
        Seq::empty()
    } else if nodes.last().element {
        elements_of(nodes.drop_last()).push(nodes.last())
    } else {
        elements_of(nodes.drop_last())
    }
}

/// The operands of an operator are the expressions of the elements below
/// it, one for one and in document order.
pub proof fn lemma_operands_in_order(nodes: Seq<XmlNodeView>)
    ensures
        exprs_of(nodes) matches Ok(items) ==> items.len() == elements_of(nodes).len() && forall|
            i: int,
        |
            0 <= i < items.len() ==> expr_of(#[trigger] elements_of(nodes)[i]) == Ok::<
                ExpressionView,
                ErrorView,
            >(items[i]),
    decreases nodes.len(),
{
    if nodes.len() > 0 {
        lemma_operands_in_order(nodes.drop_last());
    }
}

/// An expression is as deep as the elements that wrote it nest: operators
/// nested N deep make an expression of depth N.
pub proof fn lemma_depth_is_nesting(node: XmlNodeView)
    ensures
        expr_of(node) matches Ok(e) ==> depth_of(e) == nesting(node),
    decreases node, 0int,
{
    if !is_value_name(node.name) {
        lemma_max_depth_is_nesting(node.children);
        if let Ok(items) = exprs_of(node.children) {
            if node.name == "matrix"@ && items.len() == 4 {
                reveal_with_fuel(max_depth, 5);
            }
        }
    }
}

/// The deepest of the expressions of some nodes is as deep as the deepest
/// nesting among the nodes.
pub proof fn lemma_max_depth_is_nesting(nodes: Seq<XmlNodeView>)
    ensures
        exprs_of(nodes) matches Ok(items) ==> max_depth(items) == max_nesting(nodes),
    decreases nodes, 1int,
{
    if nodes.len() > 0 {
        lemma_max_depth_is_nesting(nodes.drop_last());
        if nodes.last().element {
            lemma_depth_is_nesting(nodes.last());
            if let Ok(items) = exprs_of(nodes.drop_last()) {
                if let Ok(item) = expr_of(nodes.last()) {
                    assert(items.push(item).drop_last() =~= items);
                }
            }
        }
    }
}

/// Once an element among some nodes writes no expression, no longer run of
/// the nodes writes any: the first failure decides.
pub proof fn lemma_first_failure_decides(nodes: Seq<XmlNodeView>, k: int)
    requires
        0 <= k <= nodes.len(),
        exprs_of(nodes.take(k)) is Err,
    ensures
        exprs_of(nodes) == exprs_of(nodes.take(k)),
    decreases nodes.len() - k,
{
    if k == nodes.len() {
        assert(nodes.take(k) =~= nodes);
    } else {
        assert(nodes.take(k + 1).drop_last() =~= nodes.take(k));
        lemma_first_failure_decides(nodes, k + 1);
    }
}

/// Whether `name` names an element that holds one value as text.
fn names_value(name: &str) -> (r: bool)
    ensures
        r == is_value_name(name@),
{
    text_eq(name, "string") || text_eq(name, "double") || text_eq(name, "int") || text_eq(
        name,
        "bool",
    ) || text_eq(name, "const") || text_eq(name, "name")
}

/// Reads the value that an element named `name` writes with `text`.
fn parse_value(name: &str, text: &str, settings: &Settings) -> (r: Result<Value, Error>)
    ensures
        outcome(r) == value_in(name@, text@, settings.deep_view()),
{
    if text_eq(name, "string") {
        Ok(Value::String(String::from_str(text)))
    } else if text_eq(name, "double") {
        Ok(Value::Double(Double::from_text(text)?))
    } else if text_eq(name, "int") {
        match parse_int(text) {
            Some(n) => Ok(Value::Int(n)),
            None => Err(Error::ParseIntError(String::from_str(text))),
        }
    } else if text_eq(name, "bool") {
        match parse_bool(text) {
            Some(b) => Ok(Value::Bool(b)),
            None => Err(Error::ParseBoolError(String::from_str(text))),
        }
    } else if text_eq(name, "const") {
        Ok(Value::Constant(Constant::from_text(text)?))
    } else {
        Ok(Value::Property(settings.name_target, PropertyKind::from_text(text)?))
    }
}

/// Reads the value of a node that holds one as text.
fn parse_simple(node: &XmlNode) -> (r: Result<Value, Error>)
    ensures
        outcome(r) == simple_of(node.deep_view()),
{
    let settings = if text_eq(node.name.as_str(), "name") {
        Element::Name.read_node_settings(&node.attributes)?
    } else {
        Settings::new()
    };
    match &node.text {
        Some(text) => parse_value(node.name.as_str(), text.as_str(), &settings),
        None => Err(Error::InvalidFormat),
    }
}

/// Makes the operator expression named `name` with the operands `items`.
fn make_operator(name: &str, items: Vec<Expression>) -> (r: Result<Expression, Error>)
    ensures
        outcome(r) == operator_of(name@, items.deep_view()),
{
    proof {
        lemma_views_of(items);
    }
    if let Ok(op) = ListOp::from_text(name) {
        Ok(Expression::List(op, items))
    } else if let Ok(op) = UnaryOp::from_text(name) {
        Ok(Expression::Unary(op, items))
    } else if let Ok(op) = BinaryOp::from_text(name) {
        Ok(Expression::Binary(op, items))
    } else {
        Ok(Expression::Ternary(TernaryOp::from_text(name)?, items))
    }
}

/// Makes the matrix of the cells `items`, which must be four.
fn make_matrix(items: Vec<Expression>) -> (r: Result<Expression, Error>)
    ensures
        outcome(r) == matrix_of(items.deep_view()),
{
    let mut items = items;
    if items.len() != 4 {
        return Err(Error::InvalidFormat);
    }
    let ghost views = items.deep_view();
    let d = items.pop().unwrap();
    let c = items.pop().unwrap();
    let b = items.pop().unwrap();
    let a = items.pop().unwrap();
    assert(views[0] == a.deep_view() && views[1] == b.deep_view() && views[2] == c.deep_view()
        && views[3] == d.deep_view());
    Ok(Expression::Matrix(Box::new(a), Box::new(b), Box::new(c), Box::new(d)))
}

/// Reads the expressions that the elements among `nodes` write, in
/// document order.
pub fn parse_exprs(nodes: &Vec<XmlNode>) -> (r: Result<Vec<Expression>, Error>)
    ensures
        outcome(r) == exprs_of(nodes.deep_view()),
    decreases nodes, 1int,
{
    let ghost views = nodes.deep_view();
    let mut items: Vec<Expression> = Vec::new();
    proof {
        lemma_empty(items);
    }
    let mut i: usize = 0;
    while i < nodes.len()
        invariant
            i <= nodes@.len(),
            views == nodes.deep_view(),
            exprs_of(views.take(i as int)) == Ok::<Seq<ExpressionView>, ErrorView>(
                items.deep_view(),
            ),
        decreases nodes@.len() - i,
    {
        let node = &nodes[i];
        proof {
            assert(views.take(i + 1).drop_last() =~= views.take(i as int));
        }
        if node.element {
            match parse_expr(node) {
                Ok(item) => {
                    let ghost before = items;
                    let ghost pushed = item;
                    items.push(item);
                    proof {
                        lemma_pushed(before, items, pushed);
                    }
                },
                Err(e) => {
                    proof {
                        lemma_first_failure_decides(views, i + 1);
                    }
                    return Err(e);
                },
            }
        }
        i += 1;
    }
    assert(views.take(i as int) =~= views);
    Ok(items)
}

/// Reads the expression that the element `node` writes.
///
/// An element named `string`, `double`, `int`, `bool` or `const` writes a
/// literal or a constant with its text, and `name` a reference to a
/// property. A `matrix` holds four elements. Any other element is an
/// operator on the expressions of the elements below it, in document order.
/// An element whose name is no operator is an error that carries the name.
pub fn parse_expr(node: &XmlNode) -> (r: Result<Expression, Error>)
    ensures
        outcome(r) == expr_of(node.deep_view()),
    decreases node, 0int,
{
    if names_value(node.name.as_str()) {
        Ok(Expression::Simple(parse_simple(node)?))
    } else {
        proof {
            lemma_node_views(node.children);
        }
        let items = parse_exprs(&node.children)?;
        if text_eq(node.name.as_str(), "matrix") {
            make_matrix(items)
        } else {
            make_operator(node.name.as_str(), items)
        }
    }
}

} // verus!
