//! Match rules: tests that select patterns, and edits that change them.

use vstd::prelude::*;
use crate::error::{unknown_variant, variant_or_unknown, Error};
use crate::views::outcome;
use crate::property::{Property, PropertyView};
use crate::text::text_eq;

verus! {

/// How many of a property's values a test must hold for.
#[derive(Clone, Copy, Debug, PartialEq, Eq, Structural)]
pub enum TestQual {
    Any,
    All,
    First,
    NotFirst,
}

impl DeepView for TestQual {
    type V = TestQual;

    open spec fn deep_view(&self) -> TestQual {
        *self
    }
}

impl TestQual {
    /// The qualifier that `text` names, if it names one.
    pub open spec fn of_text(text: Seq<char>) -> Option<TestQual> {
        if text == "any"@ {
            Some(TestQual::Any)
        } else if text == "all"@ {
            Some(TestQual::All)
        } else if text == "first"@ {
            Some(TestQual::First)
        } else if text == "not_first"@ {
            Some(TestQual::NotFirst)
        } else {
            None
        }
    }

    /// Reads a qualifier from the text of an attribute or an element.
    pub fn from_text(text: &str) -> (r: Result<TestQual, Error>)
        ensures
            outcome(r) == variant_or_unknown(Self::of_text(text@), text@),
    {
        if text_eq(text, "any") {
            Ok(TestQual::Any)
        } else if text_eq(text, "all") {
            Ok(TestQual::All)
        } else if text_eq(text, "first") {
            Ok(TestQual::First)
        } else if text_eq(text, "not_first") {
            Ok(TestQual::NotFirst)
        } else {
            Err(unknown_variant(text))
        }
    }
}

/// Which pattern a test reads.
#[derive(Clone, Copy, Debug, PartialEq, Eq, Structural)]
pub enum TestTarget {
    Default,
    Pattern,
    Font,
}

impl DeepView for TestTarget {
    type V = TestTarget;

    open spec fn deep_view(&self) -> TestTarget {
        *self
    }
}

impl TestTarget {
    /// The target of a test that `text` names, if it names one.
    pub open spec fn of_text(text: Seq<char>) -> Option<TestTarget> {
        if text == "default"@ {
            Some(TestTarget::Default)
        } else if text == "pattern"@ {
            Some(TestTarget::Pattern)
        } else if text == "font"@ {
            Some(TestTarget::Font)
        } else {
            None
        }
    }

    /// Reads a target of a test from the text of an attribute or an element.
    pub fn from_text(text: &str) -> (r: Result<TestTarget, Error>)
        ensures
            outcome(r) == variant_or_unknown(Self::of_text(text@), text@),
    {
        if text_eq(text, "default") {
            Ok(TestTarget::Default)
        } else if text_eq(text, "pattern") {
            Ok(TestTarget::Pattern)
        } else if text_eq(text, "font") {
            Ok(TestTarget::Font)
        } else {
            Err(unknown_variant(text))
        }
    }
}

/// How a test compares the property with its value.
#[derive(Clone, Copy, Debug, PartialEq, Eq, Structural)]
pub enum TestCompare {
    Eq,
    NotEq,
    Less,
    LessEq,
    More,
    MoreEq,
    Contains,
    NotContains,
}

impl DeepView for TestCompare {
    type V = TestCompare;

    open spec fn deep_view(&self) -> TestCompare {
        *self
    }
}

impl TestCompare {
    /// The comparison that `text` names, if it names one.
    pub open spec fn of_text(text: Seq<char>) -> Option<TestCompare> {
        if text == "eq"@ {
            Some(TestCompare::Eq)
        } else if text == "not_eq"@ {
            Some(TestCompare::NotEq)
        } else if text == "less"@ {
            Some(TestCompare::Less)
        } else if text == "less_eq"@ {
            Some(TestCompare::LessEq)
        } else if text == "more"@ {
            Some(TestCompare::More)
        } else if text == "more_eq"@ {
            Some(TestCompare::MoreEq)
        } else if text == "contains"@ {
            Some(TestCompare::Contains)
        } else if text == "not_contains"@ {
            Some(TestCompare::NotContains)
        } else {
            None
        }
    }

    /// Reads a comparison from the text of an attribute or an element.
    pub fn from_text(text: &str) -> (r: Result<TestCompare, Error>)
        ensures
            outcome(r) == variant_or_unknown(Self::of_text(text@), text@),
    {
        if text_eq(text, "eq") {
            Ok(TestCompare::Eq)
        } else if text_eq(text, "not_eq") {
            Ok(TestCompare::NotEq)
        } else if text_eq(text, "less") {
            Ok(TestCompare::Less)
        } else if text_eq(text, "less_eq") {
            Ok(TestCompare::LessEq)
        } else if text_eq(text, "more") {
            Ok(TestCompare::More)
        } else if text_eq(text, "more_eq") {
            Ok(TestCompare::MoreEq)
        } else if text_eq(text, "contains") {
            Ok(TestCompare::Contains)
        } else if text_eq(text, "not_contains") {
            Ok(TestCompare::NotContains)
        } else {
            Err(unknown_variant(text))
        }
    }
}

/// How an edit changes the values of a property.
#[derive(Clone, Copy, Debug, PartialEq, Eq, Structural)]
pub enum EditMode {
    Assign,
    AssignReplace,
    Prepend,
    PrependFirst,
    Append,
    AppendLast,
    Delete,
}

impl DeepView for EditMode {
    type V = EditMode;

    open spec fn deep_view(&self) -> EditMode {
        *self
    }
}

impl EditMode {
    /// The mode of an edit that `text` names, if it names one.
    pub open spec fn of_text(text: Seq<char>) -> Option<EditMode> {
        if text == "assign"@ {
            Some(EditMode::Assign)
        } else if text == "assign_replace"@ {
            Some(EditMode::AssignReplace)
        } else if text == "prepend"@ {
            Some(EditMode::Prepend)
        } else if text == "prepend_first"@ {
            Some(EditMode::PrependFirst)
        } else if text == "append"@ {
            Some(EditMode::Append)
        } else if text == "append_last"@ {
            Some(EditMode::AppendLast)
        } else if text == "delete"@ {
            Some(EditMode::Delete)
        } else {
            None
        }
    }

    /// Reads a mode of an edit from the text of an attribute or an element.
    pub fn from_text(text: &str) -> (r: Result<EditMode, Error>)
        ensures
            outcome(r) == variant_or_unknown(Self::of_text(text@), text@),
    {
        if text_eq(text, "assign") {
            Ok(EditMode::Assign)
        } else if text_eq(text, "assign_replace") {
            Ok(EditMode::AssignReplace)
        } else if text_eq(text, "prepend") {
            Ok(EditMode::Prepend)
        } else if text_eq(text, "prepend_first") {
            Ok(EditMode::PrependFirst)
        } else if text_eq(text, "append") {
            Ok(EditMode::Append)
        } else if text_eq(text, "append_last") {
            Ok(EditMode::AppendLast)
        } else if text_eq(text, "delete") {
            Ok(EditMode::Delete)
        } else {
            Err(unknown_variant(text))
        }
    }
}

/// How strongly an edit binds its value against those of other rules.
#[derive(Clone, Copy, Debug, PartialEq, Eq, Structural)]
pub enum EditBinding {
    Weak,
    Strong,
    Same,
}

impl DeepView for EditBinding {
    type V = EditBinding;

    open spec fn deep_view(&self) -> EditBinding {
        *self
    }
}

impl EditBinding {
    /// The binding that `text` names, if it names one.
    pub open spec fn of_text(text: Seq<char>) -> Option<EditBinding> {
        if text == "weak"@ {
            Some(EditBinding::Weak)
        } else if text == "strong"@ {
            Some(EditBinding::Strong)
        } else if text == "same"@ {
            Some(EditBinding::Same)
        } else {
            None
        }
    }

    /// Reads a binding from the text of an attribute or an element.
    pub fn from_text(text: &str) -> (r: Result<EditBinding, Error>)
        ensures
            outcome(r) == variant_or_unknown(Self::of_text(text@), text@),
    {
        if text_eq(text, "weak") {
            Ok(EditBinding::Weak)
        } else if text_eq(text, "strong") {
            Ok(EditBinding::Strong)
        } else if text_eq(text, "same") {
            Ok(EditBinding::Same)
        } else {
            Err(unknown_variant(text))
        }
    }
}

/// What a match rule works on.
#[derive(Clone, Copy, Debug, PartialEq, Eq, Structural)]
pub enum MatchTarget {
    Pattern,
    Font,
    Scan,
}

impl DeepView for MatchTarget {
    type V = MatchTarget;

    open spec fn deep_view(&self) -> MatchTarget {
        *self
    }
}

impl MatchTarget {
    /// The target of a match that `text` names, if it names one.
    pub open spec fn of_text(text: Seq<char>) -> Option<MatchTarget> {
        if text == "pattern"@ {
            Some(MatchTarget::Pattern)
        } else if text == "font"@ {
            Some(MatchTarget::Font)
        } else if text == "scan"@ {
            Some(MatchTarget::Scan)
        } else {
            None
        }
    }

    /// Reads a target of a match from the text of an attribute or an element.
    pub fn from_text(text: &str) -> (r: Result<MatchTarget, Error>)
        ensures
            outcome(r) == variant_or_unknown(Self::of_text(text@), text@),
    {
        if text_eq(text, "pattern") {
            Ok(MatchTarget::Pattern)
        } else if text_eq(text, "font") {
            Ok(MatchTarget::Font)
        } else if text_eq(text, "scan") {
            Ok(MatchTarget::Scan)
        } else {
            Err(unknown_variant(text))
        }
    }
}

/// A predicate on a pattern.
#[derive(Clone, Debug, PartialEq, Eq)]
pub struct Test {
    pub qual: TestQual,
    pub target: TestTarget,
    pub compare: TestCompare,
    pub value: Property,
}

/// What a [`Test`] holds.
pub struct TestView {
    pub qual: TestQual,
    pub target: TestTarget,
    pub compare: TestCompare,
    pub value: PropertyView,
}

impl DeepView for Test {
    type V = TestView;

    open spec fn deep_view(&self) -> TestView {
        TestView {
            qual: self.qual,
            target: self.target,
            compare: self.compare,
            value: self.value.deep_view(),
        }
    }
}

/// A change to a pattern.
#[derive(Clone, Debug, PartialEq, Eq)]
pub struct Edit {
    pub mode: EditMode,
    pub binding: EditBinding,
    pub value: Property,
}

/// What an [`Edit`] holds.
pub struct EditView {
    pub mode: EditMode,
    pub binding: EditBinding,
    pub value: PropertyView,
}

impl DeepView for Edit {
    type V = EditView;

    open spec fn deep_view(&self) -> EditView {
        EditView { mode: self.mode, binding: self.binding, value: self.value.deep_view() }
    }
}

/// A match rule: where every test holds, the edits apply one after another.
/// The order of both is that of the document.
#[derive(Clone, Debug, PartialEq, Eq)]
pub struct Match {
    pub target: MatchTarget,
    pub tests: Vec<Test>,
    pub edits: Vec<Edit>,
}

/// What a [`Match`] holds.
pub struct MatchView {
    pub target: MatchTarget,
    pub tests: Seq<TestView>,
    pub edits: Seq<EditView>,
}

impl DeepView for Match {
    type V = MatchView;

    open spec fn deep_view(&self) -> MatchView {
        MatchView {
            target: self.target,
            tests: self.tests.deep_view(),
            edits: self.edits.deep_view(),
        }
    }
}

impl MatchView {
    /// A rule on patterns with no test and no edit.
    pub open spec fn empty() -> MatchView {
        MatchView { target: MatchTarget::Pattern, tests: Seq::empty(), edits: Seq::empty() }
    }
}

} // verus!
