//! Attributes: how the text of an attribute becomes a typed setting of its
//! element. Every reader of documents goes through [`Settings::set`], so the
//! same text means the same thing whoever read it.

use vstd::prelude::*;
use crate::dirs::DirPrefix;
use crate::error::{variant_or_unknown, Error, ErrorView};
use crate::views::outcome;
use crate::events::{attribute_views, decoded, Attributes, EventReader, RawAttribute};
use crate::property::PropertyKind;
use crate::rules::{EditBinding, EditMode, MatchTarget, TestCompare, TestQual, TestTarget};
use crate::text::{bytes_are, bytes_of, text_eq};
use crate::value::PropertyTarget;

verus! {

/// The elements that take attributes.
#[derive(Clone, Copy, Debug, PartialEq, Eq, Structural)]
pub enum Element {
    Match,
    Test,
    Edit,
    /// One property of a pattern that selects fonts.
    PatternElement,
    Name,
    Dir,
    CacheDir,
    Include,
    RemapDir,
}

/// The settings that attributes give.
#[derive(Clone, Copy, Debug, PartialEq, Eq, Structural)]
pub enum Slot {
    /// `name` of a test, an edit or a pattern element: the property.
    Kind,
    /// `qual` of a test.
    Qual,
    /// `target` of a test.
    TestTarget,
    /// `compare` of a test.
    Compare,
    /// `mode` of an edit.
    Mode,
    /// `binding` of an edit.
    Binding,
    /// `target` of a match.
    MatchTarget,
    /// `target` of a reference to a property.
    NameTarget,
    /// `prefix` of a declaration with a path.
    Prefix,
    /// `salt` of a font directory.
    Salt,
    /// `as-path` of a remapped font directory.
    AsPath,
    /// `ignore_missing` of an include.
    IgnoreMissing,
}

/// The settings of an element, each at its default until an attribute says
/// otherwise.
#[derive(Clone, Debug, PartialEq, Eq)]
pub struct Settings {
    pub kind: PropertyKind,
    pub qual: TestQual,
    pub test_target: TestTarget,
    pub compare: TestCompare,
    pub mode: EditMode,
    pub binding: EditBinding,
    pub match_target: MatchTarget,
    pub name_target: PropertyTarget,
    pub prefix: DirPrefix,
    pub salt: String,
    pub as_path: String,
    pub ignore_missing: bool,
}

/// What a [`Settings`] holds.
pub struct SettingsView {
    pub kind: PropertyKind,
    pub qual: TestQual,
    pub test_target: TestTarget,
    pub compare: TestCompare,
    pub mode: EditMode,
    pub binding: EditBinding,
    pub match_target: MatchTarget,
    pub name_target: PropertyTarget,
    pub prefix: DirPrefix,
    pub salt: Seq<char>,
    pub as_path: Seq<char>,
    pub ignore_missing: bool,
}

impl DeepView for Settings {
    type V = SettingsView;

    open spec fn deep_view(&self) -> SettingsView {
        SettingsView {
            kind: self.kind,
            qual: self.qual,
            test_target: self.test_target,
            compare: self.compare,
            mode: self.mode,
            binding: self.binding,
            match_target: self.match_target,
            name_target: self.name_target,
            prefix: self.prefix,
            salt: self.salt@,
            as_path: self.as_path@,
            ignore_missing: self.ignore_missing,
        }
    }
}

impl SettingsView {
    /// The settings of an element without attributes.
    pub open spec fn initial() -> SettingsView {
        SettingsView {
            kind: PropertyKind::Family,
            qual: TestQual::Any,
            test_target: TestTarget::Default,
            compare: TestCompare::Eq,
            mode: EditMode::Assign,
            binding: EditBinding::Weak,
            match_target: MatchTarget::Pattern,
            name_target: PropertyTarget::Default,
            prefix: DirPrefix::Default,
            salt: Seq::empty(),
            as_path: Seq::empty(),
            ignore_missing: false,
        }
    }

    /// The settings once the attribute of `slot` has said `text`. Text that
    /// names no variant of what the slot holds is an error that carries the
    /// text. `ignore_missing` is `yes` or `no`.
    pub open spec fn with(self, slot: Slot, text: Seq<char>) -> Result<SettingsView, ErrorView> {
        match slot {
            Slot::Kind => match variant_or_unknown(PropertyKind::of_text(text), text) {
                Ok(v) => Ok(SettingsView { kind: v, ..self }),
                Err(e) => Err(e),
            },
            Slot::Qual => match variant_or_unknown(TestQual::of_text(text), text) {
                Ok(v) => Ok(SettingsView { qual: v, ..self }),
                Err(e) => Err(e),
            },
            Slot::TestTarget => match variant_or_unknown(TestTarget::of_text(text), text) {
                Ok(v) => Ok(SettingsView { test_target: v, ..self }),
                Err(e) => Err(e),
            },
            Slot::Compare => match variant_or_unknown(TestCompare::of_text(text), text) {
                Ok(v) => Ok(SettingsView { compare: v, ..self }),
                Err(e) => Err(e),
            },
            Slot::Mode => match variant_or_unknown(EditMode::of_text(text), text) {
                Ok(v) => Ok(SettingsView { mode: v, ..self }),
                Err(e) => Err(e),
            },
            Slot::Binding => match variant_or_unknown(EditBinding::of_text(text), text) {
                Ok(v) => Ok(SettingsView { binding: v, ..self }),
                Err(e) => Err(e),
            },
            Slot::MatchTarget => match variant_or_unknown(MatchTarget::of_text(text), text) {
                Ok(v) => Ok(SettingsView { match_target: v, ..self }),
                Err(e) => Err(e),
            },
            Slot::NameTarget => match variant_or_unknown(PropertyTarget::of_text(text), text) {
                Ok(v) => Ok(SettingsView { name_target: v, ..self }),
                Err(e) => Err(e),
            },
            Slot::Prefix => match variant_or_unknown(DirPrefix::of_text(text), text) {
                Ok(v) => Ok(SettingsView { prefix: v, ..self }),
                Err(e) => Err(e),
            },
            Slot::Salt => Ok(SettingsView { salt: text, ..self }),
            Slot::AsPath => Ok(SettingsView { as_path: text, ..self }),
            Slot::IgnoreMissing => if text == "yes"@ {
                Ok(SettingsView { ignore_missing: true, ..self })
            } else if text == "no"@ {
                Ok(SettingsView { ignore_missing: false, ..self })
            } else {
                Err(ErrorView::InvalidFormat)
            },
        }
    }

    /// The settings once the raw value `raw` of the attribute of `slot` has
    /// been decoded and taken in. A value that cannot be decoded is a markup
    /// error.
    pub open spec fn with_raw(self, slot: Slot, raw: Seq<u8>) -> Result<SettingsView, ErrorView> {
        match decoded(raw) {
            Ok(text) => self.with(slot, text),
            Err(report) => Err(ErrorView::Xml(report)),
        }
    }
}

impl Element {
    /// The setting that the attribute named by the bytes `key` gives to this
    /// element, if it gives one. Other attributes are passed over.
    pub open spec fn slot_of(self, key: Seq<u8>) -> Option<Slot> {
        match self {
            Element::Match => if key == bytes_of("target"@) {
                Some(Slot::MatchTarget)
            } else {
                None
            },
            Element::Test => if key == bytes_of("name"@) {
                Some(Slot::Kind)
            } else if key == bytes_of("qual"@) {
                Some(Slot::Qual)
            } else if key == bytes_of("target"@) {
                Some(Slot::TestTarget)
            } else if key == bytes_of("compare"@) {
                Some(Slot::Compare)
            } else {
                None
            },
            Element::Edit => if key == bytes_of("name"@) {
                Some(Slot::Kind)
            } else if key == bytes_of("mode"@) {
                Some(Slot::Mode)
            } else if key == bytes_of("binding"@) {
                Some(Slot::Binding)
            } else {
                None
            },
            Element::PatternElement => if key == bytes_of("name"@) {
                Some(Slot::Kind)
            } else {
                None
            },
            Element::Name => if key == bytes_of("target"@) {
                Some(Slot::NameTarget)
            } else {
                None
            },
            Element::Dir => if key == bytes_of("prefix"@) {
                Some(Slot::Prefix)
            } else if key == bytes_of("salt"@) {
                Some(Slot::Salt)
            } else {
                None
            },
            Element::CacheDir => if key == bytes_of("prefix"@) {
                Some(Slot::Prefix)
            } else {
                None
            },
            Element::Include => if key == bytes_of("prefix"@) {
                Some(Slot::Prefix)
            } else if key == bytes_of("ignore_missing"@) {
                Some(Slot::IgnoreMissing)
            } else {
                None
            },
            Element::RemapDir => if key == bytes_of("prefix"@) {
                Some(Slot::Prefix)
            } else if key == bytes_of("salt"@) {
                Some(Slot::Salt)
            } else if key == bytes_of("as-path"@) {
                Some(Slot::AsPath)
            } else {
                None
            },
        }
    }

    /// The setting that the attribute named by the bytes `key` gives to this
    /// element, if it gives one.
    pub fn slot_for(self, key: &[u8]) -> (r: Option<Slot>)
        ensures
            r == self.slot_of(key@),
    {
        match self {
            Element::Match => if bytes_are(key, "target") {
                Some(Slot::MatchTarget)
            } else {
                None
            },
            Element::Test => if bytes_are(key, "name") {
                Some(Slot::Kind)
            } else if bytes_are(key, "qual") {
                Some(Slot::Qual)
            } else if bytes_are(key, "target") {
                Some(Slot::TestTarget)
            } else if bytes_are(key, "compare") {
                Some(Slot::Compare)
            } else {
                None
            },
            Element::Edit => if bytes_are(key, "name") {
                Some(Slot::Kind)
            } else if bytes_are(key, "mode") {
                Some(Slot::Mode)
            } else if bytes_are(key, "binding") {
                Some(Slot::Binding)
            } else {
                None
            },
            Element::PatternElement => if bytes_are(key, "name") {
                Some(Slot::Kind)
            } else {
                None
            },
            Element::Name => if bytes_are(key, "target") {
                Some(Slot::NameTarget)
            } else {
                None
            },
            Element::Dir => if bytes_are(key, "prefix") {
                Some(Slot::Prefix)
            } else if bytes_are(key, "salt") {
                Some(Slot::Salt)
            } else {
                None
            },
            Element::CacheDir => if bytes_are(key, "prefix") {
                Some(Slot::Prefix)
            } else {
                None
            },
            Element::Include => if bytes_are(key, "prefix") {
                Some(Slot::Prefix)
            } else if bytes_are(key, "ignore_missing") {
                Some(Slot::IgnoreMissing)
            } else {
                None
            },
            Element::RemapDir => if bytes_are(key, "prefix") {
                Some(Slot::Prefix)
            } else if bytes_are(key, "salt") {
                Some(Slot::Salt)
            } else if bytes_are(key, "as-path") {
                Some(Slot::AsPath)
            } else {
                None
            },
        }
    }

    /// The settings that the attributes `items` of a start tag give to this
    /// element, taken in from item `from` on, on top of `settings`. The
    /// attributes are taken in document order and the first that fails
    /// decides: one that could not be read, one whose value cannot be decoded,
    /// one whose text its slot does not take.
    pub open spec fn settings_from(
        self,
        items: Attributes,
        from: int,
        settings: SettingsView,
    ) -> Result<SettingsView, ErrorView>
        decreases items.len() - from,
    {
        if from < 0 || from >= items.len() {
            Ok(settings)
        } else {
            match items[from] {
                Err(report) => Err(ErrorView::Xml(report)),
                Ok(attribute) => match self.slot_of(attribute.key) {
                    None => self.settings_from(items, from + 1, settings),
                    Some(slot) => match settings.with_raw(slot, attribute.value) {
                        Ok(next) => self.settings_from(items, from + 1, next),
                        Err(e) => Err(e),
                    },
                },
            }
        }
    }

    /// The settings that the attributes `items` of a start tag give to this
    /// element.
    pub open spec fn settings_of(self, items: Attributes) -> Result<
        SettingsView,
        ErrorView,
    > {
        self.settings_from(items, 0, SettingsView::initial())
    }

    /// Reads the settings of this element from the attributes of its start
    /// tag.
    pub fn read_settings(
        self,
        items: &Vec<Result<RawAttribute, String>>,
        reader: &EventReader,
    ) -> (r: Result<Settings, Error>)
        ensures
            outcome(r) == self.settings_of(attribute_views(items@)),
    {
        let ghost views = attribute_views(items@);
        let mut settings = Settings::new();
        let mut i: usize = 0;
        while i < items.len()
            invariant
                i <= items@.len(),
                views == attribute_views(items@),
                self.settings_from(views, i as int, settings.deep_view()) == self.settings_of(
                    views,
                ),
            decreases items@.len() - i,
        {
            match &items[i] {
                Err(report) => {
                    return Err(Error::Xml(report.clone()));
                },
                Ok(attribute) => {
                    match self.slot_for(attribute.key.as_slice()) {
                        None => {},
                        Some(slot) => {
                            let text = match reader.decode_value(&attribute.value) {
                                Ok(text) => text,
                                Err(report) => {
                                    return Err(Error::Xml(report));
                                },
                            };
                            settings = match settings.set(slot, text.as_str()) {
                                Ok(next) => next,
                                Err(e) => {
                                    return Err(e);
                                },
                            };
                        },
                    }
                },
            }
            i += 1;
        }
        Ok(settings)
    }
}

impl Settings {
    /// The settings of an element without attributes.
    pub fn new() -> (r: Settings)
        ensures
            r.deep_view() == SettingsView::initial(),
    {
        Settings {
            kind: PropertyKind::Family,
            qual: TestQual::Any,
            test_target: TestTarget::Default,
            compare: TestCompare::Eq,
            mode: EditMode::Assign,
            binding: EditBinding::Weak,
            match_target: MatchTarget::Pattern,
            name_target: PropertyTarget::Default,
            prefix: DirPrefix::Default,
            salt: String::new(),
            as_path: String::new(),
            ignore_missing: false,
        }
    }

    /// Takes in what the attribute of `slot` says.
    pub fn set(self, slot: Slot, text: &str) -> (r: Result<Settings, Error>)
        ensures
            outcome(r) == self.deep_view().with(slot, text@),
    {
        let mut next = self;
        match slot {
            Slot::Kind => {
                next.kind = PropertyKind::from_text(text)?;
            },
            Slot::Qual => {
                next.qual = TestQual::from_text(text)?;
            },
            Slot::TestTarget => {
                next.test_target = TestTarget::from_text(text)?;
            },
            Slot::Compare => {
                next.compare = TestCompare::from_text(text)?;
            },
            Slot::Mode => {
                next.mode = EditMode::from_text(text)?;
            },
            Slot::Binding => {
                next.binding = EditBinding::from_text(text)?;
            },
            Slot::MatchTarget => {
                next.match_target = MatchTarget::from_text(text)?;
            },
            Slot::NameTarget => {
                next.name_target = PropertyTarget::from_text(text)?;
            },
            Slot::Prefix => {
                next.prefix = DirPrefix::from_text(text)?;
            },
            Slot::Salt => {
                next.salt = String::from_str(text);
            },
            Slot::AsPath => {
                next.as_path = String::from_str(text);
            },
            Slot::IgnoreMissing => {
                if text_eq(text, "yes") {
                    next.ignore_missing = true;
                } else if text_eq(text, "no") {
                    next.ignore_missing = false;
                } else {
                    return Err(Error::InvalidFormat);
                }
            },
        }
        Ok(next)
    }
}

} // verus!
