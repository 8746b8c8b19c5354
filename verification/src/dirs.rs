//! Declarations that carry a path, and how their paths are resolved.

use vstd::prelude::*;
use crate::error::{unknown_variant, variant_or_unknown, Error};
use crate::views::outcome;
use crate::text::text_eq;

verus! {

/// What the path of a declaration is relative to.
#[derive(Clone, Copy, Debug, PartialEq, Eq, Structural)]
pub enum DirPrefix {
    Default,
    Cwd,
    Xdg,
    Relative,
}

impl DeepView for DirPrefix {
    type V = DirPrefix;

    open spec fn deep_view(&self) -> DirPrefix {
        *self
    }
}

impl DirPrefix {
    /// The prefix that `text` names, if it names one.
    pub open spec fn of_text(text: Seq<char>) -> Option<DirPrefix> {
        if text == "default"@ {
            Some(DirPrefix::Default)
        } else if text == "cwd"@ {
            Some(DirPrefix::Cwd)
        } else if text == "xdg"@ {
            Some(DirPrefix::Xdg)
        } else if text == "relative"@ {
            Some(DirPrefix::Relative)
        } else {
            None
        }
    }

    /// Reads a prefix from the text of an attribute or an element.
    pub fn from_text(text: &str) -> (r: Result<DirPrefix, Error>)
        ensures
            outcome(r) == variant_or_unknown(Self::of_text(text@), text@),
    {
        if text_eq(text, "default") {
            Ok(DirPrefix::Default)
        } else if text_eq(text, "cwd") {
            Ok(DirPrefix::Cwd)
        } else if text_eq(text, "xdg") {
            Ok(DirPrefix::Xdg)
        } else if text_eq(text, "relative") {
            Ok(DirPrefix::Relative)
        } else {
            Err(unknown_variant(text))
        }
    }
}

/// A directory of fonts.
#[derive(Clone, Debug, PartialEq, Eq)]
pub struct Dir {
    pub prefix: DirPrefix,
    pub salt: String,
    pub path: String,
}

/// What a [`Dir`] holds.
pub struct DirView {
    pub prefix: DirPrefix,
    pub salt: Seq<char>,
    pub path: Seq<char>,
}

impl DeepView for Dir {
    type V = DirView;

    open spec fn deep_view(&self) -> DirView {
        DirView { prefix: self.prefix, salt: self.salt@, path: self.path@ }
    }
}

/// A directory for cache files.
#[derive(Clone, Debug, PartialEq, Eq)]
pub struct CacheDir {
    pub prefix: DirPrefix,
    pub path: String,
}

/// What a [`CacheDir`] holds.
pub struct CacheDirView {
    pub prefix: DirPrefix,
    pub path: Seq<char>,
}

impl DeepView for CacheDir {
    type V = CacheDirView;

    open spec fn deep_view(&self) -> CacheDirView {
        CacheDirView { prefix: self.prefix, path: self.path@ }
    }
}

/// Another file, or a directory of files, to load at this point.
#[derive(Clone, Debug, PartialEq, Eq)]
pub struct Include {
    pub prefix: DirPrefix,
    pub ignore_missing: bool,
    pub path: String,
}

/// What an [`Include`] holds.
pub struct IncludeView {
    pub prefix: DirPrefix,
    pub ignore_missing: bool,
    pub path: Seq<char>,
}

impl DeepView for Include {
    type V = IncludeView;

    open spec fn deep_view(&self) -> IncludeView {
        IncludeView { prefix: self.prefix, ignore_missing: self.ignore_missing, path: self.path@ }
    }
}

/// A directory of fonts that caches know under another path.
#[derive(Clone, Debug, PartialEq, Eq)]
pub struct RemapDir {
    pub prefix: DirPrefix,
    pub as_path: String,
    pub salt: String,
    pub path: String,
}

/// What a [`RemapDir`] holds.
pub struct RemapDirView {
    pub prefix: DirPrefix,
    pub as_path: Seq<char>,
    pub salt: Seq<char>,
    pub path: Seq<char>,
}

impl DeepView for RemapDir {
    type V = RemapDirView;

    open spec fn deep_view(&self) -> RemapDirView {
        RemapDirView {
            prefix: self.prefix,
            as_path: self.as_path@,
            salt: self.salt@,
            path: self.path@,
        }
    }
}

} // verus!
