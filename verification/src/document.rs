//! What one document holds, and the configuration that documents add up to.

use vstd::prelude::*;
use vstd::std_specs::convert::FromSpecImpl;
use crate::config::{Alias, AliasView, Config, ConfigView, SelectFont, SelectFontView};
use crate::dirs::{
    CacheDir, CacheDirView, Dir, DirView, Include, IncludeView, RemapDir, RemapDirView,
};
use crate::rules::{Match, MatchView};

verus! {

/// What the event reader finds in one document.
#[derive(Clone, Debug, PartialEq, Eq)]
pub struct Document {
    pub description: String,
    pub dirs: Vec<Dir>,
    pub cache_dirs: Vec<CacheDir>,
    pub includes: Vec<Include>,
    pub matches: Vec<Match>,
    pub config: Config,
}

/// What a [`Document`] holds.
pub struct DocumentView {
    pub description: Seq<char>,
    pub dirs: Seq<DirView>,
    pub cache_dirs: Seq<CacheDirView>,
    pub includes: Seq<IncludeView>,
    pub matches: Seq<MatchView>,
    pub config: ConfigView,
}

impl DeepView for Document {
    type V = DocumentView;

    open spec fn deep_view(&self) -> DocumentView {
        DocumentView {
            description: self.description@,
            dirs: self.dirs.deep_view(),
            cache_dirs: self.cache_dirs.deep_view(),
            includes: self.includes.deep_view(),
            matches: self.matches.deep_view(),
            config: self.config.deep_view(),
        }
    }
}

impl DocumentView {
    /// A document that holds nothing.
    pub open spec fn empty() -> DocumentView {
        DocumentView {
            description: Seq::empty(),
            dirs: Seq::empty(),
            cache_dirs: Seq::empty(),
            includes: Seq::empty(),
            matches: Seq::empty(),
            config: ConfigView::empty(),
        }
    }
}

impl Document {
    /// A document that holds nothing.
    pub fn new() -> (r: Document)
        ensures
            r.deep_view() == DocumentView::empty(),
    {
        let r = Document {
            description: String::new(),
            dirs: Vec::new(),
            cache_dirs: Vec::new(),
            includes: Vec::new(),
            matches: Vec::new(),
            config: Config::new(),
        };
        assert(r.dirs.deep_view() =~= Seq::empty());
        assert(r.cache_dirs.deep_view() =~= Seq::empty());
        assert(r.includes.deep_view() =~= Seq::empty());
        assert(r.matches.deep_view() =~= Seq::empty());
        r
    }
}

impl Default for Document {
    fn default() -> (r: Document)
        ensures
            r.deep_view() == DocumentView::empty(),
    {
        Document::new()
    }
}

/// One top-level element of a document.
#[derive(Clone, Debug, PartialEq, Eq)]
pub enum ConfigPart {
    Description(String),
    SelectFont(SelectFont),
    Dir(Dir),
    CacheDir(CacheDir),
    Include(Include),
    Match(Match),
    Config(Config),
    Alias(Alias),
    RemapDir(RemapDir),
    /// Forget the font directories declared so far.
    ResetDirs,
}

/// What a [`ConfigPart`] holds.
pub enum ConfigPartView {
    Description(Seq<char>),
    SelectFont(SelectFontView),
    Dir(DirView),
    CacheDir(CacheDirView),
    Include(IncludeView),
    Match(MatchView),
    Config(ConfigView),
    Alias(AliasView),
    RemapDir(RemapDirView),
    ResetDirs,
}

impl DeepView for ConfigPart {
    type V = ConfigPartView;

    open spec fn deep_view(&self) -> ConfigPartView {
        match self {
            ConfigPart::Description(text) => ConfigPartView::Description(text@),
            ConfigPart::SelectFont(s) => ConfigPartView::SelectFont(s.deep_view()),
            ConfigPart::Dir(d) => ConfigPartView::Dir(d.deep_view()),
            ConfigPart::CacheDir(d) => ConfigPartView::CacheDir(d.deep_view()),
            ConfigPart::Include(i) => ConfigPartView::Include(i.deep_view()),
            ConfigPart::Match(m) => ConfigPartView::Match(m.deep_view()),
            ConfigPart::Config(c) => ConfigPartView::Config(c.deep_view()),
            ConfigPart::Alias(a) => ConfigPartView::Alias(a.deep_view()),
            ConfigPart::RemapDir(d) => ConfigPartView::RemapDir(d.deep_view()),
            ConfigPart::ResetDirs => ConfigPartView::ResetDirs,
        }
    }
}

impl From<SelectFont> for ConfigPart {
    fn from(v: SelectFont) -> (r: ConfigPart)
        ensures
            r == ConfigPart::SelectFont(v),
    {
        ConfigPart::SelectFont(v)
    }
}

impl FromSpecImpl<SelectFont> for ConfigPart {
    open spec fn obeys_from_spec() -> bool {
        true
    }

    open spec fn from_spec(v: SelectFont) -> ConfigPart {
        ConfigPart::SelectFont(v)
    }
}

impl From<Dir> for ConfigPart {
    fn from(v: Dir) -> (r: ConfigPart)
        ensures
            r == ConfigPart::Dir(v),
    {
        ConfigPart::Dir(v)
    }
}

impl FromSpecImpl<Dir> for ConfigPart {
    open spec fn obeys_from_spec() -> bool {
        true
    }

    open spec fn from_spec(v: Dir) -> ConfigPart {
        ConfigPart::Dir(v)
    }
}

impl From<CacheDir> for ConfigPart {
    fn from(v: CacheDir) -> (r: ConfigPart)
        ensures
            r == ConfigPart::CacheDir(v),
    {
        ConfigPart::CacheDir(v)
    }
}

impl FromSpecImpl<CacheDir> for ConfigPart {
    open spec fn obeys_from_spec() -> bool {
        true
    }

    open spec fn from_spec(v: CacheDir) -> ConfigPart {
        ConfigPart::CacheDir(v)
    }
}

impl From<Include> for ConfigPart {
    fn from(v: Include) -> (r: ConfigPart)
        ensures
            r == ConfigPart::Include(v),
    {
        ConfigPart::Include(v)
    }
}

impl FromSpecImpl<Include> for ConfigPart {
    open spec fn obeys_from_spec() -> bool {
        true
    }

    open spec fn from_spec(v: Include) -> ConfigPart {
        ConfigPart::Include(v)
    }
}

impl From<Match> for ConfigPart {
    fn from(v: Match) -> (r: ConfigPart)
        ensures
            r == ConfigPart::Match(v),
    {
        ConfigPart::Match(v)
    }
}

impl FromSpecImpl<Match> for ConfigPart {
    open spec fn obeys_from_spec() -> bool {
        true
    }

    open spec fn from_spec(v: Match) -> ConfigPart {
        ConfigPart::Match(v)
    }
}

impl From<Config> for ConfigPart {
    fn from(v: Config) -> (r: ConfigPart)
        ensures
            r == ConfigPart::Config(v),
    {
        ConfigPart::Config(v)
    }
}

impl FromSpecImpl<Config> for ConfigPart {
    open spec fn obeys_from_spec() -> bool {
        true
    }

    open spec fn from_spec(v: Config) -> ConfigPart {
        ConfigPart::Config(v)
    }
}

impl From<Alias> for ConfigPart {
    fn from(v: Alias) -> (r: ConfigPart)
        ensures
            r == ConfigPart::Alias(v),
    {
        ConfigPart::Alias(v)
    }
}

impl FromSpecImpl<Alias> for ConfigPart {
    open spec fn obeys_from_spec() -> bool {
        true
    }

    open spec fn from_spec(v: Alias) -> ConfigPart {
        ConfigPart::Alias(v)
    }
}

impl From<RemapDir> for ConfigPart {
    fn from(v: RemapDir) -> (r: ConfigPart)
        ensures
            r == ConfigPart::RemapDir(v),
    {
        ConfigPart::RemapDir(v)
    }
}

impl FromSpecImpl<RemapDir> for ConfigPart {
    open spec fn obeys_from_spec() -> bool {
        true
    }

    open spec fn from_spec(v: RemapDir) -> ConfigPart {
        ConfigPart::RemapDir(v)
    }
}

/// A font directory with its path resolved.
#[derive(Clone, Debug, PartialEq, Eq)]
pub struct DirData {
    /// The path of the directory.
    pub path: String,
    /// What tells this directory from another with the same path, for the
    /// names of cache files.
    pub salt: String,
}

/// What a [`DirData`] holds.
pub struct DirDataView {
    pub path: Seq<char>,
    pub salt: Seq<char>,
}

impl DeepView for DirData {
    type V = DirDataView;

    open spec fn deep_view(&self) -> DirDataView {
        DirDataView { path: self.path@, salt: self.salt@ }
    }
}

impl Default for DirData {
    fn default() -> (r: DirData)
        ensures
            r.deep_view() == (DirDataView { path: Seq::empty(), salt: Seq::empty() }),
    {
        DirData { path: String::new(), salt: String::new() }
    }
}

/// A remapped font directory with its path resolved.
#[derive(Clone, Debug, PartialEq, Eq)]
pub struct RemapDirData {
    /// The path of the directory.
    pub path: String,
    /// What tells this directory from another with the same path.
    pub salt: String,
    /// The path that caches know the directory under.
    pub as_path: String,
}

/// What a [`RemapDirData`] holds.
pub struct RemapDirDataView {
    pub path: Seq<char>,
    pub salt: Seq<char>,
    pub as_path: Seq<char>,
}

impl DeepView for RemapDirData {
    type V = RemapDirDataView;

    open spec fn deep_view(&self) -> RemapDirDataView {
        RemapDirDataView { path: self.path@, salt: self.salt@, as_path: self.as_path@ }
    }
}

impl Default for RemapDirData {
    fn default() -> (r: RemapDirData)
        ensures
            r.deep_view() == (RemapDirDataView {
                path: Seq::empty(),
                salt: Seq::empty(),
                as_path: Seq::empty(),
            }),
    {
        RemapDirData { path: String::new(), salt: String::new(), as_path: String::new() }
    }
}

/// The configuration that a tree of documents adds up to. Every list keeps
/// the order in which the documents gave its items.
#[derive(Clone, Debug, PartialEq, Eq)]
pub struct FontConfig {
    pub select_fonts: Vec<SelectFont>,
    pub dirs: Vec<DirData>,
    pub cache_dirs: Vec<String>,
    pub remap_dirs: Vec<RemapDirData>,
    pub matches: Vec<Match>,
    pub config: Config,
    pub aliases: Vec<Alias>,
}

/// What a [`FontConfig`] holds.
pub struct FontConfigView {
    pub select_fonts: Seq<SelectFontView>,
    pub dirs: Seq<DirDataView>,
    pub cache_dirs: Seq<Seq<char>>,
    pub remap_dirs: Seq<RemapDirDataView>,
    pub matches: Seq<MatchView>,
    pub config: ConfigView,
    pub aliases: Seq<AliasView>,
}

impl DeepView for FontConfig {
    type V = FontConfigView;

    open spec fn deep_view(&self) -> FontConfigView {
        FontConfigView {
            select_fonts: self.select_fonts.deep_view(),
            dirs: self.dirs.deep_view(),
            cache_dirs: self.cache_dirs.deep_view(),
            remap_dirs: self.remap_dirs.deep_view(),
            matches: self.matches.deep_view(),
            config: self.config.deep_view(),
            aliases: self.aliases.deep_view(),
        }
    }
}

} // verus!
