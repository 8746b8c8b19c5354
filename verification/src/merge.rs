//! Folding the parts of documents into one configuration.

use vstd::prelude::*;
use crate::config::{Config, ConfigView};
use crate::document::{
    ConfigPart, ConfigPartView, DirData, DirDataView, FontConfig, FontConfigView, RemapDirData,
    RemapDirDataView,
};
use crate::paths::resolved;
use crate::views::{lemma_empty, lemma_pushed};

verus! {

impl FontConfigView {
    /// A configuration that holds nothing.
    pub open spec fn empty() -> FontConfigView {
        FontConfigView {
            select_fonts: Seq::empty(),
            dirs: Seq::empty(),
            cache_dirs: Seq::empty(),
            remap_dirs: Seq::empty(),
            matches: Seq::empty(),
            config: ConfigView::empty(),
            aliases: Seq::empty(),
        }
    }

    /// The configuration once the part `part` of the file `file` has been
    /// folded in.
    ///
    /// An alias, a match rule or a selection of fonts comes last in its
    /// list. Scalar settings add their lists to the lists that are there. A
    /// directory comes last in its list with its path resolved. A
    /// description changes nothing. A reset forgets the font directories and
    /// nothing else. An include changes nothing by itself: what it loads is
    /// folded in part by part.
    pub open spec fn with_part(
        self,
        part: ConfigPartView,
        file: Seq<char>,
        xdg: Seq<char>,
    ) -> FontConfigView {
        match part {
            ConfigPartView::Alias(alias) => FontConfigView {
                aliases: self.aliases.push(alias),
                ..self
            },
            ConfigPartView::Config(config) => FontConfigView {
                config: ConfigView {
                    rescans: self.config.rescans + config.rescans,
                    blanks: self.config.blanks + config.blanks,
                },
                ..self
            },
            ConfigPartView::Description(_) => self,
            ConfigPartView::Dir(dir) => FontConfigView {
                dirs: self.dirs.push(
                    DirDataView {
                        path: resolved(dir.prefix, dir.path, file, xdg),
                        salt: dir.salt,
                    },
                ),
                ..self
            },
            ConfigPartView::CacheDir(dir) => FontConfigView {
                cache_dirs: self.cache_dirs.push(resolved(dir.prefix, dir.path, file, xdg)),
                ..self
            },
            ConfigPartView::Match(rule) => FontConfigView {
                matches: self.matches.push(rule),
                ..self
            },
            ConfigPartView::ResetDirs => FontConfigView { dirs: Seq::empty(), ..self },
            ConfigPartView::SelectFont(selection) => FontConfigView {
                select_fonts: self.select_fonts.push(selection),
                ..self
            },
            ConfigPartView::RemapDir(dir) => FontConfigView {
                remap_dirs: self.remap_dirs.push(
                    RemapDirDataView {
                        path: resolved(dir.prefix, dir.path, file, xdg),
                        salt: dir.salt,
                        as_path: dir.as_path,
                    },
                ),
                ..self
            },
            ConfigPartView::Include(_) => self,
        }
    }
}

/// A reset forgets the font directories and leaves everything else as it
/// was: the cache directories, the match rules, the aliases and the rest.
pub proof fn lemma_reset_clears_only_dirs(config: FontConfigView, file: Seq<char>, xdg: Seq<char>)
    ensures
        config.with_part(ConfigPartView::ResetDirs, file, xdg) == (FontConfigView {
            dirs: Seq::empty(),
            ..config
        }),
        config.with_part(ConfigPartView::ResetDirs, file, xdg).dirs.len() == 0,
        config.with_part(ConfigPartView::ResetDirs, file, xdg).cache_dirs == config.cache_dirs,
        config.with_part(ConfigPartView::ResetDirs, file, xdg).matches == config.matches,
        config.with_part(ConfigPartView::ResetDirs, file, xdg).aliases == config.aliases,
{
}

impl FontConfig {
    /// A configuration that holds nothing.
    pub fn new() -> (r: FontConfig)
        ensures
            r.deep_view() == FontConfigView::empty(),
    {
        let r = FontConfig {
            select_fonts: Vec::new(),
            dirs: Vec::new(),
            cache_dirs: Vec::new(),
            remap_dirs: Vec::new(),
            matches: Vec::new(),
            config: Config::new(),
            aliases: Vec::new(),
        };
        proof {
            lemma_empty(r.select_fonts);
            lemma_empty(r.dirs);
            lemma_empty(r.cache_dirs);
            lemma_empty(r.remap_dirs);
            lemma_empty(r.matches);
            lemma_empty(r.aliases);
        }
        r
    }

    /// Folds the part `part` of the file `file` into the configuration,
    /// whose other parts stay as they are. `xdg` is the base directory of the
    /// user's data.
    pub fn apply(&mut self, part: ConfigPart, file: &str, xdg: &str)
        ensures
            final(self).deep_view() == old(self).deep_view().with_part(
                part.deep_view(),
                file@,
                xdg@,
            ),
    {
        match part {
            ConfigPart::Alias(alias) => {
                let ghost before = self.aliases;
                self.aliases.push(alias);
                proof {
                    lemma_pushed(before, self.aliases, alias);
                }
            },
            ConfigPart::Config(config) => {
                let mut config = config;
                self.config.rescans.append(&mut config.rescans);
                self.config.blanks.append(&mut config.blanks);
            },
            ConfigPart::Description(_) => {},
            ConfigPart::Dir(dir) => {
                let data = DirData { path: dir.calculate_path(file, xdg), salt: dir.salt };
                let ghost before = self.dirs;
                self.dirs.push(data);
                proof {
                    lemma_pushed(before, self.dirs, data);
                }
            },
            ConfigPart::CacheDir(dir) => {
                let path = dir.calculate_path(file, xdg);
                let ghost before = self.cache_dirs;
                self.cache_dirs.push(path);
                proof {
                    lemma_pushed(before, self.cache_dirs, path);
                }
            },
            ConfigPart::Match(rule) => {
                let ghost before = self.matches;
                let ghost pushed = rule;
                self.matches.push(rule);
                proof {
                    lemma_pushed(before, self.matches, pushed);
                }
            },
            ConfigPart::ResetDirs => {
                self.dirs.clear();
                proof {
                    lemma_empty(self.dirs);
                }
            },
            ConfigPart::SelectFont(selection) => {
                let ghost before = self.select_fonts;
                let ghost pushed = selection;
                self.select_fonts.push(selection);
                proof {
                    lemma_pushed(before, self.select_fonts, pushed);
                }
            },
            ConfigPart::RemapDir(dir) => {
                let data = RemapDirData {
                    path: dir.calculate_path(file, xdg),
                    salt: dir.salt,
                    as_path: dir.as_path,
                };
                let ghost before = self.remap_dirs;
                self.remap_dirs.push(data);
                proof {
                    lemma_pushed(before, self.remap_dirs, data);
                }
            },
            ConfigPart::Include(_) => {},
        }
    }
}

impl Default for FontConfig {
    fn default() -> (r: FontConfig)
        ensures
            r.deep_view() == FontConfigView::empty(),
    {
        FontConfig::new()
    }
}

} // verus!
