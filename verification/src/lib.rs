//! Loading of font-configuration rule documents.
//!
//! A document is read from its events, one by one ([`DocumentReader`]), or
//! from its tree ([`parse_document`], [`parse_config`]). The parts of a tree
//! of documents are merged into one configuration ([`FontConfig`]) by a
//! [`Merger`], which leaves every look at the file system to its caller.
//!
//! Every function says in its contract what it returns, over the views of
//! the values, and Verus proves it. What the markup crates do is taken on
//! trust, in [`events`] and [`tree`]; what a whole merge comes to is said and
//! proved in [`model`]. A document may declare its type, which the library
//! checks in [`prolog`], and no entities.

pub mod attributes;
pub mod config;
pub mod dirs;
pub mod document;
pub mod document_reader;
pub mod entries;
pub mod error;
pub mod events;
pub mod expressions;
pub mod literal;
pub mod merge;
pub mod merger;
pub mod model;
pub mod parser;
pub mod parts;
pub mod paths;
pub mod prolog;
pub mod property;
pub mod reader;
pub mod rules;
pub mod settings;
pub mod text;
pub mod tree;
pub mod value;
pub mod views;

pub use crate::config::{Alias, Config, FontMatch, IntOrRange, SelectFont};
pub use crate::dirs::{CacheDir, Dir, DirPrefix, Include, RemapDir};
pub use crate::document::{ConfigPart, DirData, Document, FontConfig, RemapDirData};
pub use crate::document_reader::DocumentReader;
pub use crate::entries::{DirEntry, EntryKind};
pub use crate::error::Error;
pub use crate::events::EventReader;
pub use crate::merger::{Merged, Merger, Reply, Report, Request};
pub use crate::parser::{
    parse_config, parse_config_text, parse_document, parse_document_text, ConfigParts,
};
pub use crate::property::{Property, PropertyKind, ValueType};
pub use crate::rules::{
    Edit, EditBinding, EditMode, Match, MatchTarget, Test, TestCompare, TestQual, TestTarget,
};
pub use crate::tree::{XmlAttribute, XmlNode};
pub use crate::value::{
    BinaryOp, Constant, ConstantFamily, Double, Expression, ListOp, PropertyTarget, TernaryOp,
    UnaryOp, Value,
};
