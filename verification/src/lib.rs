//! The rules of a notebook kept as files under one root directory: which
//! paths a caller may name, what the note tree shows and in which order, and
//! what names a new folder, a new note or a renamed entry may have.
//!
//! Paths are text with `/` between components. The library never touches a
//! file system. Where a rule depends on what exists, the caller asks and
//! hands the answer in.

pub mod agreement;
pub mod command;
pub mod error;
pub mod guarantees;
pub mod listing;
pub mod name;
pub mod ops;
pub mod parts;
pub mod path;
pub mod resolver;
pub mod settings;
pub mod sorting;
pub mod text;
pub mod tree;
