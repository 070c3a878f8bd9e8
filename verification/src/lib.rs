//! A small persistent store for named BASIC programs, and the text of the
//! interactive help.
//!
//! Programs are kept in a flat string-keyed backend under namespaced,
//! case-insensitive keys, each with its content and last modification time.

pub mod backend;
pub mod clock;
pub mod entry;
pub mod error;
pub mod help;
pub mod json;
pub mod key;
pub mod memory;
pub mod ordered;
pub mod store;
pub mod text;
pub mod timestamp;
