//! Incremental source-code analysis core for a language server.
//!
//! The crate keeps, per open document, a byte buffer, a concrete syntax
//! tree, an ordered scope sequence, a definition/reference table and a
//! diagnostics list, and updates all of them across edits.

pub mod assets;
pub mod convert;
pub mod diagnostics;
pub mod edits;
pub mod engine;
pub mod handlers;
pub mod index;
pub mod keywords;
pub mod kinds;
pub mod queries;
pub mod scopes;
pub mod store;
pub mod strmap;
pub mod strutil;
pub mod types;
