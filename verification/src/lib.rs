//! A typed view over the syntax tree of the Nix expression language.
//!
//! `token` holds the lexical token kinds, `tree` the lossless syntax tree
//! (green nodes and positions in them), `ops` the operator kinds, `typed`
//! the strongly typed wrappers around syntax nodes, `filter` the removal of
//! entries from patterns and sets, and `laws` the properties that relate
//! several of these functions.

pub mod token;
pub mod ops;
pub mod tree;
pub mod typed;
pub mod filter;
pub mod laws;
