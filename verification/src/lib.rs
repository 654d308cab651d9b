//! The front end of a small expression language: a scanner that turns
//! source text into tokens, a recursive-descent parser that turns tokens into
//! a syntax tree held in an arena, and the data model of a binder that is to
//! give each node of the tree a type.
//!
//! - [`token`]: the tokens and the scanner; [`scan`] says what it reads.
//! - [`parse`]: the tree and the parser; [`grammar`] says what it builds, in
//!   the steps of [`step`].
//! - [`bind`]: type terms, the stack of scopes, and trees with types.
//! - [`report`]: the diagnostics of a pass.
//! - [`text`]: decimal numerals, and byte offsets in UTF-8.

pub mod bind;
pub mod grammar;
pub mod parse;
pub mod report;
pub mod scan;
pub mod step;
pub mod text;
pub mod token;

pub use parse::parse;
pub use token::tokenize;
