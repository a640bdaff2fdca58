//! Token-pattern matching and lint rules over tokenized prose.
//!
//! A [`Document`] pairs a text with the tokens found in it. A
//! [`patterns::Pattern`] decides how many leading tokens of a slice belong to
//! a construction, and patterns can be inverted and repeated. A
//! [`linting::Linter`] scans a document and reports [`linting::Lint`]s, each
//! with the changes that would settle it; [`linting::AdjectiveOfA`] is such a
//! rule.
//!
//! The tokens and their capabilities come from outside: the library reads
//! them and never makes them.

pub mod char_string;
pub mod document;
pub mod linting;
pub mod patterns;
pub mod span;
pub mod token;

pub use document::{Document, DocumentView};
pub use span::Span;
pub use token::{Token, TokenKind};
