//! A lexical scanner for a small C-like scripting language.
//!
//! The scanner converts raw source text into a linear sequence of classified
//! tokens (punctuation, operators, literals, identifiers, keywords, and a
//! terminal end-of-file marker), reporting line-numbered diagnostics for
//! malformed input while continuing to scan as far as possible.

pub mod chars;
pub mod cursor;
pub mod laws;
pub mod text;
pub mod model;
pub mod render;
pub mod scan;
pub mod token;
