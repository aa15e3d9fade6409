//! A lexical scanner for a small C-like scripting language.
//!
//! The scanner turns source text into an ordered sequence of classified
//! tokens, the first stage of a language front end. The observable token
//! sequence is pinned down by a mathematical model of the scan over the
//! source text as a sequence of characters.

pub mod laws;
pub mod model;
pub mod scanner;
pub mod tokens;
