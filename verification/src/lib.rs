//! A lexical analyzer for a small dynamically-typed scripting language.
//!
//! The scanner walks a source text once, groups characters into lexemes,
//! classifies each lexeme into a token kind, and tracks the 1-based source
//! line for diagnostics.  Malformed input is reported and skipped, never
//! fatal: every scan ends with exactly one end-of-input token.

pub mod errors;
pub mod laws;
pub mod model;
pub mod scanner;
pub mod token;
