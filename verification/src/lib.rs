//! A recursive-descent parser for a small regular-expression pattern
//! language: literal characters, the `.` wildcard, single-character
//! escapes, grouping with `(...)`, and the postfix quantifiers `*` and
//! `+`. The parser produces an abstract syntax tree; no matching engine
//! is provided.
//!
//! The input is scanned byte by byte: positions in error messages are
//! byte offsets, and each byte is treated as a standalone character, so
//! the parser is only meaningful for single-byte (e.g. ASCII) input.

pub mod ast;
pub mod error;
pub mod parser;

pub use ast::Re;
pub use parser::parse_regex;
