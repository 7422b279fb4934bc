//! A formatter and a check for unbound identifiers for Fusion, a Lisp-like language.
//!
//! A source text is parsed into a concrete syntax tree (`parser`, over the tokens of
//! `lexer` and the rules of `grammar`), lowered into an intermediate tree (`ist`), fixed up
//! and written as canonical text (`format`). The contracts speak of the trees through the
//! model in `model`, and of text through the functions of `text`.
pub mod ast;
pub mod check;
pub mod config;
pub mod error;
pub mod file;
pub mod format;
pub mod grammar;
pub mod index;
pub mod ist;
pub mod lexer;
pub mod model;
pub mod parser;
pub mod source;
pub mod span;
pub mod spans;
pub mod string_util;
pub mod text;
