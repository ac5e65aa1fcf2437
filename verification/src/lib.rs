//! A hand-written lexer and recursive-descent parser for the GraphQL
//! language, producing a position-annotated abstract syntax tree or a
//! diagnostic on failure.
//!
//! The lexer and the parser are specified exactly: `lexer::lex` returns
//! precisely the token sequence that the spec-level scanner
//! `lexer::spec_lex` describes, and each parser production returns precisely
//! what its spec-level counterpart describes.

pub mod constants;
pub mod helpers;
pub mod lexer;
pub mod lsp_types;
pub mod parser;
pub mod pretty_print;
