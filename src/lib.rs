//! Front end of a small statically typed language: a lexer with one-token
//! lookahead, a recursive-descent parser and a resolver for type annotations.
pub mod ast;
pub mod chars;
pub mod codegen;
pub mod error;
pub mod lexer;
pub mod parser;
pub mod tokens;
pub mod types;
