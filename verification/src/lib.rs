//! A tree-walking interpreter for the Lox language: scanner, parser and resolver.
pub mod lexer;
pub mod operators;
pub mod parser;
pub mod resolver;
pub mod runtime;
pub mod text;
