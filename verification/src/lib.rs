//! A lexer and a recursive-descent parser for a small Java subset.
pub mod ast;
pub mod front;
pub mod grammar;
pub mod lexer;
pub mod parser;
pub mod progress;
pub mod readings;
pub mod text;
