//! The front end: tokens, the scanner that makes them, the macros that are
//! expanded before the text is scanned for good, and the parsers that read
//! the tokens into syntax trees.

pub mod ast;
pub mod lexer;
pub mod parser;
pub mod preprocessor;
pub mod text;
pub mod token;
