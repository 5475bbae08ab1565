//! Typed errors, one enum per compilation stage.

pub mod assembler;
pub mod comp;
pub mod lex;
pub mod obj;
pub mod parse;
pub mod prep;
pub mod usr;
