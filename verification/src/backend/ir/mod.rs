//! The intermediate representation: types, expressions, functions and modules.

pub mod expr;
pub mod flags;
pub mod helper;
pub mod module;
pub mod text;
pub mod types;

pub use expr::{BinaryOp, Expr, Function, FunctionCall, Literal, Reference, Statement};
pub use module::Module;
pub use types::DataType;
