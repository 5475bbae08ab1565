use vstd::prelude::*;

verus! {

/// What can go wrong while a module is built.
#[derive(Debug)]
pub enum CompilerError {
    /// A function with this signature is already in the module.
    AlreadyDefinedFunction { name: String },
    /// No overload of the called function takes the given arguments.
    FunctionNotFound { name: String },
    /// The module has no type of this name.
    TypeNotFound { name: String },
    /// The two sides of a binary expression have different types.
    TypeMismatch,
    Unknown,
}

} // verus!
