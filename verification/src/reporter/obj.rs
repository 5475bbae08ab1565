use vstd::prelude::*;

verus! {

/// What can go wrong while an object file is put together.
#[derive(Debug)]
pub enum ObjectError {
    /// A relocation names a symbol that the symbol table lacks.
    SymbolNotFound { symbol: String },
    /// The object writer refused a relocation against this symbol.
    RelocationFailed { symbol: String },
    /// The finished object could not be written to this file.
    FileWriteFailed { file: String },
    Unknown,
}

} // verus!
