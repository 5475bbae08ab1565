use vstd::prelude::*;

verus! {

/// What can go wrong while encoding instructions or laying out code.
#[derive(Debug)]
pub enum AssemblerError {
    /// A jump names a symbol that cannot be resolved.
    CannotResolveJump { symbol: String },
    /// The two non-immediate operands of an instruction differ in size.
    OperandSizeMismatch,
    /// An immediate does not fit the width of its destination.
    ImmediateTooLarge,
    Unknown,
}

} // verus!
