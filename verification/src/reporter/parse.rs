use crate::frontend::token::TokenType;
use vstd::prelude::*;

verus! {

/// What can go wrong while tokens are read into syntax trees.
#[derive(Debug, Clone, Copy, PartialEq, Eq, Structural)]
pub enum ParserError {
    /// The tokens end where one is needed.
    UnexpectedEnd,
    /// A token of the kind `found` stands where one of the kind `expected` is needed.
    Expected { expected: TokenType, found: TokenType },
    /// A token of a kind that cannot stand where it does.
    UnexpectedToken { found: TokenType },
    /// An integer that is not written in decimal digits, or does not fit 64 bits.
    WrongLiteral,
}

} // verus!
