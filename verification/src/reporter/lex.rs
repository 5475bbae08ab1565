use vstd::prelude::*;

verus! {

/// What can go wrong while source text is split into tokens.
#[derive(Debug)]
pub enum LexerError {
    /// A character that no token can hold, with its place and the line it stands in.
    InvalidCharacter { character: char, line: usize, column: usize, text: String },
    Unknown,
}

impl LexerError {
    pub fn invalid_character(character: char, line: usize, column: usize, text: String) -> (e:
        LexerError)
        ensures
            e matches LexerError::InvalidCharacter { character: c, line: l, column: n, text: t }
                && c == character && l == line && n == column && t@ == text@,
    {
        LexerError::InvalidCharacter { character, line, column, text }
    }
}

} // verus!
