use vstd::prelude::*;

verus! {

/// The error of an operation on files, of std.
#[verifier::external_type_specification]
#[verifier::external_body]
pub struct ExIoError(std::io::Error);

/// What can go wrong while macros are expanded.
#[derive(Debug)]
pub enum PreprocessorError {
    /// A file could not be read.
    FileReadError { filename: String, source: std::io::Error },
    /// A macro is called without an opening parenthesis.
    MissingParenthesis { text: String },
    Unknown,
}

impl PreprocessorError {
    pub fn file_read_error(filename: String, source: std::io::Error) -> (e: PreprocessorError)
        ensures
            e matches PreprocessorError::FileReadError { filename: f, source: s } && f@ == filename@
                && s == source,
    {
        PreprocessorError::FileReadError { filename, source }
    }

    pub fn missing_parenthesis(text: String) -> (e: PreprocessorError)
        ensures
            e matches PreprocessorError::MissingParenthesis { text: t } && t@ == text@,
    {
        PreprocessorError::MissingParenthesis { text }
    }
}

} // verus!
