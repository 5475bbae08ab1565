use vstd::prelude::*;
use vstd::string::StringExecFns;

verus! {

/// What can go wrong at the command line.
#[derive(Debug)]
pub enum CliError {
    /// No source file was named; `usage` says how to name one.
    NoSourceFileProvided { usage: String },
    /// A file could not be read.
    FileReadError { filename: String, source: std::io::Error },
    Unknown,
}

/// How to call the program that is named `program_name`.
pub open spec fn usage_text(program_name: Seq<char>) -> Seq<char> {
    program_name + " <source file>\n  ℹ️  Use `--help` for more information."@
}

impl CliError {
    pub fn missing_file_usage(program_name: String) -> (e: CliError)
        ensures
            e matches CliError::NoSourceFileProvided { usage } && usage@ == usage_text(program_name@),
    {
        let mut usage = program_name;
        usage.append(" <source file>\n  ℹ️  Use `--help` for more information.");
        CliError::NoSourceFileProvided { usage }
    }

    pub fn file_read_error(filename: String, source: std::io::Error) -> (e: CliError)
        ensures
            e matches CliError::FileReadError { filename: f, source: s } && f@ == filename@ && s
                == source,
    {
        CliError::FileReadError { filename, source }
    }
}

} // verus!
