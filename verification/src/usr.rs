use vstd::prelude::*;

verus! {

/// What one run of the compiler works on: the source files that were
/// named, and where the result goes.
pub struct CompilationInstance {
    pub sources: Vec<String>,
    pub output: String,
}

impl CompilationInstance {
    /// A run without source files and without an output.
    pub fn new() -> (instance: CompilationInstance)
        ensures
            instance.sources@.len() == 0,
            instance.output@.len() == 0,
    {
        CompilationInstance { sources: Vec::new(), output: String::new() }
    }
}

} // verus!
