use vstd::prelude::*;
use vstd::string::StringExecFns;

verus! {

/// The bit of a function's flag set that keeps its plain name as its symbol.
pub const NO_MANGLE: u16 = 1;

/// A modifier that source text can put on a function.
#[derive(Debug, Clone, Copy, PartialEq, Eq, Structural)]
pub enum FunctionModifer {
    NoMangle,
}

impl FunctionModifer {
    /// The modifier's bit in a function's flag set.
    pub open spec fn bit(self) -> u16 {
        match self {
            FunctionModifer::NoMangle => NO_MANGLE,
        }
    }

    /// The modifier's bit in a function's flag set.
    pub fn bits(self) -> (b: u16)
        ensures
            b == self.bit(),
    {
        match self {
            FunctionModifer::NoMangle => NO_MANGLE,
        }
    }

    /// The modifier that `s` spells, if it spells one.
    pub fn from_str(s: &str) -> (m: Option<FunctionModifer>)
        ensures
            m == (if s@ == "no_mangle"@ {
                Some(FunctionModifer::NoMangle)
            } else {
                None
            }),
    {
        let given = String::from_str(s);
        let keyword = String::from_str("no_mangle");
        if given == keyword {
            Some(FunctionModifer::NoMangle)
        } else {
            None
        }
    }
}

} // verus!
