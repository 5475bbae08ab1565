use crate::backend::assembler::x86_64::instr::jmp::{branch, encode_branch};
use vstd::prelude::*;

verus! {

/// The call, for a target given as an offset from the start of the instruction.
pub trait Call: Sized {
    /// The encoding of the call.
    spec fn call_encoding(&self) -> Seq<u8>;

    /// The bytes of the call.
    fn call(self) -> (code: Vec<u8>)
        ensures
            code@ == self.call_encoding(),
    ;
}

impl Call for isize {
    open spec fn call_encoding(&self) -> Seq<u8> {
        branch(0xE8, *self)
    }

    fn call(self) -> (code: Vec<u8>) {
        encode_branch(0xE8, self)
    }
}

} // verus!
