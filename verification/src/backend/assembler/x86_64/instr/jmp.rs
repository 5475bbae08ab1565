use crate::backend::assembler::x86_64::instr::common::le_bytes;
use crate::backend::assembler::x86_64::instr::common::push_le_bytes;
use vstd::prelude::*;

verus! {

/// The bytes of a five-byte relative branch with this opcode to the target
/// `target`: the opcode, then `target - 5` in four bytes, least significant first.
pub open spec fn branch(opcode: u8, target: isize) -> Seq<u8> {
    seq![opcode] + le_bytes(vstd::wrapping::u64_specs::wrapping_sub(target as u64, 5), 4)
}

/// Encodes a five-byte relative branch.
pub fn encode_branch(opcode: u8, target: isize) -> (code: Vec<u8>)
    ensures
        code@ == branch(opcode, target),
{
    let mut code: Vec<u8> = Vec::new();
    code.push(opcode);
    push_le_bytes(&mut code, (target as u64).wrapping_sub(5), 4);
    code
}

/// The unconditional jump, for a target given as an offset from the start of
/// the instruction.
pub trait Jmp: Sized {
    /// The encoding of the jump.
    spec fn jmp_encoding(&self) -> Seq<u8>;

    /// The bytes of the jump.
    fn jmp(self) -> (code: Vec<u8>)
        ensures
            code@ == self.jmp_encoding(),
    ;
}

impl Jmp for isize {
    open spec fn jmp_encoding(&self) -> Seq<u8> {
        branch(0xE9, *self)
    }

    fn jmp(self) -> (code: Vec<u8>) {
        encode_branch(0xE9, self)
    }
}

} // verus!
