use crate::backend::assembler::x86_64::regs::{valid_size, GPR};
use vstd::prelude::*;

verus! {

/// A memory operand: a base register, a byte offset from it, and the size in
/// bytes of what is read or written there.
#[derive(Debug, Clone, Copy, PartialEq, Eq, Structural)]
pub struct RegPtr {
    pub reg: GPR,
    pub offset: i32,
    pub size: u8,
}

impl RegPtr {
    /// Whether the base can be a base and the operand has the size of a register.
    pub open spec fn wf(self) -> bool {
        self.reg.is_base() && valid_size(self.size)
    }
}

/// The memory operand of `size` bytes at `offset` from `reg`.
pub fn ptr(reg: GPR, offset: i32, size: u8) -> (p: RegPtr)
    ensures
        p == (RegPtr { reg, offset, size }),
{
    RegPtr { reg, offset, size }
}

} // verus!
