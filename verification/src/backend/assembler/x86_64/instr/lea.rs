use crate::backend::assembler::x86_64::enc::{
    encode, modrm, push_rex_operands, rex_operands, MEM_ADDR,
};
use crate::backend::assembler::x86_64::instr::common::{
    disp_bytes, disp_mode, displacement_mode, le_bytes, prefix16, push_displacement, push_le_bytes,
    push_prefix16,
};
use crate::backend::assembler::x86_64::mem::RegPtr;
use crate::backend::assembler::x86_64::regs::GPR;
use vstd::prelude::*;

verus! {

/// The number that stands for the instruction pointer as a base.
pub const RIP_ID: u8 = 16;

/// `lea dst, [src]`. With the instruction pointer as base the ModRM byte has
/// mode 00 and rm 101, and the offset follows in four bytes whatever its size.
pub open spec fn lea_bytes(dst: GPR, src: RegPtr) -> Seq<u8> {
    prefix16(dst.size) + rex_operands(dst.size, dst.id, src.reg.id) + seq![0x8Du8] + (if src.reg.id
        == RIP_ID {
        seq![modrm(MEM_ADDR, dst.id, 0b101)] + le_bytes(src.offset as u64, 4)
    } else {
        seq![modrm(disp_mode(src.offset), dst.id, src.reg.id)] + disp_bytes(src.offset)
    })
}

/// The instruction `lea`: the address of a memory operand into a register.
pub trait Lea: Sized {
    /// Whether the operands are a register and a memory operand as the encoder knows them.
    spec fn lea_operands(&self) -> bool;

    /// The encoding of `lea` with these operands.
    spec fn lea_encoding(&self) -> Seq<u8>;

    /// The bytes of `lea` with these operands.
    fn lea(self) -> (code: Vec<u8>)
        requires
            self.lea_operands(),
        ensures
            code@ == self.lea_encoding(),
    ;
}

impl Lea for (GPR, RegPtr) {
    open spec fn lea_operands(&self) -> bool {
        self.0.is_register() && self.1.wf()
    }

    open spec fn lea_encoding(&self) -> Seq<u8> {
        lea_bytes(self.0, self.1)
    }

    fn lea(self) -> (code: Vec<u8>) {
        let (dst, src) = self;
        let mut code: Vec<u8> = Vec::new();
        push_prefix16(&mut code, dst.size);
        push_rex_operands(&mut code, dst.size, dst.id, src.reg.id);
        code.push(0x8D);
        if src.reg.id == RIP_ID {
            code.push(encode(MEM_ADDR, dst.id, 0b101));
            push_le_bytes(&mut code, src.offset as u64, 4);
        } else {
            code.push(encode(displacement_mode(src.offset), dst.id, src.reg.id));
            push_displacement(&mut code, src.offset);
        }
        assert(code@ =~= lea_bytes(dst, src));
        code
    }
}

} // verus!
