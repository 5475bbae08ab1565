use crate::backend::assembler::x86_64::instr::common::{
    encode_mem_imm, encode_mem_reg, encode_reg_imm_short, encode_reg_mem, encode_reg_reg,
    encodes, mem_imm, mem_reg, reg_imm_short, reg_mem, reg_reg, Encoding,
};
use crate::backend::assembler::x86_64::mem::RegPtr;
use crate::backend::assembler::x86_64::regs::GPR;
use crate::reporter::assembler::AssemblerError;
use vstd::prelude::*;

verus! {

/// The opcodes of `mov` between two registers, by operand size.
pub const MOV_REG_REG: [u8; 4] = [0x88, 0x89, 0x89, 0x89];

/// The opcodes of `mov` of an immediate to a register, by operand size.
pub const MOV_REG_IMM: [u8; 4] = [0xB0, 0xB8, 0xB8, 0xB8];

/// The opcodes of `mov` from memory to a register, by operand size.
pub const MOV_REG_MEM: [u8; 4] = [0x8A, 0x8B, 0x8B, 0x8B];

/// The opcodes of `mov` from a register to memory, by operand size.
pub const MOV_MEM_REG: [u8; 4] = [0x88, 0x89, 0x89, 0x89];

/// The opcodes of `mov` of an immediate to memory, by operand size.
pub const MOV_MEM_IMM: [u8; 4] = [0xC6, 0xC7, 0xC7, 0xC7];

/// The middle field of the ModRM byte that selects `mov` among the
/// instructions that share its immediate opcodes.
pub const MOV_OPBITS: u8 = 0b000;

/// The instruction `mov`, for each pair of operand kinds that it takes:
/// the destination first, then the source.
pub trait Mov: Sized {
    /// Whether the operands are registers and memory operands as the encoder knows them.
    spec fn mov_operands(&self) -> bool;

    /// The encoding of `mov` with these operands.
    spec fn mov_encoding(&self) -> Encoding;

    /// The bytes of `mov` with these operands; an error where two
    /// operands differ in size or an immediate does not fit.
    fn mov(self) -> (r: Result<Vec<u8>, AssemblerError>)
        requires
            self.mov_operands(),
        ensures
            encodes(r, self.mov_encoding()),
    ;
}

/// `mov dst, src` between two registers.
impl Mov for (GPR, GPR) {
    open spec fn mov_operands(&self) -> bool {
        self.0.is_register() && self.1.is_register()
    }

    open spec fn mov_encoding(&self) -> Encoding {
        reg_reg(MOV_REG_REG, self.0, self.1)
    }

    fn mov(self) -> (r: Result<Vec<u8>, AssemblerError>) {
        encode_reg_reg(MOV_REG_REG, self.0, self.1)
    }
}

/// `mov dst, imm` of an immediate to a register.
impl Mov for (GPR, isize) {
    open spec fn mov_operands(&self) -> bool {
        self.0.is_register()
    }

    open spec fn mov_encoding(&self) -> Encoding {
        reg_imm_short(MOV_REG_IMM, self.0, self.1)
    }

    fn mov(self) -> (r: Result<Vec<u8>, AssemblerError>) {
        encode_reg_imm_short(MOV_REG_IMM, self.0, self.1)
    }
}

/// `mov dst, [src]` from memory to a register.
impl Mov for (GPR, RegPtr) {
    open spec fn mov_operands(&self) -> bool {
        self.0.is_register() && self.1.wf()
    }

    open spec fn mov_encoding(&self) -> Encoding {
        reg_mem(MOV_REG_MEM, self.0, self.1)
    }

    fn mov(self) -> (r: Result<Vec<u8>, AssemblerError>) {
        encode_reg_mem(MOV_REG_MEM, self.0, self.1)
    }
}

/// `mov [dst], src` from a register to memory.
impl Mov for (RegPtr, GPR) {
    open spec fn mov_operands(&self) -> bool {
        self.0.wf() && self.1.is_register()
    }

    open spec fn mov_encoding(&self) -> Encoding {
        mem_reg(MOV_MEM_REG, self.0, self.1)
    }

    fn mov(self) -> (r: Result<Vec<u8>, AssemblerError>) {
        encode_mem_reg(MOV_MEM_REG, self.0, self.1)
    }
}

/// `mov [dst], imm` of an immediate to memory.
impl Mov for (RegPtr, isize) {
    open spec fn mov_operands(&self) -> bool {
        self.0.wf()
    }

    open spec fn mov_encoding(&self) -> Encoding {
        mem_imm(MOV_MEM_IMM, MOV_OPBITS, self.0, self.1)
    }

    fn mov(self) -> (r: Result<Vec<u8>, AssemblerError>) {
        encode_mem_imm(MOV_MEM_IMM, MOV_OPBITS, self.0, self.1)
    }
}

} // verus!
