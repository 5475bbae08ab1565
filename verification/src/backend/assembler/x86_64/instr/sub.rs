use crate::backend::assembler::x86_64::instr::common::{
    encode_mem_imm, encode_mem_reg, encode_reg_imm, encode_reg_mem, encode_reg_reg,
    encodes, mem_imm, mem_reg, reg_imm, reg_mem, reg_reg, Encoding,
};
use crate::backend::assembler::x86_64::mem::RegPtr;
use crate::backend::assembler::x86_64::regs::GPR;
use crate::reporter::assembler::AssemblerError;
use vstd::prelude::*;

verus! {

/// The opcodes of `sub` between two registers, by operand size.
pub const SUB_REG_REG: [u8; 4] = [0x2A, 0x2B, 0x2B, 0x2B];

/// The opcodes of `sub` of an immediate to a register, by operand size.
pub const SUB_REG_IMM: [u8; 4] = [0x80, 0x81, 0x81, 0x81];

/// The opcodes of `sub` from memory to a register, by operand size.
pub const SUB_REG_MEM: [u8; 4] = [0x2A, 0x2B, 0x2B, 0x2B];

/// The opcodes of `sub` from a register to memory, by operand size.
pub const SUB_MEM_REG: [u8; 4] = [0x28, 0x29, 0x29, 0x29];

/// The opcodes of `sub` of an immediate to memory, by operand size.
pub const SUB_MEM_IMM: [u8; 4] = [0x83, 0x81, 0x81, 0x81];

/// The middle field of the ModRM byte that selects `sub` among the
/// instructions that share its immediate opcodes.
pub const SUB_OPBITS: u8 = 0b101;

/// The instruction `sub`, for each pair of operand kinds that it takes:
/// the destination first, then the source.
pub trait Sub: Sized {
    /// Whether the operands are registers and memory operands as the encoder knows them.
    spec fn sub_operands(&self) -> bool;

    /// The encoding of `sub` with these operands.
    spec fn sub_encoding(&self) -> Encoding;

    /// The bytes of `sub` with these operands; an error where two
    /// operands differ in size or an immediate does not fit.
    fn sub(self) -> (r: Result<Vec<u8>, AssemblerError>)
        requires
            self.sub_operands(),
        ensures
            encodes(r, self.sub_encoding()),
    ;
}

/// `sub dst, src` between two registers. The opcode is the one that reads
/// its source from the ModRM rm field, so the two registers change places
/// in the encoding.
impl Sub for (GPR, GPR) {
    open spec fn sub_operands(&self) -> bool {
        self.0.is_register() && self.1.is_register()
    }

    open spec fn sub_encoding(&self) -> Encoding {
        reg_reg(SUB_REG_REG, self.1, self.0)
    }

    fn sub(self) -> (r: Result<Vec<u8>, AssemblerError>) {
        encode_reg_reg(SUB_REG_REG, self.1, self.0)
    }
}

/// `sub dst, imm` of an immediate to a register.
impl Sub for (GPR, isize) {
    open spec fn sub_operands(&self) -> bool {
        self.0.is_register()
    }

    open spec fn sub_encoding(&self) -> Encoding {
        reg_imm(SUB_REG_IMM, SUB_OPBITS, self.0, self.1)
    }

    fn sub(self) -> (r: Result<Vec<u8>, AssemblerError>) {
        encode_reg_imm(SUB_REG_IMM, SUB_OPBITS, self.0, self.1)
    }
}

/// `sub dst, [src]` from memory to a register.
impl Sub for (GPR, RegPtr) {
    open spec fn sub_operands(&self) -> bool {
        self.0.is_register() && self.1.wf()
    }

    open spec fn sub_encoding(&self) -> Encoding {
        reg_mem(SUB_REG_MEM, self.0, self.1)
    }

    fn sub(self) -> (r: Result<Vec<u8>, AssemblerError>) {
        encode_reg_mem(SUB_REG_MEM, self.0, self.1)
    }
}

/// `sub [dst], src` from a register to memory.
impl Sub for (RegPtr, GPR) {
    open spec fn sub_operands(&self) -> bool {
        self.0.wf() && self.1.is_register()
    }

    open spec fn sub_encoding(&self) -> Encoding {
        mem_reg(SUB_MEM_REG, self.0, self.1)
    }

    fn sub(self) -> (r: Result<Vec<u8>, AssemblerError>) {
        encode_mem_reg(SUB_MEM_REG, self.0, self.1)
    }
}

/// `sub [dst], imm` of an immediate to memory.
impl Sub for (RegPtr, isize) {
    open spec fn sub_operands(&self) -> bool {
        self.0.wf()
    }

    open spec fn sub_encoding(&self) -> Encoding {
        mem_imm(SUB_MEM_IMM, SUB_OPBITS, self.0, self.1)
    }

    fn sub(self) -> (r: Result<Vec<u8>, AssemblerError>) {
        encode_mem_imm(SUB_MEM_IMM, SUB_OPBITS, self.0, self.1)
    }
}

} // verus!
