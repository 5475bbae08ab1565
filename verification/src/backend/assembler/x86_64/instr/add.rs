use crate::backend::assembler::x86_64::instr::common::{
    encode_mem_imm, encode_mem_reg, encode_reg_imm, encode_reg_mem, encode_reg_reg,
    encodes, mem_imm, mem_reg, reg_imm, reg_mem, reg_reg, Encoding,
};
use crate::backend::assembler::x86_64::mem::RegPtr;
use crate::backend::assembler::x86_64::regs::GPR;
use crate::reporter::assembler::AssemblerError;
use vstd::prelude::*;

verus! {

/// The opcodes of `add` between two registers, by operand size.
pub const ADD_REG_REG: [u8; 4] = [0x00, 0x01, 0x01, 0x01];

/// The opcodes of `add` of an immediate to a register, by operand size.
pub const ADD_REG_IMM: [u8; 4] = [0x80, 0x81, 0x81, 0x81];

/// The opcodes of `add` from memory to a register, by operand size.
pub const ADD_REG_MEM: [u8; 4] = [0x02, 0x03, 0x03, 0x03];

/// The opcodes of `add` from a register to memory, by operand size.
pub const ADD_MEM_REG: [u8; 4] = [0x00, 0x01, 0x01, 0x01];

/// The opcodes of `add` of an immediate to memory, by operand size.
pub const ADD_MEM_IMM: [u8; 4] = [0x83, 0x81, 0x81, 0x81];

/// The middle field of the ModRM byte that selects `add` among the
/// instructions that share its immediate opcodes.
pub const ADD_OPBITS: u8 = 0b000;

/// The instruction `add`, for each pair of operand kinds that it takes:
/// the destination first, then the source.
pub trait Add: Sized {
    /// Whether the operands are registers and memory operands as the encoder knows them.
    spec fn add_operands(&self) -> bool;

    /// The encoding of `add` with these operands.
    spec fn add_encoding(&self) -> Encoding;

    /// The bytes of `add` with these operands; an error where two
    /// operands differ in size or an immediate does not fit.
    fn add(self) -> (r: Result<Vec<u8>, AssemblerError>)
        requires
            self.add_operands(),
        ensures
            encodes(r, self.add_encoding()),
    ;
}

/// `add dst, src` between two registers.
impl Add for (GPR, GPR) {
    open spec fn add_operands(&self) -> bool {
        self.0.is_register() && self.1.is_register()
    }

    open spec fn add_encoding(&self) -> Encoding {
        reg_reg(ADD_REG_REG, self.0, self.1)
    }

    fn add(self) -> (r: Result<Vec<u8>, AssemblerError>) {
        encode_reg_reg(ADD_REG_REG, self.0, self.1)
    }
}

/// `add dst, imm` of an immediate to a register.
impl Add for (GPR, isize) {
    open spec fn add_operands(&self) -> bool {
        self.0.is_register()
    }

    open spec fn add_encoding(&self) -> Encoding {
        reg_imm(ADD_REG_IMM, ADD_OPBITS, self.0, self.1)
    }

    fn add(self) -> (r: Result<Vec<u8>, AssemblerError>) {
        encode_reg_imm(ADD_REG_IMM, ADD_OPBITS, self.0, self.1)
    }
}

/// `add dst, [src]` from memory to a register.
impl Add for (GPR, RegPtr) {
    open spec fn add_operands(&self) -> bool {
        self.0.is_register() && self.1.wf()
    }

    open spec fn add_encoding(&self) -> Encoding {
        reg_mem(ADD_REG_MEM, self.0, self.1)
    }

    fn add(self) -> (r: Result<Vec<u8>, AssemblerError>) {
        encode_reg_mem(ADD_REG_MEM, self.0, self.1)
    }
}

/// `add [dst], src` from a register to memory.
impl Add for (RegPtr, GPR) {
    open spec fn add_operands(&self) -> bool {
        self.0.wf() && self.1.is_register()
    }

    open spec fn add_encoding(&self) -> Encoding {
        mem_reg(ADD_MEM_REG, self.0, self.1)
    }

    fn add(self) -> (r: Result<Vec<u8>, AssemblerError>) {
        encode_mem_reg(ADD_MEM_REG, self.0, self.1)
    }
}

/// `add [dst], imm` of an immediate to memory.
impl Add for (RegPtr, isize) {
    open spec fn add_operands(&self) -> bool {
        self.0.wf()
    }

    open spec fn add_encoding(&self) -> Encoding {
        mem_imm(ADD_MEM_IMM, ADD_OPBITS, self.0, self.1)
    }

    fn add(self) -> (r: Result<Vec<u8>, AssemblerError>) {
        encode_mem_imm(ADD_MEM_IMM, ADD_OPBITS, self.0, self.1)
    }
}

} // verus!
