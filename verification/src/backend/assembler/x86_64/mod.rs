//! Encoders for a subset of the x86-64 instruction set.

pub mod enc;
pub mod instr;
pub mod mem;
pub mod regs;
