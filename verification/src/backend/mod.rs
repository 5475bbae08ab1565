pub mod assembler;
pub mod ir;
pub mod opt;
pub mod writer;
