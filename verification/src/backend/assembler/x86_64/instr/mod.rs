pub mod add;
pub mod call;
pub mod common;
pub mod jmp;
pub mod lea;
pub mod mov;
pub mod sub;
