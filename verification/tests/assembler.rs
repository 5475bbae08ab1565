use wind::backend::assembler::x86_64::enc::encode;
use wind::backend::assembler::x86_64::instr::add::Add;
use wind::backend::assembler::x86_64::instr::call::Call;
use wind::backend::assembler::x86_64::instr::jmp::Jmp;
use wind::backend::assembler::x86_64::instr::lea::Lea;
use wind::backend::assembler::x86_64::instr::mov::Mov;
use wind::backend::assembler::x86_64::instr::sub::Sub;
use wind::backend::assembler::x86_64::mem::ptr;
use wind::backend::assembler::x86_64::regs::{
    ax, cx, eax, ecx, r10, r13, r15, r15d, r8b, r9, r9d, rax, rbp, rcx, rip, rsi, rsp, GPR,
};
use wind::reporter::assembler::AssemblerError;

#[test]
fn asm_assemble_mov() {
    assert_eq!((rax(), r15()).mov().unwrap(), vec![0x4C, 0x89, 0xF8]);
    assert_eq!((r15d(), 128).mov().unwrap(), vec![0x41, 0xBF, 0x80, 0x00, 0x00, 0x00]);
    assert_eq!(
        (rax(), ptr(rbp(), -256, 8)).mov().unwrap(),
        vec![0x48, 0x8B, 0x85, 0x00, 0xFF, 0xFF, 0xFF]
    );
    assert_eq!((ptr(rbp(), -128, 4), ecx()).mov().unwrap(), vec![0x89, 0x4D, 0x80]);
    assert_eq!(
        (ptr(rbp(), -128, 2), 128).mov().unwrap(),
        vec![0x66, 0xC7, 0x45, 0x80, 0x80, 0x00]
    );
}

#[test]
fn asm_assemble_add() {
    assert_eq!((rax(), rcx()).add().unwrap(), vec![0x48, 0x01, 0xC8]);
    assert_eq!((r15d(), 128).add().unwrap(), vec![0x41, 0x81, 0xC7, 0x80, 0x00, 0x00, 0x00]);
    assert_eq!(
        (rax(), ptr(rbp(), -256, 8)).add().unwrap(),
        vec![0x48, 0x03, 0x85, 0x00, 0xFF, 0xFF, 0xFF]
    );
    assert_eq!((ptr(rbp(), -128, 4), ecx()).add().unwrap(), vec![0x01, 0x4D, 0x80]);
    assert_eq!(
        (ptr(rbp(), -128, 2), 128).add().unwrap(),
        vec![0x66, 0x81, 0x45, 0x80, 0x80, 0x00]
    );
}

#[test]
fn asm_assemble_sub() {
    assert_eq!((rax(), rcx()).sub().unwrap(), vec![0x48, 0x2B, 0xC1]);
    assert_eq!((r15d(), 128).sub().unwrap(), vec![0x41, 0x81, 0xEF, 0x80, 0x00, 0x00, 0x00]);
    assert_eq!(
        (rax(), ptr(rbp(), -256, 8)).sub().unwrap(),
        vec![0x48, 0x2B, 0x85, 0x00, 0xFF, 0xFF, 0xFF]
    );
    assert_eq!((ptr(rbp(), -128, 4), ecx()).sub().unwrap(), vec![0x29, 0x4D, 0x80]);
    assert_eq!(
        (ptr(rbp(), -128, 2), 128).sub().unwrap(),
        vec![0x66, 0x81, 0x6D, 0x80, 0x80, 0x00]
    );
}

#[test]
fn modrm_packs_mode_register_and_rm() {
    assert_eq!(encode(0b11, 7, 0), 0xF8);
    assert_eq!(encode(0b01, 1, 5), 0x4D);
    assert_eq!(encode(0b10, 0, 5), 0x85);
    // only the low three bits of a register number go into the byte
    assert_eq!(encode(0b11, 15, 8), 0xF8);
}

#[test]
fn register_constructors_hold_number_and_size() {
    assert_eq!(rax(), GPR::new(0, 8));
    assert_eq!(r15d(), GPR::new(15, 4));
    assert_eq!(ax(), GPR::new(0, 2));
    assert_eq!(r8b(), GPR::new(8, 1));
    assert_eq!(rip(), GPR::new(16, 8));
    let p = ptr(rbp(), -8, 4);
    assert_eq!(p.reg, rbp());
    assert_eq!(p.offset, -8);
    assert_eq!(p.size, 4);
}

#[test]
fn register_pairs_of_different_size_are_refused() {
    assert!(matches!((rax(), ecx()).mov(), Err(AssemblerError::OperandSizeMismatch)));
    assert!(matches!((eax(), rcx()).add(), Err(AssemblerError::OperandSizeMismatch)));
    assert!(matches!((rax(), ptr(rbp(), 0, 4)).mov(), Err(AssemblerError::OperandSizeMismatch)));
    assert!(matches!((ptr(rbp(), 0, 4), rax()).sub(), Err(AssemblerError::OperandSizeMismatch)));
}

#[test]
fn immediates_beyond_the_destination_are_refused() {
    // one byte takes -0x80 ..= 0xFF
    assert_eq!((GPR::new(0, 1), 0xFF).mov().unwrap(), vec![0xB0, 0xFF]);
    assert_eq!((GPR::new(0, 1), 0x80).mov().unwrap(), vec![0xB0, 0x80]);
    assert_eq!((GPR::new(0, 1), -0x80).mov().unwrap(), vec![0xB0, 0x80]);
    assert_eq!((GPR::new(0, 1), -1).mov().unwrap(), vec![0xB0, 0xFF]);
    assert!(matches!((GPR::new(0, 1), 0x100).mov(), Err(AssemblerError::ImmediateTooLarge)));
    assert!(matches!((GPR::new(0, 1), -0x81).mov(), Err(AssemblerError::ImmediateTooLarge)));
    // two bytes take -0x8000 ..= 0xFFFF
    assert!((ptr(rbp(), -8, 2), 0xFFFF).mov().is_ok());
    assert!((ptr(rbp(), -8, 2), -0x8000).mov().is_ok());
    assert!(matches!(
        (ptr(rbp(), -8, 2), 0x1_0000).mov(),
        Err(AssemblerError::ImmediateTooLarge)
    ));
    assert!(matches!((ax(), -0x8001).add(), Err(AssemblerError::ImmediateTooLarge)));
    // four bytes take -0x8000_0000 ..= 0xFFFF_FFFF
    assert_eq!((eax(), -1).mov().unwrap(), vec![0xB8, 0xFF, 0xFF, 0xFF, 0xFF]);
    assert_eq!((eax(), 0xFFFF_FFFF).mov().unwrap(), vec![0xB8, 0xFF, 0xFF, 0xFF, 0xFF]);
    assert_eq!((eax(), -0x8000_0000).mov().unwrap(), vec![0xB8, 0x00, 0x00, 0x00, 0x80]);
    assert!(matches!((eax(), 0x1_0000_0000).add(), Err(AssemblerError::ImmediateTooLarge)));
    assert!(matches!((eax(), -0x8000_0001).sub(), Err(AssemblerError::ImmediateTooLarge)));
    // eight bytes take every value
    assert!((rax(), isize::MAX).mov().is_ok());
    assert_eq!(
        (rax(), isize::MIN).mov().unwrap(),
        vec![0x48, 0xB8, 0x00, 0x00, 0x00, 0x00, 0x00, 0x00, 0x00, 0x80]
    );
}

#[test]
fn the_register_of_each_field_sets_its_own_rex_bit() {
    // a register in the middle field sets R, a base sets B
    assert_eq!((ptr(rbp(), -8, 4), r9d()).mov().unwrap(), vec![0x44, 0x89, 0x4D, 0xF8]);
    assert_eq!((r9d(), ptr(rbp(), -8, 4)).mov().unwrap(), vec![0x44, 0x8B, 0x4D, 0xF8]);
    assert_eq!((ptr(r13(), 8, 4), ecx()).mov().unwrap(), vec![0x41, 0x89, 0x4D, 0x08]);
    assert_eq!((ecx(), ptr(r13(), 8, 4)).add().unwrap(), vec![0x41, 0x03, 0x4D, 0x08]);
    assert_eq!((ptr(r13(), 8, 8), r9()).mov().unwrap(), vec![0x4D, 0x89, 0x4D, 0x08]);
    // the width of the operand, not of the base, sets W
    assert_eq!((eax(), ptr(rbp(), -8, 4)).mov().unwrap(), vec![0x8B, 0x45, 0xF8]);
    assert_eq!((ptr(r13(), 8, 4), 1).mov().unwrap(), vec![0x41, 0xC7, 0x45, 0x08, 0x01, 0x00, 0x00, 0x00]);
    assert_eq!(
        (ptr(rbp(), 8, 8), 1).mov().unwrap(),
        vec![0x48, 0xC7, 0x45, 0x08, 0x01, 0x00, 0x00, 0x00, 0x00, 0x00, 0x00, 0x00]
    );
    // lea: the destination is in the middle field
    assert_eq!((r9(), ptr(rbp(), 8, 8)).lea(), vec![0x4C, 0x8D, 0x4D, 0x08]);
    assert_eq!((rax(), ptr(r13(), 8, 8)).lea(), vec![0x49, 0x8D, 0x45, 0x08]);
    assert_eq!((r9(), ptr(rip(), 0x10, 8)).lea(), vec![0x4C, 0x8D, 0x0D, 0x10, 0x00, 0x00, 0x00]);
    assert_eq!((ecx(), ptr(rbp(), 8, 4)).lea(), vec![0x8D, 0x4D, 0x08]);
}

#[test]
fn the_short_form_takes_the_low_bits_of_the_register() {
    assert_eq!((r8b(), 1).mov().unwrap(), vec![0x41, 0xB0, 0x01]);
    assert_eq!((GPR::new(15, 1), 1).mov().unwrap(), vec![0x41, 0xB7, 0x01]);
    assert_eq!((r9d(), 1).mov().unwrap(), vec![0x41, 0xB9, 0x01, 0x00, 0x00, 0x00]);
    assert_eq!((GPR::new(3, 1), 1).mov().unwrap(), vec![0xB3, 0x01]);
}

#[test]
fn sixteen_bit_operands_take_the_size_prefix() {
    assert_eq!((ax(), cx()).mov().unwrap(), vec![0x66, 0x89, 0xC8]);
    assert_eq!((ax(), 0x1234).mov().unwrap(), vec![0x66, 0xB8, 0x34, 0x12]);
    assert_eq!((ax(), ptr(rbp(), 0, 2)).mov().unwrap(), vec![0x66, 0x8B, 0x05]);
}

#[test]
fn rex_bits_follow_the_operands() {
    // both extended: W, R for the source, B for the destination
    assert_eq!((r9(), r10()).mov().unwrap(), vec![0x4D, 0x89, 0xD1]);
    // 32-bit registers below 8 need no prefix
    assert_eq!((eax(), ecx()).mov().unwrap(), vec![0x89, 0xC8]);
    // an eight-byte immediate is written in full
    assert_eq!(
        (rax(), 0x1122_3344_5566_7788).mov().unwrap(),
        vec![0x48, 0xB8, 0x88, 0x77, 0x66, 0x55, 0x44, 0x33, 0x22, 0x11]
    );
}

#[test]
fn displacement_mode_follows_the_offset() {
    // no displacement
    assert_eq!((ptr(rbp(), 0, 4), ecx()).mov().unwrap(), vec![0x89, 0x0D]);
    // one byte, at both ends of its range
    assert_eq!((ptr(rbp(), 127, 4), ecx()).mov().unwrap(), vec![0x89, 0x4D, 0x7F]);
    assert_eq!((ptr(rbp(), -128, 4), ecx()).mov().unwrap(), vec![0x89, 0x4D, 0x80]);
    // four bytes just beyond it
    assert_eq!(
        (ptr(rbp(), 128, 4), ecx()).mov().unwrap(),
        vec![0x89, 0x8D, 0x80, 0x00, 0x00, 0x00]
    );
    assert_eq!(
        (ptr(rbp(), -129, 4), ecx()).mov().unwrap(),
        vec![0x89, 0x8D, 0x7F, 0xFF, 0xFF, 0xFF]
    );
    // a memory destination with an immediate follows the same rule
    assert_eq!(
        (ptr(rbp(), 0x1000, 4), 1).mov().unwrap(),
        vec![0xC7, 0x85, 0x00, 0x10, 0x00, 0x00, 0x01, 0x00, 0x00, 0x00]
    );
}

#[test]
fn branches_subtract_their_own_length() {
    assert_eq!(0isize.jmp(), vec![0xE9, 0xFB, 0xFF, 0xFF, 0xFF]);
    assert_eq!(5isize.jmp(), vec![0xE9, 0x00, 0x00, 0x00, 0x00]);
    assert_eq!(0x105isize.call(), vec![0xE8, 0x00, 0x01, 0x00, 0x00]);
    assert_eq!(0isize.call(), vec![0xE8, 0xFB, 0xFF, 0xFF, 0xFF]);
    // the smallest target does not overflow
    assert_eq!(isize::MIN.jmp(), vec![0xE9, 0xFB, 0xFF, 0xFF, 0xFF]);
}

#[test]
fn lea_relative_to_the_instruction_pointer() {
    assert_eq!(
        (rsi(), ptr(rip(), 0x100, 8)).lea(),
        vec![0x48, 0x8D, 0x35, 0x00, 0x01, 0x00, 0x00]
    );
    // four bytes of displacement even for a small offset
    assert_eq!((rsi(), ptr(rip(), 0, 8)).lea(), vec![0x48, 0x8D, 0x35, 0x00, 0x00, 0x00, 0x00]);
    // any other base follows the displacement rule
    assert_eq!((rax(), ptr(rsp(), 8, 8)).lea(), vec![0x48, 0x8D, 0x44, 0x08]);
}
