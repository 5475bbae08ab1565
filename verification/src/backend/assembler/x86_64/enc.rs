use crate::backend::assembler::x86_64::regs::GPR;
use vstd::prelude::*;

verus! {

/// ModRM mode: the operand is in memory at the base register.
pub const MEM_ADDR: u8 = 0b00;

/// ModRM mode: memory at the base register plus a signed 8-bit displacement.
pub const MEM_ADDR_DISP8: u8 = 0b01;

/// ModRM mode: memory at the base register plus a signed 32-bit displacement.
pub const MEM_ADDR_DISP32: u8 = 0b10;

/// ModRM mode: the operand is the register itself.
pub const REG: u8 = 0b11;

/// The ModRM byte: the mode in the top two bits, then the low three bits of
/// `reg`, then the low three bits of `rm`.
pub open spec fn modrm(modb: u8, reg: u8, rm: u8) -> u8 {
    (modb << 6u8) | ((reg & 0x7) << 3u8) | (rm & 0x7)
}

/// The ModRM byte.
pub fn encode(modb: u8, reg: u8, rm: u8) -> (byte: u8)
    ensures
        byte == modrm(modb, reg, rm),
{
    (modb << 6u8) | ((reg & 0x7) << 3u8) | (rm & 0x7)
}

/// One bit of a prefix byte.
pub open spec fn flag(b: bool) -> u8 {
    if b {
        1
    } else {
        0
    }
}

/// The REX byte `0100WRXB`, with X clear.
pub open spec fn rex_byte(w: bool, r: bool, b: bool) -> u8 {
    0x40u8 | (flag(w) << 3u8) | (flag(r) << 2u8) | flag(b)
}

/// The REX prefix for the operand pair `dst`, `src`: present where one of
/// them is eight bytes wide, which sets W, or has a number above 7, which
/// sets B for `dst` and R for `src`.
pub open spec fn rex_pair(dst: GPR, src: GPR) -> Seq<u8> {
    if dst.size == 8 || dst.id > 7 || src.size == 8 || src.id > 7 {
        seq![rex_byte(dst.size == 8 || src.size == 8, src.id > 7, dst.id > 7)]
    } else {
        Seq::empty()
    }
}

/// The REX prefix for the single operand `dst`: present where it is eight
/// bytes wide, which sets W, or has a number above 7, which sets B.
pub open spec fn rex_single(dst: GPR) -> Seq<u8> {
    if dst.size == 8 || dst.id > 7 {
        seq![rex_byte(dst.size == 8, false, dst.id > 7)]
    } else {
        Seq::empty()
    }
}

/// Whether a register has one of the numbers 8 to 15, which take an
/// extension bit of the REX prefix.
pub open spec fn extended(id: u8) -> bool {
    8 <= id <= 15
}

/// The REX prefix of an instruction on operands of `size` bytes, with the
/// register `reg` in the middle field of the ModRM byte and the register
/// `rm` in its last field or as the base of its memory operand: present
/// where the operands are eight bytes wide, which sets W, or `reg` has a
/// number from 8 on, which sets R, or `rm` has, which sets B.
pub open spec fn rex_operands(size: u8, reg: u8, rm: u8) -> Seq<u8> {
    if size == 8 || extended(reg) || extended(rm) {
        seq![rex_byte(size == 8, extended(reg), extended(rm))]
    } else {
        Seq::empty()
    }
}

fn bit(b: bool) -> (r: u8)
    ensures
        r == flag(b),
{
    if b {
        1
    } else {
        0
    }
}

/// Appends the REX prefix of an operand pair, where there is one.
pub fn push_rex(code: &mut Vec<u8>, dst: GPR, src: GPR)
    ensures
        final(code)@ == old(code)@ + rex_pair(dst, src),
{
    if dst.size == 8 || dst.id > 7 || src.size == 8 || src.id > 7 {
        let rex = 0x40u8 | (bit(dst.size == 8 || src.size == 8) << 3u8) | (bit(src.id > 7) << 2u8)
            | bit(dst.id > 7);
        code.push(rex);
    }
    assert(code@ =~= old(code)@ + rex_pair(dst, src));
}

/// Appends the REX prefix of a single operand, where there is one.
pub fn push_rex_single(code: &mut Vec<u8>, dst: GPR)
    ensures
        final(code)@ == old(code)@ + rex_single(dst),
{
    if dst.size == 8 || dst.id > 7 {
        let rex = 0x40u8 | (bit(dst.size == 8) << 3u8) | (bit(false) << 2u8) | bit(dst.id > 7);
        code.push(rex);
    }
    assert(code@ =~= old(code)@ + rex_single(dst));
}

/// Appends the REX prefix of an instruction with a register in each field
/// of its ModRM byte, where there is one.
pub fn push_rex_operands(code: &mut Vec<u8>, size: u8, reg: u8, rm: u8)
    ensures
        final(code)@ == old(code)@ + rex_operands(size, reg, rm),
{
    let high_reg = reg >= 8 && reg <= 15;
    let high_rm = rm >= 8 && rm <= 15;
    if size == 8 || high_reg || high_rm {
        let rex = 0x40u8 | (bit(size == 8) << 3u8) | (bit(high_reg) << 2u8) | bit(high_rm);
        code.push(rex);
    }
    assert(code@ =~= old(code)@ + rex_operands(size, reg, rm));
}

} // verus!
