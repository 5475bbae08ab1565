use crate::backend::assembler::x86_64::enc::{
    encode, modrm, push_rex, push_rex_operands, push_rex_single, rex_operands, rex_pair,
    rex_single, MEM_ADDR, MEM_ADDR_DISP32, MEM_ADDR_DISP8, REG,
};
use crate::backend::assembler::x86_64::mem::RegPtr;
use crate::backend::assembler::x86_64::regs::{valid_size, GPR};
use crate::reporter::assembler::AssemblerError;
use vstd::prelude::*;

verus! {

/// What an encoder makes of its operands: the bytes of the instruction, or the
/// reason why there is none.
pub enum Encoding {
    Bytes(Seq<u8>),
    SizeMismatch,
    ImmediateTooLarge,
}

/// Whether `r` is what an encoder returns for the encoding `e`.
pub open spec fn encodes(r: Result<Vec<u8>, AssemblerError>, e: Encoding) -> bool {
    match e {
        Encoding::Bytes(bytes) => r is Ok && r->Ok_0@ == bytes,
        Encoding::SizeMismatch => r == Err::<Vec<u8>, AssemblerError>(
            AssemblerError::OperandSizeMismatch,
        ),
        Encoding::ImmediateTooLarge => r == Err::<Vec<u8>, AssemblerError>(
            AssemblerError::ImmediateTooLarge,
        ),
    }
}

/// The place of an operand size in an opcode table: the number of its trailing zero bits.
pub open spec fn table_index(size: u8) -> int {
    if size == 1 {
        0
    } else if size == 2 {
        1
    } else if size == 4 {
        2
    } else {
        3
    }
}

/// The operand-size prefix: `66` for two-byte operands.
pub open spec fn prefix16(size: u8) -> Seq<u8> {
    if size == 2 {
        seq![0x66u8]
    } else {
        Seq::empty()
    }
}

/// Byte `k` of `v`, counting from the least significant.
pub open spec fn byte_of(v: u64, k: u64) -> u8 {
    ((v >> (8 * k)) & 0xff) as u8
}

/// The `n` least significant bytes of `v`, least significant first.
pub open spec fn le_bytes(v: u64, n: nat) -> Seq<u8> {
    Seq::new(n, |k: int| byte_of(v, k as u64))
}

/// The smallest immediate that an operand of `size` bytes takes: the
/// smallest signed value of that width.
pub open spec fn imm_low(size: u8) -> int {
    if size == 1 {
        -0x80
    } else if size == 2 {
        -0x8000
    } else if size == 4 {
        -0x8000_0000
    } else {
        -0x8000_0000_0000_0000
    }
}

/// The largest immediate that an operand of `size` bytes takes: the
/// largest unsigned value of that width.
pub open spec fn imm_high(size: u8) -> int {
    if size == 1 {
        0xFF
    } else if size == 2 {
        0xFFFF
    } else if size == 4 {
        0xFFFF_FFFF
    } else {
        0xFFFF_FFFF_FFFF_FFFF
    }
}

/// Whether the immediate can be written in the bytes of an operand of
/// `size` bytes, as a signed or as an unsigned value.
pub open spec fn imm_fits(imm: isize, size: u8) -> bool {
    imm_low(size) <= imm <= imm_high(size)
}

/// The ModRM mode for a displacement: none for zero, eight bits where it
/// fits a signed byte, else thirty-two.
pub open spec fn disp_mode(offset: i32) -> u8 {
    if offset == 0 {
        MEM_ADDR
    } else if -128 <= offset <= 127 {
        MEM_ADDR_DISP8
    } else {
        MEM_ADDR_DISP32
    }
}

/// The bytes of a displacement: none for zero, one where it fits a signed
/// byte, else four, least significant first.
pub open spec fn disp_bytes(offset: i32) -> Seq<u8> {
    if offset == 0 {
        Seq::empty()
    } else if -128 <= offset <= 127 {
        le_bytes(offset as u64, 1)
    } else {
        le_bytes(offset as u64, 4)
    }
}

/// `op dst, src` for two registers.
pub open spec fn reg_reg(opcodes: [u8; 4], dst: GPR, src: GPR) -> Encoding {
    if dst.size != src.size {
        Encoding::SizeMismatch
    } else {
        Encoding::Bytes(
            prefix16(dst.size) + rex_pair(dst, src) + seq![
                opcodes[table_index(dst.size)],
                modrm(REG, src.id, dst.id),
            ],
        )
    }
}

/// `op dst, imm` with the low three bits of the register's number in the
/// opcode byte.
pub open spec fn reg_imm_short(opcodes: [u8; 4], dst: GPR, imm: isize) -> Encoding {
    if !imm_fits(imm, dst.size) {
        Encoding::ImmediateTooLarge
    } else {
        Encoding::Bytes(
            prefix16(dst.size) + rex_single(dst) + seq![
                opcodes[table_index(dst.size)] | (dst.id & 0x7),
            ] + le_bytes(imm as u64, dst.size as nat),
        )
    }
}

/// `op dst, imm` with the register in a ModRM byte, whose middle field is `opbits`.
pub open spec fn reg_imm(opcodes: [u8; 4], opbits: u8, dst: GPR, imm: isize) -> Encoding {
    if !imm_fits(imm, dst.size) {
        Encoding::ImmediateTooLarge
    } else {
        Encoding::Bytes(
            prefix16(dst.size) + rex_single(dst) + seq![
                opcodes[table_index(dst.size)],
                modrm(REG, opbits, dst.id),
            ] + le_bytes(imm as u64, dst.size as nat),
        )
    }
}

/// `op dst, [src]`: a register and a memory operand.
pub open spec fn reg_mem(opcodes: [u8; 4], dst: GPR, src: RegPtr) -> Encoding {
    if dst.size != src.size {
        Encoding::SizeMismatch
    } else {
        Encoding::Bytes(
            prefix16(dst.size) + rex_operands(dst.size, dst.id, src.reg.id) + seq![
                opcodes[table_index(dst.size)],
                modrm(disp_mode(src.offset), dst.id, src.reg.id),
            ] + disp_bytes(src.offset),
        )
    }
}

/// `op [dst], src`: a memory operand and a register.
pub open spec fn mem_reg(opcodes: [u8; 4], dst: RegPtr, src: GPR) -> Encoding {
    if dst.size != src.size {
        Encoding::SizeMismatch
    } else {
        Encoding::Bytes(
            prefix16(dst.size) + rex_operands(dst.size, src.id, dst.reg.id) + seq![
                opcodes[table_index(dst.size)],
                modrm(disp_mode(dst.offset), src.id, dst.reg.id),
            ] + disp_bytes(dst.offset),
        )
    }
}

/// `op [dst], imm`: a memory operand and an immediate.
pub open spec fn mem_imm(opcodes: [u8; 4], opbits: u8, dst: RegPtr, imm: isize) -> Encoding {
    if !imm_fits(imm, dst.size) {
        Encoding::ImmediateTooLarge
    } else {
        Encoding::Bytes(
            prefix16(dst.size) + rex_operands(dst.size, 0, dst.reg.id) + seq![
                opcodes[table_index(dst.size)],
                modrm(disp_mode(dst.offset), opbits, dst.reg.id),
            ] + disp_bytes(dst.offset) + le_bytes(imm as u64, dst.size as nat),
        )
    }
}

/// The place of an operand size in an opcode table.
pub fn opcode_index(size: u8) -> (i: usize)
    ensures
        i == table_index(size),
        i < 4,
{
    if size == 1 {
        0
    } else if size == 2 {
        1
    } else if size == 4 {
        2
    } else {
        3
    }
}

/// Appends the operand-size prefix, where the operands are two bytes wide.
pub fn push_prefix16(code: &mut Vec<u8>, size: u8)
    ensures
        final(code)@ == old(code)@ + prefix16(size),
{
    if size == 2 {
        code.push(0x66);
    }
    assert(code@ =~= old(code)@ + prefix16(size));
}

/// Appends the `n` least significant bytes of `v`, least significant first.
pub fn push_le_bytes(code: &mut Vec<u8>, v: u64, n: u8)
    requires
        n <= 8,
    ensures
        final(code)@ == old(code)@ + le_bytes(v, n as nat),
{
    let mut k: u8 = 0;
    while k < n
        invariant
            k <= n <= 8,
            code@ == old(code)@ + le_bytes(v, k as nat),
        decreases n - k,
    {
        let shift: u64 = 8 * (k as u64);
        code.push(((v >> shift) & 0xff) as u8);
        k += 1;
        assert(code@ =~= old(code)@ + le_bytes(v, k as nat));
    }
}

/// Whether the immediate fits an operand of `size` bytes.
pub fn immediate_fits(imm: isize, size: u8) -> (r: bool)
    ensures
        r == imm_fits(imm, size),
{
    let v: i64 = imm as i64;
    if size == 1 {
        -0x80 <= v && v <= 0xFF
    } else if size == 2 {
        -0x8000 <= v && v <= 0xFFFF
    } else if size == 4 {
        -0x8000_0000 <= v && v <= 0xFFFF_FFFF
    } else {
        true
    }
}

/// The ModRM mode for a displacement.
pub fn displacement_mode(offset: i32) -> (m: u8)
    ensures
        m == disp_mode(offset),
{
    if offset == 0 {
        MEM_ADDR
    } else if offset >= -128 && offset <= 127 {
        MEM_ADDR_DISP8
    } else {
        MEM_ADDR_DISP32
    }
}

/// Appends the bytes of a displacement.
pub fn push_displacement(code: &mut Vec<u8>, offset: i32)
    ensures
        final(code)@ == old(code)@ + disp_bytes(offset),
{
    if offset == 0 {
        assert(code@ =~= old(code)@ + disp_bytes(offset));
    } else if offset >= -128 && offset <= 127 {
        push_le_bytes(code, offset as u64, 1);
    } else {
        push_le_bytes(code, offset as u64, 4);
    }
}

/// Encodes `op dst, src` for two registers.
pub fn encode_reg_reg(opcodes: [u8; 4], dst: GPR, src: GPR) -> (r: Result<Vec<u8>, AssemblerError>)
    requires
        dst.is_register(),
        src.is_register(),
    ensures
        encodes(r, reg_reg(opcodes, dst, src)),
{
    if dst.size != src.size {
        return Err(AssemblerError::OperandSizeMismatch);
    }
    let mut code: Vec<u8> = Vec::new();
    push_prefix16(&mut code, dst.size);
    push_rex(&mut code, dst, src);
    code.push(opcodes[opcode_index(dst.size)]);
    code.push(encode(REG, src.id, dst.id));
    assert(code@ =~= reg_reg(opcodes, dst, src)->Bytes_0);
    Ok(code)
}

/// Encodes `op dst, imm` with the register in the opcode byte.
pub fn encode_reg_imm_short(opcodes: [u8; 4], dst: GPR, imm: isize) -> (r: Result<
    Vec<u8>,
    AssemblerError,
>)
    requires
        dst.is_register(),
    ensures
        encodes(r, reg_imm_short(opcodes, dst, imm)),
{
    if !immediate_fits(imm, dst.size) {
        return Err(AssemblerError::ImmediateTooLarge);
    }
    let mut code: Vec<u8> = Vec::new();
    push_prefix16(&mut code, dst.size);
    push_rex_single(&mut code, dst);
    code.push(opcodes[opcode_index(dst.size)] | (dst.id & 0x7));
    push_le_bytes(&mut code, imm as u64, dst.size);
    assert(code@ =~= reg_imm_short(opcodes, dst, imm)->Bytes_0);
    Ok(code)
}

/// Encodes `op dst, imm` with the register in a ModRM byte.
pub fn encode_reg_imm(opcodes: [u8; 4], opbits: u8, dst: GPR, imm: isize) -> (r: Result<
    Vec<u8>,
    AssemblerError,
>)
    requires
        dst.is_register(),
    ensures
        encodes(r, reg_imm(opcodes, opbits, dst, imm)),
{
    if !immediate_fits(imm, dst.size) {
        return Err(AssemblerError::ImmediateTooLarge);
    }
    let mut code: Vec<u8> = Vec::new();
    push_prefix16(&mut code, dst.size);
    push_rex_single(&mut code, dst);
    code.push(opcodes[opcode_index(dst.size)]);
    code.push(encode(REG, opbits, dst.id));
    push_le_bytes(&mut code, imm as u64, dst.size);
    assert(code@ =~= reg_imm(opcodes, opbits, dst, imm)->Bytes_0);
    Ok(code)
}

/// Encodes `op dst, [src]`.
pub fn encode_reg_mem(opcodes: [u8; 4], dst: GPR, src: RegPtr) -> (r: Result<Vec<u8>, AssemblerError>)
    requires
        dst.is_register(),
        src.wf(),
    ensures
        encodes(r, reg_mem(opcodes, dst, src)),
{
    if dst.size != src.size {
        return Err(AssemblerError::OperandSizeMismatch);
    }
    let mut code: Vec<u8> = Vec::new();
    push_prefix16(&mut code, dst.size);
    push_rex_operands(&mut code, dst.size, dst.id, src.reg.id);
    code.push(opcodes[opcode_index(dst.size)]);
    code.push(encode(displacement_mode(src.offset), dst.id, src.reg.id));
    push_displacement(&mut code, src.offset);
    assert(code@ =~= reg_mem(opcodes, dst, src)->Bytes_0);
    Ok(code)
}

/// Encodes `op [dst], src`.
pub fn encode_mem_reg(opcodes: [u8; 4], dst: RegPtr, src: GPR) -> (r: Result<Vec<u8>, AssemblerError>)
    requires
        dst.wf(),
        src.is_register(),
    ensures
        encodes(r, mem_reg(opcodes, dst, src)),
{
    if dst.size != src.size {
        return Err(AssemblerError::OperandSizeMismatch);
    }
    let mut code: Vec<u8> = Vec::new();
    push_prefix16(&mut code, dst.size);
    push_rex_operands(&mut code, dst.size, src.id, dst.reg.id);
    code.push(opcodes[opcode_index(dst.size)]);
    code.push(encode(displacement_mode(dst.offset), src.id, dst.reg.id));
    push_displacement(&mut code, dst.offset);
    assert(code@ =~= mem_reg(opcodes, dst, src)->Bytes_0);
    Ok(code)
}

/// Encodes `op [dst], imm`.
pub fn encode_mem_imm(opcodes: [u8; 4], opbits: u8, dst: RegPtr, imm: isize) -> (r: Result<
    Vec<u8>,
    AssemblerError,
>)
    requires
        dst.wf(),
    ensures
        encodes(r, mem_imm(opcodes, opbits, dst, imm)),
{
    if !immediate_fits(imm, dst.size) {
        return Err(AssemblerError::ImmediateTooLarge);
    }
    let mut code: Vec<u8> = Vec::new();
    push_prefix16(&mut code, dst.size);
    push_rex_operands(&mut code, dst.size, 0, dst.reg.id);
    code.push(opcodes[opcode_index(dst.size)]);
    code.push(encode(displacement_mode(dst.offset), opbits, dst.reg.id));
    push_displacement(&mut code, dst.offset);
    push_le_bytes(&mut code, imm as u64, dst.size);
    assert(code@ =~= mem_imm(opcodes, opbits, dst, imm)->Bytes_0);
    Ok(code)
}

} // verus!
