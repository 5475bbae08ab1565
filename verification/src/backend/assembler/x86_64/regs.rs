use vstd::prelude::*;

verus! {

/// Whether `size` is the size in bytes of a register.
pub open spec fn valid_size(size: u8) -> bool {
    size == 1 || size == 2 || size == 4 || size == 8
}

/// A general-purpose register: its number and its size in bytes. Number 16
/// stands for the instruction pointer and can only be the base of a memory operand.
#[derive(Debug, Clone, Copy, PartialEq, Eq, Structural)]
pub struct GPR {
    pub id: u8,
    pub size: u8,
}

impl GPR {
    pub fn new(id: u8, size: u8) -> (r: GPR)
        ensures
            r == (GPR { id, size }),
    {
        GPR { id, size }
    }

    /// Whether this is one of the sixteen registers, in one of their four sizes.
    pub open spec fn is_register(self) -> bool {
        self.id <= 15 && valid_size(self.size)
    }

    /// Whether this can be the base of a memory operand.
    pub open spec fn is_base(self) -> bool {
        self.id <= 16 && valid_size(self.size)
    }
}

/// A segment register.
#[derive(Debug, Clone, Copy, PartialEq, Eq, Structural)]
pub struct SEG {
    pub id: u8,
    pub size: u8,
}

impl SEG {
    pub fn new(id: u8, size: u8) -> (r: SEG)
        ensures
            r == (SEG { id, size }),
    {
        SEG { id, size }
    }
}

/// The register `rax`.
pub fn rax() -> (r: GPR)
    ensures
        r == (GPR { id: 0, size: 8 }),
{
    GPR { id: 0, size: 8 }
}

/// The register `rcx`.
pub fn rcx() -> (r: GPR)
    ensures
        r == (GPR { id: 1, size: 8 }),
{
    GPR { id: 1, size: 8 }
}

/// The register `rdx`.
pub fn rdx() -> (r: GPR)
    ensures
        r == (GPR { id: 2, size: 8 }),
{
    GPR { id: 2, size: 8 }
}

/// The register `rbx`.
pub fn rbx() -> (r: GPR)
    ensures
        r == (GPR { id: 3, size: 8 }),
{
    GPR { id: 3, size: 8 }
}

/// The register `rsp`.
pub fn rsp() -> (r: GPR)
    ensures
        r == (GPR { id: 4, size: 8 }),
{
    GPR { id: 4, size: 8 }
}

/// The register `rbp`.
pub fn rbp() -> (r: GPR)
    ensures
        r == (GPR { id: 5, size: 8 }),
{
    GPR { id: 5, size: 8 }
}

/// The register `rsi`.
pub fn rsi() -> (r: GPR)
    ensures
        r == (GPR { id: 6, size: 8 }),
{
    GPR { id: 6, size: 8 }
}

/// The register `rdi`.
pub fn rdi() -> (r: GPR)
    ensures
        r == (GPR { id: 7, size: 8 }),
{
    GPR { id: 7, size: 8 }
}

/// The register `r8`.
pub fn r8() -> (r: GPR)
    ensures
        r == (GPR { id: 8, size: 8 }),
{
    GPR { id: 8, size: 8 }
}

/// The register `r9`.
pub fn r9() -> (r: GPR)
    ensures
        r == (GPR { id: 9, size: 8 }),
{
    GPR { id: 9, size: 8 }
}

/// The register `r10`.
pub fn r10() -> (r: GPR)
    ensures
        r == (GPR { id: 10, size: 8 }),
{
    GPR { id: 10, size: 8 }
}

/// The register `r11`.
pub fn r11() -> (r: GPR)
    ensures
        r == (GPR { id: 11, size: 8 }),
{
    GPR { id: 11, size: 8 }
}

/// The register `r12`.
pub fn r12() -> (r: GPR)
    ensures
        r == (GPR { id: 12, size: 8 }),
{
    GPR { id: 12, size: 8 }
}

/// The register `r13`.
pub fn r13() -> (r: GPR)
    ensures
        r == (GPR { id: 13, size: 8 }),
{
    GPR { id: 13, size: 8 }
}

/// The register `r14`.
pub fn r14() -> (r: GPR)
    ensures
        r == (GPR { id: 14, size: 8 }),
{
    GPR { id: 14, size: 8 }
}

/// The register `r15`.
pub fn r15() -> (r: GPR)
    ensures
        r == (GPR { id: 15, size: 8 }),
{
    GPR { id: 15, size: 8 }
}

/// The instruction pointer, as the base of a memory operand.
pub fn rip() -> (r: GPR)
    ensures
        r == (GPR { id: 16, size: 8 }),
{
    GPR { id: 16, size: 8 }
}

/// The register `eax`.
pub fn eax() -> (r: GPR)
    ensures
        r == (GPR { id: 0, size: 4 }),
{
    GPR { id: 0, size: 4 }
}

/// The register `ecx`.
pub fn ecx() -> (r: GPR)
    ensures
        r == (GPR { id: 1, size: 4 }),
{
    GPR { id: 1, size: 4 }
}

/// The register `edx`.
pub fn edx() -> (r: GPR)
    ensures
        r == (GPR { id: 2, size: 4 }),
{
    GPR { id: 2, size: 4 }
}

/// The register `ebx`.
pub fn ebx() -> (r: GPR)
    ensures
        r == (GPR { id: 3, size: 4 }),
{
    GPR { id: 3, size: 4 }
}

/// The register `esp`.
pub fn esp() -> (r: GPR)
    ensures
        r == (GPR { id: 4, size: 4 }),
{
    GPR { id: 4, size: 4 }
}

/// The register `ebp`.
pub fn ebp() -> (r: GPR)
    ensures
        r == (GPR { id: 5, size: 4 }),
{
    GPR { id: 5, size: 4 }
}

/// The register `esi`.
pub fn esi() -> (r: GPR)
    ensures
        r == (GPR { id: 6, size: 4 }),
{
    GPR { id: 6, size: 4 }
}

/// The register `edi`.
pub fn edi() -> (r: GPR)
    ensures
        r == (GPR { id: 7, size: 4 }),
{
    GPR { id: 7, size: 4 }
}

/// The register `r8d`.
pub fn r8d() -> (r: GPR)
    ensures
        r == (GPR { id: 8, size: 4 }),
{
    GPR { id: 8, size: 4 }
}

/// The register `r9d`.
pub fn r9d() -> (r: GPR)
    ensures
        r == (GPR { id: 9, size: 4 }),
{
    GPR { id: 9, size: 4 }
}

/// The register `r10d`.
pub fn r10d() -> (r: GPR)
    ensures
        r == (GPR { id: 10, size: 4 }),
{
    GPR { id: 10, size: 4 }
}

/// The register `r11d`.
pub fn r11d() -> (r: GPR)
    ensures
        r == (GPR { id: 11, size: 4 }),
{
    GPR { id: 11, size: 4 }
}

/// The register `r12d`.
pub fn r12d() -> (r: GPR)
    ensures
        r == (GPR { id: 12, size: 4 }),
{
    GPR { id: 12, size: 4 }
}

/// The register `r13d`.
pub fn r13d() -> (r: GPR)
    ensures
        r == (GPR { id: 13, size: 4 }),
{
    GPR { id: 13, size: 4 }
}

/// The register `r14d`.
pub fn r14d() -> (r: GPR)
    ensures
        r == (GPR { id: 14, size: 4 }),
{
    GPR { id: 14, size: 4 }
}

/// The register `r15d`.
pub fn r15d() -> (r: GPR)
    ensures
        r == (GPR { id: 15, size: 4 }),
{
    GPR { id: 15, size: 4 }
}

/// The register `ax`.
pub fn ax() -> (r: GPR)
    ensures
        r == (GPR { id: 0, size: 2 }),
{
    GPR { id: 0, size: 2 }
}

/// The register `cx`.
pub fn cx() -> (r: GPR)
    ensures
        r == (GPR { id: 1, size: 2 }),
{
    GPR { id: 1, size: 2 }
}

/// The register `dx`.
pub fn dx() -> (r: GPR)
    ensures
        r == (GPR { id: 2, size: 2 }),
{
    GPR { id: 2, size: 2 }
}

/// The register `bx`.
pub fn bx() -> (r: GPR)
    ensures
        r == (GPR { id: 3, size: 2 }),
{
    GPR { id: 3, size: 2 }
}

/// The register `sp`.
pub fn sp() -> (r: GPR)
    ensures
        r == (GPR { id: 4, size: 2 }),
{
    GPR { id: 4, size: 2 }
}

/// The register `bp`.
pub fn bp() -> (r: GPR)
    ensures
        r == (GPR { id: 5, size: 2 }),
{
    GPR { id: 5, size: 2 }
}

/// The register `si`.
pub fn si() -> (r: GPR)
    ensures
        r == (GPR { id: 6, size: 2 }),
{
    GPR { id: 6, size: 2 }
}

/// The register `di`.
pub fn di() -> (r: GPR)
    ensures
        r == (GPR { id: 7, size: 2 }),
{
    GPR { id: 7, size: 2 }
}

/// The register `r8w`.
pub fn r8w() -> (r: GPR)
    ensures
        r == (GPR { id: 8, size: 2 }),
{
    GPR { id: 8, size: 2 }
}

/// The register `r9w`.
pub fn r9w() -> (r: GPR)
    ensures
        r == (GPR { id: 9, size: 2 }),
{
    GPR { id: 9, size: 2 }
}

/// The register `r10w`.
pub fn r10w() -> (r: GPR)
    ensures
        r == (GPR { id: 10, size: 2 }),
{
    GPR { id: 10, size: 2 }
}

/// The register `r11w`.
pub fn r11w() -> (r: GPR)
    ensures
        r == (GPR { id: 11, size: 2 }),
{
    GPR { id: 11, size: 2 }
}

/// The register `r12w`.
pub fn r12w() -> (r: GPR)
    ensures
        r == (GPR { id: 12, size: 2 }),
{
    GPR { id: 12, size: 2 }
}

/// The register `r13w`.
pub fn r13w() -> (r: GPR)
    ensures
        r == (GPR { id: 13, size: 2 }),
{
    GPR { id: 13, size: 2 }
}

/// The register `r14w`.
pub fn r14w() -> (r: GPR)
    ensures
        r == (GPR { id: 14, size: 2 }),
{
    GPR { id: 14, size: 2 }
}

/// The register `r15w`.
pub fn r15w() -> (r: GPR)
    ensures
        r == (GPR { id: 15, size: 2 }),
{
    GPR { id: 15, size: 2 }
}

/// The register `al`.
pub fn al() -> (r: GPR)
    ensures
        r == (GPR { id: 0, size: 1 }),
{
    GPR { id: 0, size: 1 }
}

/// The register `cl`.
pub fn cl() -> (r: GPR)
    ensures
        r == (GPR { id: 1, size: 1 }),
{
    GPR { id: 1, size: 1 }
}

/// The register `dl`.
pub fn dl() -> (r: GPR)
    ensures
        r == (GPR { id: 2, size: 1 }),
{
    GPR { id: 2, size: 1 }
}

/// The register `bl`.
pub fn bl() -> (r: GPR)
    ensures
        r == (GPR { id: 3, size: 1 }),
{
    GPR { id: 3, size: 1 }
}

/// The register `spl`.
pub fn spl() -> (r: GPR)
    ensures
        r == (GPR { id: 4, size: 1 }),
{
    GPR { id: 4, size: 1 }
}

/// The register `bpl`.
pub fn bpl() -> (r: GPR)
    ensures
        r == (GPR { id: 5, size: 1 }),
{
    GPR { id: 5, size: 1 }
}

/// The register `sil`.
pub fn sil() -> (r: GPR)
    ensures
        r == (GPR { id: 6, size: 1 }),
{
    GPR { id: 6, size: 1 }
}

/// The register `dil`.
pub fn dil() -> (r: GPR)
    ensures
        r == (GPR { id: 7, size: 1 }),
{
    GPR { id: 7, size: 1 }
}

/// The register `r8b`.
pub fn r8b() -> (r: GPR)
    ensures
        r == (GPR { id: 8, size: 1 }),
{
    GPR { id: 8, size: 1 }
}

/// The register `r9b`.
pub fn r9b() -> (r: GPR)
    ensures
        r == (GPR { id: 9, size: 1 }),
{
    GPR { id: 9, size: 1 }
}

/// The register `r10b`.
pub fn r10b() -> (r: GPR)
    ensures
        r == (GPR { id: 10, size: 1 }),
{
    GPR { id: 10, size: 1 }
}

/// The register `r11b`.
pub fn r11b() -> (r: GPR)
    ensures
        r == (GPR { id: 11, size: 1 }),
{
    GPR { id: 11, size: 1 }
}

/// The register `r12b`.
pub fn r12b() -> (r: GPR)
    ensures
        r == (GPR { id: 12, size: 1 }),
{
    GPR { id: 12, size: 1 }
}

/// The register `r13b`.
pub fn r13b() -> (r: GPR)
    ensures
        r == (GPR { id: 13, size: 1 }),
{
    GPR { id: 13, size: 1 }
}

/// The register `r14b`.
pub fn r14b() -> (r: GPR)
    ensures
        r == (GPR { id: 14, size: 1 }),
{
    GPR { id: 14, size: 1 }
}

/// The register `r15b`.
pub fn r15b() -> (r: GPR)
    ensures
        r == (GPR { id: 15, size: 1 }),
{
    GPR { id: 15, size: 1 }
}

/// The segment register `cs`.
pub fn cs() -> (r: SEG)
    ensures
        r == (SEG { id: 0, size: 8 }),
{
    SEG { id: 0, size: 8 }
}

/// The segment register `ds`.
pub fn ds() -> (r: SEG)
    ensures
        r == (SEG { id: 1, size: 8 }),
{
    SEG { id: 1, size: 8 }
}

/// The segment register `ss`.
pub fn ss() -> (r: SEG)
    ensures
        r == (SEG { id: 2, size: 8 }),
{
    SEG { id: 2, size: 8 }
}

/// The segment register `es`.
pub fn es() -> (r: SEG)
    ensures
        r == (SEG { id: 3, size: 8 }),
{
    SEG { id: 3, size: 8 }
}

/// The segment register `fs`.
pub fn fs() -> (r: SEG)
    ensures
        r == (SEG { id: 4, size: 8 }),
{
    SEG { id: 4, size: 8 }
}

/// The segment register `gs`.
pub fn gs() -> (r: SEG)
    ensures
        r == (SEG { id: 5, size: 8 }),
{
    SEG { id: 5, size: 8 }
}

} // verus!
