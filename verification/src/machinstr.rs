//! The machine-instruction vocabulary the native code generator emits: a
//! small, typed subset of x86-64, kept abstract so the generator's output
//! can be reasoned about instruction by instruction. A separate encoding
//! step turns these into bytes.

use vstd::prelude::*;

verus! {

/// The general-purpose registers the generator uses: the six integer
/// argument registers of the conventional calling order, the frame and
/// stack pointers, and the accumulator.
#[derive(Debug, PartialEq, Eq, Structural, Clone, Copy)]
pub enum Reg {
    Rax,
    Rcx,
    Rdx,
    Rsp,
    Rbp,
    Rsi,
    Rdi,
    R8,
    R9,
}

/// Operand width of a memory access.
#[derive(Debug, PartialEq, Eq, Structural, Clone, Copy)]
pub enum Width {
    Byte,
    Word,
    Dword,
    Qword,
}

/// A frame slot: an access of the given width at `[rbp - disp]`.
#[derive(Debug, PartialEq, Eq, Structural, Clone, Copy)]
pub struct MemRef {
    pub width: Width,
    pub disp: u32,
}

/// One emitted instruction. Register operands written at 32-bit width use
/// the 32-bit form of the named register (`Rax` as `eax`, `Rdi` as `edi`).
#[derive(Debug, PartialEq, Eq, Structural, Clone, Copy)]
pub enum MachInstr {
    Nop,
    /// The unreachable trap.
    Ud2,
    Ret,
    PushReg(Reg),
    PushImm32(u32),
    PopReg(Reg),
    /// 64-bit register-to-register move.
    MovRegReg(Reg, Reg),
    /// Immediate into the 32-bit form of a register.
    MovR32Imm32(Reg, u32),
    /// Immediate into the full 64-bit register.
    MovR64Imm64(Reg, u64),
    /// Immediate into a frame slot, truncated to the slot's width.
    MovMemImm32(MemRef, i32),
    /// The 32-bit form of a register into a frame slot.
    MovMemR32(MemRef, Reg),
    /// The full 64-bit register into a frame slot.
    MovMemR64(MemRef, Reg),
    /// A call with a placeholder target, patched by relocation later.
    CallRel(u64),
    /// An unconditional jump to an absolute target.
    JmpAbs(u64),
    /// A jump-if-nonzero to an absolute target.
    JnzAbs(u64),
    /// An anonymous label attached to the next instruction.
    AnonLabel,
    /// A jump back to the most recent anonymous label.
    JmpToPrevLabel,
}

/// The integer argument register for an ordinal position, in the
/// conventional order; positions beyond the sixth have none.
pub open spec fn arg_reg_spec(i: int) -> Option<Reg> {
    if i == 0 {
        Some(Reg::Rdi)
    } else if i == 1 {
        Some(Reg::Rsi)
    } else if i == 2 {
        Some(Reg::Rdx)
    } else if i == 3 {
        Some(Reg::Rcx)
    } else if i == 4 {
        Some(Reg::R8)
    } else if i == 5 {
        Some(Reg::R9)
    } else {
        None
    }
}

/// Executable form of `arg_reg_spec`.
pub fn arg_reg(i: usize) -> (r: Option<Reg>)
    ensures
        r == arg_reg_spec(i as int),
{
    match i {
        0 => Some(Reg::Rdi),
        1 => Some(Reg::Rsi),
        2 => Some(Reg::Rdx),
        3 => Some(Reg::Rcx),
        4 => Some(Reg::R8),
        5 => Some(Reg::R9),
        _ => None,
    }
}

} // verus!
