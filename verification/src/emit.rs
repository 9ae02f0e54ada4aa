//! Encoding of the generator's machine instructions into bytes, through the
//! iced-x86 code assembler.
//!
//! The assembler itself is outside code; the contracts here speak of it
//! through three names: `asm_code`, the sequence of instructions an
//! assembler holds (with its anonymous-label markers); `asm_encoding`, the
//! bytes that encoding a given instruction sequence at a given base address
//! yields; and `asm_encodable`, whether the encoder accepts that sequence at
//! that address. All three are functions of the held sequence and the
//! address alone: every assembler in this crate is built by `asm_new` (a
//! fresh 64-bit assembler with the default options) and changed only by the
//! wrappers below, which never create named labels or instruction prefixes,
//! so no other assembler state varies. Each wrapper appends exactly one
//! instruction and states, from the assembler's source, exactly when the
//! append succeeds; `encode` drives them over a whole vector and is verified
//! against those contracts, succeeding whenever the instructions are in its
//! repertoire and the encoder accepts the sequence and each assembled
//! call-site prefix.

use vstd::prelude::*;
use crate::machinstr::{MachInstr, MemRef, Reg, Width};
use iced_x86::code_asm::registers::{gpr32, gpr64};
use iced_x86::code_asm::{byte_ptr, word_ptr, dword_ptr, qword_ptr, CodeAssembler};
use iced_x86::IcedError;

verus! {

#[verifier::external_type_specification]
#[verifier::external_body]
pub struct ExCodeAssembler(CodeAssembler);

#[verifier::external_type_specification]
#[verifier::external_body]
pub struct ExIcedError(IcedError);

/// The instructions an assembler holds, as this library's instruction
/// vocabulary, in the order they were appended; an `AnonLabel` element
/// stands for a pending anonymous label, attached to the next instruction.
pub uninterp spec fn asm_code(a: CodeAssembler) -> Seq<MachInstr>;

/// The bytes that encoding an instruction sequence at a base address
/// yields: a function of the instructions and the address alone.
pub uninterp spec fn asm_encoding(code: Seq<MachInstr>, rip: u64) -> Seq<u8>;

/// Whether the encoder accepts an instruction sequence at a base address
/// (no dangling label, every instruction and branch distance encodable):
/// deterministic, a function of the sequence and the address alone.
pub uninterp spec fn asm_encodable(code: Seq<MachInstr>, rip: u64) -> bool;

/// Encoding failed: the assembler refused an instruction or the final
/// encoding (an out-of-range immediate for the slot width, a dangling
/// label), or an instruction outside the encoder's repertoire was met.
#[derive(Debug, PartialEq, Eq, Structural, Clone, Copy)]
pub enum EncodeError {
    Unsupported,
    Refused,
}

/// Relies on CodeAssembler::new: a fresh 64-bit assembler holds no
/// instructions, and 64 is one of the accepted bitnesses, so the call
/// succeeds.
#[verifier::external_body]
fn asm_new() -> (r: Result<CodeAssembler, IcedError>)
    ensures
        r is Ok,
        r is Ok ==> asm_code(r->Ok_0) == Seq::<MachInstr>::empty(),
{
    CodeAssembler::new(64)
}

/// Relies on CodeAssembler::nop: builds a fixed no-operand instruction, so
/// it always succeeds.
#[verifier::external_body]
fn asm_nop(a: &mut CodeAssembler) -> (r: Result<(), IcedError>)
    ensures
        r is Ok,
        r is Ok ==> asm_code(*final(a)) == asm_code(*old(a)).push(MachInstr::Nop),
{
    a.nop()
}

/// Relies on CodeAssembler::ud2: a fixed no-operand instruction, always
/// succeeds.
#[verifier::external_body]
fn asm_ud2(a: &mut CodeAssembler) -> (r: Result<(), IcedError>)
    ensures
        r is Ok,
        r is Ok ==> asm_code(*final(a)) == asm_code(*old(a)).push(MachInstr::Ud2),
{
    a.ud2()
}

/// Relies on CodeAssembler::ret: a fixed no-operand instruction, always
/// succeeds.
#[verifier::external_body]
fn asm_ret(a: &mut CodeAssembler) -> (r: Result<(), IcedError>)
    ensures
        r is Ok,
        r is Ok ==> asm_code(*final(a)) == asm_code(*old(a)).push(MachInstr::Ret),
{
    a.ret()
}

/// Relies on CodeAssembler::push with the frame-pointer register: a plain
/// register operand, always accepted.
#[verifier::external_body]
fn asm_push_rbp(a: &mut CodeAssembler) -> (r: Result<(), IcedError>)
    ensures
        r is Ok,
        r is Ok ==> asm_code(*final(a)) == asm_code(*old(a)).push(
            MachInstr::PushReg(Reg::Rbp),
        ),
{
    a.push(gpr64::rbp)
}

/// Relies on CodeAssembler::pop with the frame-pointer register: a plain
/// register operand, always accepted.
#[verifier::external_body]
fn asm_pop_rbp(a: &mut CodeAssembler) -> (r: Result<(), IcedError>)
    ensures
        r is Ok,
        r is Ok ==> asm_code(*final(a)) == asm_code(*old(a)).push(
            MachInstr::PopReg(Reg::Rbp),
        ),
{
    a.pop(gpr64::rbp)
}

/// Relies on CodeAssembler::mov from the stack pointer into the frame
/// pointer: a register-to-register form, always accepted.
#[verifier::external_body]
fn asm_mov_rbp_rsp(a: &mut CodeAssembler) -> (r: Result<(), IcedError>)
    ensures
        r is Ok,
        r is Ok ==> asm_code(*final(a)) == asm_code(*old(a)).push(
            MachInstr::MovRegReg(Reg::Rbp, Reg::Rsp),
        ),
{
    a.mov(gpr64::rbp, gpr64::rsp)
}

/// Relies on CodeAssembler::push with an immediate: the 64-bit push takes a
/// sign-extended 8- or 32-bit immediate, so values whose top bit would be
/// lost in the sign extension are refused.
#[verifier::external_body]
fn asm_push_imm32(a: &mut CodeAssembler, v: u32) -> (r: Result<(), IcedError>)
    ensures
        v <= 0x7fff_ffff || v >= 0xffff_ff80 ==> r is Ok,
        r is Ok ==> asm_code(*final(a)) == asm_code(*old(a)).push(MachInstr::PushImm32(v)),
{
    a.push(v)
}

/// Relies on CodeAssembler::mov of an immediate into the 32-bit form of the
/// accumulator or an argument register: every 32-bit immediate is accepted.
#[verifier::external_body]
fn asm_mov_r32_imm32(a: &mut CodeAssembler, rg: Reg, v: u32) -> (r: Result<(), IcedError>)
    requires
        rg is Rax || rg is Rdi || rg is Rsi || rg is Rdx || rg is Rcx || rg is R8 || rg is R9,
    ensures
        r is Ok,
        r is Ok ==> asm_code(*final(a)) == asm_code(*old(a)).push(
            MachInstr::MovR32Imm32(rg, v),
        ),
{
    let rr = match rg {
        Reg::Rdi => gpr32::edi, Reg::Rsi => gpr32::esi, Reg::Rdx => gpr32::edx,
        Reg::Rcx => gpr32::ecx, Reg::R8 => gpr32::r8d, Reg::R9 => gpr32::r9d,
        _ => gpr32::eax,
    };
    a.mov(rr, v)
}

/// Relies on CodeAssembler::mov of an immediate into a full argument
/// register: every 64-bit immediate is accepted.
#[verifier::external_body]
fn asm_mov_r64_imm64(a: &mut CodeAssembler, rg: Reg, v: u64) -> (r: Result<(), IcedError>)
    requires
        rg is Rdi || rg is Rsi || rg is Rdx || rg is Rcx || rg is R8 || rg is R9,
    ensures
        r is Ok,
        r is Ok ==> asm_code(*final(a)) == asm_code(*old(a)).push(
            MachInstr::MovR64Imm64(rg, v),
        ),
{
    let rr = match rg {
        Reg::Rsi => gpr64::rsi, Reg::Rdx => gpr64::rdx, Reg::Rcx => gpr64::rcx,
        Reg::R8 => gpr64::r8, Reg::R9 => gpr64::r9,
        _ => gpr64::rdi,
    };
    a.mov(rr, v)
}

/// Relies on CodeAssembler::mov of the 32-bit form of an argument register
/// into a frame slot below the frame pointer: a memory/register form,
/// always accepted at append time.
#[verifier::external_body]
fn asm_mov_mem_r32(a: &mut CodeAssembler, m: MemRef, rg: Reg) -> (r: Result<(), IcedError>)
    requires
        rg is Rdi || rg is Rsi || rg is Rdx || rg is Rcx || rg is R8 || rg is R9,
    ensures
        r is Ok,
        r is Ok ==> asm_code(*final(a)) == asm_code(*old(a)).push(
            MachInstr::MovMemR32(m, rg),
        ),
{
    let base = gpr64::rbp - m.disp;
    let mp = match m.width {
        Width::Byte => byte_ptr(base), Width::Word => word_ptr(base),
        Width::Dword => dword_ptr(base), Width::Qword => qword_ptr(base),
    };
    let rr = match rg {
        Reg::Rsi => gpr32::esi, Reg::Rdx => gpr32::edx, Reg::Rcx => gpr32::ecx,
        Reg::R8 => gpr32::r8d, Reg::R9 => gpr32::r9d,
        _ => gpr32::edi,
    };
    a.mov(mp, rr)
}

/// Relies on CodeAssembler::mov of a full argument register into a frame
/// slot below the frame pointer: a memory/register form, always accepted at
/// append time.
#[verifier::external_body]
fn asm_mov_mem_r64(a: &mut CodeAssembler, m: MemRef, rg: Reg) -> (r: Result<(), IcedError>)
    requires
        rg is Rdi || rg is Rsi || rg is Rdx || rg is Rcx || rg is R8 || rg is R9,
    ensures
        r is Ok,
        r is Ok ==> asm_code(*final(a)) == asm_code(*old(a)).push(
            MachInstr::MovMemR64(m, rg),
        ),
{
    let base = gpr64::rbp - m.disp;
    let mp = match m.width {
        Width::Byte => byte_ptr(base), Width::Word => word_ptr(base),
        Width::Dword => dword_ptr(base), Width::Qword => qword_ptr(base),
    };
    let rr = match rg {
        Reg::Rsi => gpr64::rsi, Reg::Rdx => gpr64::rdx, Reg::Rcx => gpr64::rcx,
        Reg::R8 => gpr64::r8, Reg::R9 => gpr64::r9,
        _ => gpr64::rdi,
    };
    a.mov(mp, rr)
}

/// The immediate range the assembler accepts for a store of a given width:
/// byte and word slots take only immediates that fit them (as signed or
/// unsigned values of that width); wider slots take any 32-bit immediate.
pub open spec fn mem_imm_fits(w: Width, v: i32) -> bool {
    match w {
        Width::Byte => -0x80 <= v <= 0xff,
        Width::Word => -0x8000 <= v <= 0xffff,
        Width::Dword => true,
        Width::Qword => true,
    }
}

/// Relies on CodeAssembler::mov of an immediate into a frame slot below the
/// frame pointer, at the slot's width: succeeds exactly when the immediate
/// fits the slot's immediate form.
#[verifier::external_body]
fn asm_mov_mem_imm32(a: &mut CodeAssembler, m: MemRef, v: i32) -> (r: Result<(), IcedError>)
    ensures
        mem_imm_fits(m.width, v) ==> r is Ok,
        r is Ok ==> asm_code(*final(a)) == asm_code(*old(a)).push(
            MachInstr::MovMemImm32(m, v),
        ),
{
    let base = gpr64::rbp - m.disp;
    let mp = match m.width {
        Width::Byte => byte_ptr(base), Width::Word => word_ptr(base),
        Width::Dword => dword_ptr(base), Width::Qword => qword_ptr(base),
    };
    a.mov(mp, v)
}

/// Relies on CodeAssembler::call with an absolute placeholder target: a
/// near-branch form, accepted for any target at append time.
#[verifier::external_body]
fn asm_call(a: &mut CodeAssembler, target: u64) -> (r: Result<(), IcedError>)
    ensures
        r is Ok,
        r is Ok ==> asm_code(*final(a)) == asm_code(*old(a)).push(
            MachInstr::CallRel(target),
        ),
{
    a.call(target)
}

/// Relies on CodeAssembler::jmp with an absolute target: a near-branch
/// form, accepted for any target at append time.
#[verifier::external_body]
fn asm_jmp(a: &mut CodeAssembler, target: u64) -> (r: Result<(), IcedError>)
    ensures
        r is Ok,
        r is Ok ==> asm_code(*final(a)) == asm_code(*old(a)).push(MachInstr::JmpAbs(target)),
{
    a.jmp(target)
}

/// Relies on CodeAssembler::jnz with an absolute target: a near-branch
/// form, accepted for any target at append time.
#[verifier::external_body]
fn asm_jnz(a: &mut CodeAssembler, target: u64) -> (r: Result<(), IcedError>)
    ensures
        r is Ok,
        r is Ok ==> asm_code(*final(a)) == asm_code(*old(a)).push(MachInstr::JnzAbs(target)),
{
    a.jnz(target)
}

/// Relies on CodeAssembler::anonymous_label: the label attaches to the next
/// appended instruction; a second anonymous label while one is still
/// pending is refused.
#[verifier::external_body]
fn asm_anon_label(a: &mut CodeAssembler) -> (r: Result<(), IcedError>)
    ensures
        asm_code(*old(a)).len() == 0 || !(asm_code(*old(a)).last() is AnonLabel) ==> r is Ok,
        r is Ok ==> asm_code(*final(a)) == asm_code(*old(a)).push(MachInstr::AnonLabel),
{
    a.anonymous_label()
}

/// Relies on CodeAssembler::bwd for the most recent anonymous label and
/// CodeAssembler::jmp to it: succeeds once any anonymous label has been
/// created.
#[verifier::external_body]
fn asm_jmp_bwd(a: &mut CodeAssembler) -> (r: Result<(), IcedError>)
    ensures
        (exists|i: int|
            0 <= i < asm_code(*old(a)).len() && asm_code(*old(a))[i] is AnonLabel) ==> r is Ok,
        r is Ok ==> asm_code(*final(a)) == asm_code(*old(a)).push(MachInstr::JmpToPrevLabel),
{
    let lbl = a.bwd()?;
    a.jmp(lbl)
}

/// Relies on CodeAssembler::assemble: encodes the held instructions at the
/// given base address without changing them, succeeding exactly when the
/// encoder accepts the held sequence there.
#[verifier::external_body]
fn asm_assemble(a: &mut CodeAssembler, rip: u64) -> (r: Result<Vec<u8>, IcedError>)
    ensures
        asm_code(*final(a)) == asm_code(*old(a)),
        (r is Ok) == asm_encodable(asm_code(*old(a)), rip),
        r is Ok ==> r->Ok_0@ == asm_encoding(asm_code(*old(a)), rip),
{
    a.assemble(rip)
}

/// Whether one instruction, appended after `prior`, is in the encoder's
/// repertoire: the register and immediate forms the wrappers cover, an
/// anonymous label only when none is already pending, and a backward jump
/// only when a label exists to jump to.
pub open spec fn encoder_admits(mi: MachInstr, prior: Seq<MachInstr>) -> bool {
    match mi {
        MachInstr::PushReg(rg) => rg is Rbp,
        MachInstr::PopReg(rg) => rg is Rbp,
        MachInstr::MovRegReg(d, s) => d is Rbp && s is Rsp,
        MachInstr::MovR32Imm32(rg, _) => rg is Rax || rg is Rdi || rg is Rsi || rg is Rdx
            || rg is Rcx || rg is R8 || rg is R9,
        MachInstr::MovR64Imm64(rg, _) => rg is Rdi || rg is Rsi || rg is Rdx || rg is Rcx
            || rg is R8 || rg is R9,
        MachInstr::MovMemR32(_, rg) => rg is Rdi || rg is Rsi || rg is Rdx || rg is Rcx
            || rg is R8 || rg is R9,
        MachInstr::MovMemR64(_, rg) => rg is Rdi || rg is Rsi || rg is Rdx || rg is Rcx
            || rg is R8 || rg is R9,
        MachInstr::MovMemImm32(m, v) => mem_imm_fits(m.width, v),
        MachInstr::PushImm32(v) => v <= 0x7fff_ffff || v >= 0xffff_ff80,
        MachInstr::AnonLabel => prior.len() == 0 || !(prior.last() is AnonLabel),
        MachInstr::JmpToPrevLabel => exists|i: int|
            0 <= i < prior.len() && prior[i] is AnonLabel,
        _ => true,
    }
}

/// Whether every instruction of a sequence is in the encoder's repertoire,
/// each judged after what precedes it.
pub open spec fn encoder_admits_all(code: Seq<MachInstr>) -> bool {
    forall|i: int| 0 <= i < code.len() ==> encoder_admits(code[i], code.take(i))
}

/// The positions of the call instructions of a prefix of an instruction
/// sequence, each given as the byte offset of its relocatable field: one
/// byte past the start of the call's encoding, in order of appearance.
pub open spec fn call_byte_offsets(code: Seq<MachInstr>, i: int, rip: u64) -> Seq<int>
    decreases i,
{
    if i <= 0 {
        Seq::empty()
    } else {
        let rest = call_byte_offsets(code, i - 1, rip);
        if code[i - 1] is CallRel {
            rest.push(asm_encoding(code.take(i - 1), rip).len() as int + 1)
        } else {
            rest
        }
    }
}

/// Appends one instruction to the assembler through the wrapper that emits
/// it; succeeds whenever the instruction is in the encoder's repertoire
/// after what the assembler already holds.
fn encode_one(a: &mut CodeAssembler, mi: &MachInstr) -> (r: Result<(), EncodeError>)
    ensures
        encoder_admits(*mi, asm_code(*old(a))) ==> r is Ok,
        r is Ok ==> asm_code(*final(a)) == asm_code(*old(a)).push(*mi),
{
    let step = match mi {
        MachInstr::Nop => asm_nop(a),
        MachInstr::Ud2 => asm_ud2(a),
        MachInstr::Ret => asm_ret(a),
        MachInstr::PushReg(rg) => {
            if matches!(rg, Reg::Rbp) {
                asm_push_rbp(a)
            } else {
                return Err(EncodeError::Unsupported);
            }
        },
        MachInstr::PushImm32(v) => asm_push_imm32(a, *v),
        MachInstr::PopReg(rg) => {
            if matches!(rg, Reg::Rbp) {
                asm_pop_rbp(a)
            } else {
                return Err(EncodeError::Unsupported);
            }
        },
        MachInstr::MovRegReg(d, s) => {
            if matches!(d, Reg::Rbp) && matches!(s, Reg::Rsp) {
                asm_mov_rbp_rsp(a)
            } else {
                return Err(EncodeError::Unsupported);
            }
        },
        MachInstr::MovR32Imm32(rg, v) => {
            if is_acc_or_arg_reg(rg) {
                asm_mov_r32_imm32(a, *rg, *v)
            } else {
                return Err(EncodeError::Unsupported);
            }
        },
        MachInstr::MovR64Imm64(rg, v) => {
            if is_arg_reg(rg) {
                asm_mov_r64_imm64(a, *rg, *v)
            } else {
                return Err(EncodeError::Unsupported);
            }
        },
        MachInstr::MovMemImm32(m, v) => asm_mov_mem_imm32(a, *m, *v),
        MachInstr::MovMemR32(m, rg) => {
            if is_arg_reg(rg) {
                asm_mov_mem_r32(a, *m, *rg)
            } else {
                return Err(EncodeError::Unsupported);
            }
        },
        MachInstr::MovMemR64(m, rg) => {
            if is_arg_reg(rg) {
                asm_mov_mem_r64(a, *m, *rg)
            } else {
                return Err(EncodeError::Unsupported);
            }
        },
        MachInstr::CallRel(t) => asm_call(a, *t),
        MachInstr::JmpAbs(t) => asm_jmp(a, *t),
        MachInstr::JnzAbs(t) => asm_jnz(a, *t),
        MachInstr::AnonLabel => asm_anon_label(a),
        MachInstr::JmpToPrevLabel => asm_jmp_bwd(a),
    };
    match step {
        Ok(_) => Ok(()),
        Err(_) => Err(EncodeError::Refused),
    }
}

/// Whether a register is one of the six integer argument registers.
fn is_arg_reg(rg: &Reg) -> (r: bool)
    ensures
        r == (*rg is Rdi || *rg is Rsi || *rg is Rdx || *rg is Rcx || *rg is R8 || *rg is R9),
{
    matches!(rg, Reg::Rdi | Reg::Rsi | Reg::Rdx | Reg::Rcx | Reg::R8 | Reg::R9)
}

/// Whether a register is the accumulator or an argument register.
fn is_acc_or_arg_reg(rg: &Reg) -> (r: bool)
    ensures
        r == (*rg is Rax || *rg is Rdi || *rg is Rsi || *rg is Rdx || *rg is Rcx || *rg is R8
            || *rg is R9),
{
    matches!(rg, Reg::Rax | Reg::Rdi | Reg::Rsi | Reg::Rdx | Reg::Rcx | Reg::R8 | Reg::R9)
}

/// Encodes a whole instruction vector at the given base address. On
/// success the bytes are exactly the encoding of the vector, and the call
/// sites' relocatable byte offsets are reported in order of appearance.
/// Success is owed whenever the instructions are in the encoder's
/// repertoire and the encoder accepts the sequence and each prefix it
/// assembles for a call-site offset.
pub fn encode(code: &Vec<MachInstr>, rip: u64) -> (r: Result<(Vec<u8>, Vec<usize>), EncodeError>)
    ensures
        r is Ok ==> r->Ok_0.0@ == asm_encoding(code@, rip),
        r is Ok ==> r->Ok_0.1@.map(|k: int, v: usize| v as int) == call_byte_offsets(
            code@,
            code@.len() as int,
            rip,
        ),
        (encoder_admits_all(code@) && asm_encodable(code@, rip) && (forall|i: int|
            0 <= i < code@.len() && code@[i] is CallRel ==> asm_encodable(code@.take(i), rip)
                && asm_encoding(code@.take(i), rip).len() < usize::MAX)) ==> r is Ok,
{
    let mut a = match asm_new() {
        Ok(x) => x,
        Err(_) => {
            return Err(EncodeError::Refused);
        },
    };
    let mut offs: Vec<usize> = Vec::new();
    let mut i: usize = 0;
    let n = code.len();
    proof {
        assert(code@.take(0) =~= Seq::<MachInstr>::empty());
    }
    while i < n
        invariant
            n == code@.len(),
            i <= n,
            asm_code(a) == code@.take(i as int),
            offs@.map(|k: int, v: usize| v as int) == call_byte_offsets(code@, i as int, rip),
        decreases n - i,
    {
        let mi = &code[i];
        if matches!(mi, MachInstr::CallRel(_)) {
            let bytes = match asm_assemble(&mut a, rip) {
                Ok(b) => b,
                Err(_) => {
                    return Err(EncodeError::Refused);
                },
            };
            if bytes.len() == usize::MAX {
                return Err(EncodeError::Refused);
            }
            let ghost prev_offs = offs@;
            offs.push(bytes.len() + 1);
            proof {
                assert(offs@.map(|k: int, v: usize| v as int) =~= prev_offs.map(
                    |k: int, v: usize| v as int,
                ).push(asm_encoding(code@.take(i as int), rip).len() as int + 1));
            }
        }
        match encode_one(&mut a, mi) {
            Ok(_) => {},
            Err(e) => {
                return Err(e);
            },
        }
        proof {
            assert(code@.take(i as int + 1) =~= code@.take(i as int).push(code@[i as int]));
        }
        i = i + 1;
    }
    let bytes = match asm_assemble(&mut a, rip) {
        Ok(b) => b,
        Err(_) => {
            proof {
                assert(code@.take(n as int) =~= code@);
            }
            return Err(EncodeError::Refused);
        },
    };
    proof {
        assert(code@.take(n as int) =~= code@);
    }
    Ok((bytes, offs))
}

} // verus!
