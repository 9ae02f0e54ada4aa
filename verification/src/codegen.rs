//! The native code generator: walks the instruction vector exactly like the
//! interpreter but emits machine instructions, maintaining a typed stack
//! frame (with alignment padding), the argument/parameter register
//! convention, and a table of call sites for later linking.
//!
//! `cg_spec` is the definition; `Codegen::instr` is the executable
//! generator, proved to produce exactly what the definition says. Call
//! targets are placeholders: the callee names of a generated unit are
//! recorded in emission order, to be paired with the encoded call sites by
//! the object writer (two-phase: generate all, then relocate all).

use vstd::prelude::*;
use crate::ast::{DataType, size_spec};
use crate::machinstr::{MachInstr, MemRef, Reg, Width, arg_reg, arg_reg_spec};
use crate::opcode::{Opcode, opcode_subvec};
use crate::value::{Value, ValV};

verus! {

/// Why native generation failed: an unsupported calling-convention shape
/// (more than six arguments or parameters, or a type without a frame
/// layout), an opcode outside the generator's mapping, a missing pseudo-
/// stack operand, a name with no recorded frame slot, or a frame grown past
/// the addressable range.
#[derive(Debug, PartialEq, Eq, Structural, Clone, Copy)]
pub enum CodegenError {
    UnsupportedAbi,
    UnsupportedOpcode,
    MissingOperand,
    UnknownVariable,
}

/// The padding inserted before a value of type `d` stored at cursor
/// `offset`, so that its start offset is a multiple of its own size.
/// Byte-sized and layout-less types never pad.
pub open spec fn pad_spec(d: DataType, offset: int) -> int {
    let s = size_spec(d) as int;
    if d is Char || s == 0 {
        0
    } else {
        (s - offset % s) % s
    }
}

/// Executable form of `pad_spec`.
pub fn padding(dt: DataType, offset: u32) -> (r: u32)
    ensures
        r == pad_spec(dt, offset as int),
        r < 8,
{
    let s = dt.size();
    if matches!(dt, DataType::Char) || s == 0 {
        0
    } else {
        (s - offset % s) % s
    }
}

/// The padding rule aligns every non-byte value: after padding, the start
/// offset is a multiple of the value's size, and the padding is minimal
/// (strictly less than the size).
pub proof fn lemma_padding_aligns(d: DataType, offset: int)
    requires
        offset >= 0,
        size_spec(d) != 0,
        !(d is Char),
    ensures
        (offset + pad_spec(d, offset)) % (size_spec(d) as int) == 0,
        0 <= pad_spec(d, offset) < size_spec(d) as int,
{
    let s = size_spec(d) as int;
    assert((offset + (s - offset % s) % s) % s == 0) by {
        assert(offset % s == offset - (offset / s) * s) by (nonlinear_arith)
            requires s > 0;
        assert(0 <= offset % s < s) by (nonlinear_arith)
            requires s > 0, offset >= 0;
        if offset % s == 0 {
            assert((s - offset % s) % s == 0);
        } else {
            assert((s - offset % s) % s == s - offset % s);
            assert((offset + (s - offset % s)) % s == 0) by (nonlinear_arith)
                requires s > 0, 0 < offset % s < s, offset >= 0;
        }
    };
}

/// The memory-access width of a data type with a layout.
pub open spec fn width_spec(d: DataType) -> Width {
    match d {
        DataType::Char => Width::Byte,
        DataType::Short => Width::Word,
        DataType::Int => Width::Dword,
        DataType::Float => Width::Dword,
        _ => Width::Qword,
    }
}

/// Executable form of `width_spec`.
fn width_of(d: &DataType) -> (r: Width)
    ensures
        r == width_spec(*d),
{
    match d {
        DataType::Char => Width::Byte,
        DataType::Short => Width::Word,
        DataType::Int | DataType::Float => Width::Dword,
        _ => Width::Qword,
    }
}

/// First value bound to a name in an association list.
pub open spec fn assoc_lookup<T>(s: Seq<(Seq<char>, T)>, n: Seq<char>) -> Option<T>
    decreases s.len(),
{
    if s.len() == 0 {
        None
    } else if s[0].0 == n {
        Some(s[0].1)
    } else {
        assoc_lookup(s.drop_first(), n)
    }
}

/// Overwrite-or-append binding, as a hash map's insert behaves.
pub open spec fn assoc_set<T>(s: Seq<(Seq<char>, T)>, n: Seq<char>, v: T) -> Seq<(Seq<char>, T)>
    decreases s.len(),
{
    if s.len() == 0 {
        seq![(n, v)]
    } else if s[0].0 == n {
        seq![(n, v)] + s.drop_first()
    } else {
        seq![s[0]] + assoc_set(s.drop_first(), n, v)
    }
}

/// A scan that saw no binding before position `i` is decided by the rest.
proof fn lemma_assoc_lookup_skip<T>(s: Seq<(Seq<char>, T)>, n: Seq<char>, i: int)
    requires
        0 <= i <= s.len(),
        forall|j: int| 0 <= j < i ==> s[j].0 != n,
    ensures
        assoc_lookup(s, n) == assoc_lookup(s.skip(i), n),
    decreases i,
{
    if i > 0 {
        assert(s[0].0 != n);
        lemma_assoc_lookup_skip(s.drop_first(), n, i - 1);
        assert(s.drop_first().skip(i - 1) =~= s.skip(i));
    } else {
        assert(s.skip(0) =~= s);
    }
}

/// Overwriting the first binding of `n` is a point update at its index.
proof fn lemma_assoc_set_at<T>(s: Seq<(Seq<char>, T)>, n: Seq<char>, v: T, i: int)
    requires
        0 <= i < s.len(),
        s[i].0 == n,
        forall|j: int| 0 <= j < i ==> s[j].0 != n,
    ensures
        assoc_set(s, n, v) == s.update(i, (n, v)),
    decreases i,
{
    if i == 0 {
        assert(assoc_set(s, n, v) =~= s.update(0, (n, v)));
    } else {
        assert(s[0].0 != n);
        lemma_assoc_set_at(s.drop_first(), n, v, i - 1);
        assert(seq![s[0]] + s.drop_first().update(i - 1, (n, v)) =~= s.update(i, (n, v)));
    }
}

/// Setting an unbound name appends it.
proof fn lemma_assoc_set_absent<T>(s: Seq<(Seq<char>, T)>, n: Seq<char>, v: T)
    requires
        forall|j: int| 0 <= j < s.len() ==> s[j].0 != n,
    ensures
        assoc_set(s, n, v) == s.push((n, v)),
    decreases s.len(),
{
    if s.len() > 0 {
        assert(s[0].0 != n);
        assert(forall|j: int| 0 <= j < s.drop_first().len() ==> s.drop_first()[j].0 != n);
        lemma_assoc_set_absent(s.drop_first(), n, v);
        assert(seq![s[0]] + s.drop_first().push((n, v)) =~= s.push((n, v)));
    } else {
        assert(assoc_set(s, n, v) =~= s.push((n, v)));
    }
}

/// One generated function: its name, its self-contained code (prologue,
/// body, epilogue), and the callee names of its call sites in emission
/// order.
#[derive(Debug)]
pub struct FuncCode {
    pub name: String,
    pub code: Vec<MachInstr>,
    pub calls: Vec<String>,
}

/// The generator state the definition walks: the compile-time pseudo-stack
/// of known constants, the name-to-frame-slot table, the frame and
/// parameter cursors, the argument/parameter ordinals, the code emitted so
/// far, the functions generated so far, the callee names of this unit's
/// call sites, and the global data encountered.
pub struct CgSt {
    pub pstack: Seq<ValV>,
    pub pvars: Seq<(Seq<char>, MemRef)>,
    pub local_off: int,
    pub param_off: int,
    pub argc: int,
    pub paramc: int,
    pub code: Seq<MachInstr>,
    pub funcs: Seq<(Seq<char>, Seq<MachInstr>, Seq<Seq<char>>)>,
    pub calls: Seq<Seq<char>>,
    pub globals: Seq<(Seq<char>, ValV)>,
}

/// The state a fresh generator (and each nested function body) starts from.
pub open spec fn cg_empty() -> CgSt {
    CgSt {
        pstack: Seq::empty(),
        pvars: Seq::empty(),
        local_off: 0,
        param_off: 0,
        argc: 0,
        paramc: 0,
        code: Seq::empty(),
        funcs: Seq::empty(),
        calls: Seq::empty(),
        globals: Seq::empty(),
    }
}

/// The standard function wrapper: prologue, body, epilogue.
pub open spec fn wrapped_of(body: Seq<MachInstr>) -> Seq<MachInstr> {
    seq![MachInstr::PushReg(Reg::Rbp), MachInstr::MovRegReg(Reg::Rbp, Reg::Rsp)] + body
        + seq![MachInstr::PopReg(Reg::Rbp), MachInstr::Ret]
}

/// Whether a function of this name has been generated.
pub open spec fn funcs_has(
    funcs: Seq<(Seq<char>, Seq<MachInstr>, Seq<Seq<char>>)>,
    n: Seq<char>,
) -> bool {
    exists|j: int| 0 <= j < funcs.len() && funcs[j].0 == n
}

/// Native generation itself: what walking `code` from `ip` in state `st`
/// yields. Offsets grow with the declared sizes plus alignment padding;
/// arguments and parameters take the conventional registers in order, and
/// more than six of either fails explicitly.
pub open spec fn cg_spec(code: Seq<Opcode>, ip: int, st: CgSt) -> Result<CgSt, CodegenError>
    decreases code.len(), code.len() - ip,
{
    if ip < 0 {
        Err(CodegenError::UnsupportedOpcode)
    } else if ip >= code.len() {
        Ok(st)
    } else {
        match code[ip] {
            Opcode::End => cg_spec(code, ip + 1, st),
            Opcode::EndFunc => cg_spec(code, ip + 1, st),
            Opcode::Nop => cg_spec(
                code,
                ip + 1,
                CgSt { code: st.code.push(MachInstr::Nop), ..st },
            ),
            Opcode::Invalid => cg_spec(
                code,
                ip + 1,
                CgSt { code: st.code.push(MachInstr::Ud2), ..st },
            ),
            Opcode::Constant(v) => cg_spec(
                code,
                ip + 1,
                CgSt { pstack: st.pstack.push(v@), ..st },
            ),
            Opcode::LoadName(n) => if funcs_has(st.funcs, n@) {
                cg_spec(code, ip + 1, CgSt { pstack: st.pstack.push(ValV::Str(n@)), ..st })
            } else {
                Err(CodegenError::UnknownVariable)
            },
            Opcode::StoreArg(v) => if st.argc >= 6 {
                Err(CodegenError::UnsupportedAbi)
            } else {
                match v@ {
                    ValV::Num(x) => {
                        let reg = arg_reg_spec(st.argc)->Some_0;
                        let mi = if 0 <= x < u32::MAX {
                            MachInstr::MovR32Imm32(reg, x as u32)
                        } else {
                            MachInstr::MovR64Imm64(reg, x as u64)
                        };
                        cg_spec(
                            code,
                            ip + 1,
                            CgSt { argc: st.argc + 1, code: st.code.push(mi), ..st },
                        )
                    },
                    _ => Err(CodegenError::UnsupportedAbi),
                }
            },
            Opcode::StoreParam(d, n) => if st.paramc >= 6 {
                Err(CodegenError::UnsupportedAbi)
            } else if size_spec(d) == 0 {
                Err(CodegenError::UnsupportedAbi)
            } else {
                let pad = pad_spec(d, st.param_off);
                let new_off = st.param_off + pad + size_spec(d);
                if new_off > u32::MAX {
                    Err(CodegenError::UnsupportedAbi)
                } else {
                    let m = MemRef { width: width_spec(d), disp: new_off as u32 };
                    let reg = arg_reg_spec(st.paramc)->Some_0;
                    let mi = if d is Int {
                        MachInstr::MovMemR32(m, reg)
                    } else {
                        MachInstr::MovMemR64(m, reg)
                    };
                    cg_spec(
                        code,
                        ip + 1,
                        CgSt {
                            param_off: new_off,
                            paramc: st.paramc + 1,
                            pvars: assoc_set(st.pvars, n@, m),
                            code: st.code.push(mi),
                            ..st
                        },
                    )
                }
            },
            Opcode::StoreLocal(d, is_p, n) => if st.pstack.len() == 0 {
                Err(CodegenError::MissingOperand)
            } else if size_spec(d) == 0 {
                Err(CodegenError::UnsupportedAbi)
            } else {
                let pad = pad_spec(d, st.local_off);
                let new_off = st.local_off + pad + size_spec(d);
                if new_off > u32::MAX {
                    Err(CodegenError::UnsupportedAbi)
                } else {
                    let wd = if is_p {
                        Width::Qword
                    } else {
                        width_spec(d)
                    };
                    let m = MemRef { width: wd, disp: new_off as u32 };
                    let imm: Option<i32> = match st.pstack.last() {
                        ValV::Num(x) => Some(x as i32),
                        ValV::F32(b) => Some(b as i32),
                        ValV::Char(c) => Some(c as i32),
                        _ => None,
                    };
                    match imm {
                        Some(x) => cg_spec(
                            code,
                            ip + 1,
                            CgSt {
                                pstack: st.pstack.drop_last(),
                                local_off: new_off,
                                pvars: assoc_set(st.pvars, n@, m),
                                code: st.code.push(MachInstr::MovMemImm32(m, x)),
                                ..st
                            },
                        ),
                        None => Err(CodegenError::UnsupportedAbi),
                    }
                }
            },
            Opcode::StoreGlobal(_d, _p, n) => if st.pstack.len() == 0 {
                Err(CodegenError::MissingOperand)
            } else {
                cg_spec(
                    code,
                    ip + 1,
                    CgSt {
                        pstack: st.pstack.drop_last(),
                        globals: st.globals.push((n@, st.pstack.last())),
                        ..st
                    },
                )
            },
            Opcode::Agn(n) => match assoc_lookup(st.pvars, n@) {
                Some(m) => if st.pstack.len() == 0 {
                    Err(CodegenError::MissingOperand)
                } else {
                    match st.pstack.last() {
                        ValV::Num(x) => cg_spec(
                            code,
                            ip + 1,
                            CgSt {
                                pstack: st.pstack.drop_last(),
                                code: st.code.push(MachInstr::MovMemImm32(m, x as i32)),
                                ..st
                            },
                        ),
                        _ => Err(CodegenError::UnsupportedAbi),
                    }
                },
                None => Err(CodegenError::UnknownVariable),
            },
            Opcode::Call(n) => cg_spec(
                code,
                ip + 1,
                CgSt {
                    code: st.code.push(MachInstr::CallRel(0)),
                    calls: st.calls.push(n@),
                    ..st
                },
            ),
            Opcode::Return(v) => match v {
                Some(val) => match val@ {
                    ValV::Num(x) => cg_spec(
                        code,
                        ip + 1,
                        CgSt {
                            code: st.code.push(MachInstr::MovR32Imm32(Reg::Rax, x as u32)),
                            ..st
                        },
                    ),
                    ValV::Char(c) => cg_spec(
                        code,
                        ip + 1,
                        CgSt {
                            code: st.code.push(MachInstr::MovR32Imm32(Reg::Rax, c as u32)),
                            ..st
                        },
                    ),
                    _ => Err(CodegenError::UnsupportedAbi),
                },
                None => cg_spec(code, ip + 1, st),
            },
            Opcode::Jmp(o) => cg_spec(
                code,
                ip + 1,
                CgSt { code: st.code.push(MachInstr::JmpAbs(o as u64)), ..st },
            ),
            Opcode::JIfFalse(o) => cg_spec(
                code,
                ip + 1,
                CgSt { code: st.code.push(MachInstr::JnzAbs((ip as u64).wrapping_add(o as u64))), ..st },
            ),
            Opcode::JBackward(_o) => cg_spec(
                code,
                ip + 1,
                CgSt { code: st.code.push(MachInstr::JmpToPrevLabel), ..st },
            ),
            Opcode::Begin => cg_spec(
                code,
                ip + 1,
                CgSt {
                    code: st.code.push(MachInstr::AnonLabel).push(MachInstr::Nop),
                    ..st
                },
            ),
            Opcode::MakeFunc(sz, n) => if ip + 1 + sz <= code.len() {
                let body = code.subrange(ip + 1, ip + 1 + sz);
                match cg_spec(body, 0, cg_empty()) {
                    Ok(sub) => cg_spec(
                        code,
                        ip + 1 + sz,
                        CgSt {
                            funcs: st.funcs + sub.funcs + seq![
                                (n@, wrapped_of(sub.code), sub.calls),
                            ],
                            globals: st.globals + sub.globals,
                            ..st
                        },
                    ),
                    Err(e) => Err(e),
                }
            } else {
                Err(CodegenError::UnsupportedOpcode)
            },
            _ => Err(CodegenError::UnsupportedOpcode),
        }
    }
}

/// Views of the executable generator's components.
pub open spec fn pstack_view(s: Seq<Value>) -> Seq<ValV> {
    s.map(|i: int, v: Value| v@)
}

pub open spec fn pvars_view(s: Seq<(String, MemRef)>) -> Seq<(Seq<char>, MemRef)> {
    s.map(|i: int, p: (String, MemRef)| (p.0@, p.1))
}

pub open spec fn calls_view(s: Seq<String>) -> Seq<Seq<char>> {
    s.map(|i: int, n: String| n@)
}

pub open spec fn funcs_view(s: Seq<FuncCode>) -> Seq<(Seq<char>, Seq<MachInstr>, Seq<Seq<char>>)> {
    s.map(|i: int, f: FuncCode| (f.name@, f.code@, calls_view(f.calls@)))
}

pub open spec fn globals_view(s: Seq<(String, Value)>) -> Seq<(Seq<char>, ValV)> {
    s.map(|i: int, p: (String, Value)| (p.0@, p.1@))
}

/// Index of the first frame slot recorded under a name, if any.
fn pvar_find(vars: &Vec<(String, MemRef)>, n: &String) -> (r: Option<usize>)
    ensures
        match r {
            Some(i) => i < vars@.len() && vars@[i as int].0@ == n@ && (forall|j: int|
                0 <= j < i ==> vars@[j].0@ != n@),
            None => forall|j: int| 0 <= j < vars@.len() ==> vars@[j].0@ != n@,
        },
{
    let mut i: usize = 0;
    let len = vars.len();
    while i < len
        invariant
            len == vars@.len(),
            i <= len,
            forall|j: int| 0 <= j < i ==> vars@[j].0@ != n@,
        decreases len - i,
    {
        if vars[i].0 == *n {
            return Some(i);
        }
        i = i + 1;
    }
    None
}

/// The first frame slot recorded under a name.
fn pvar_lookup(vars: &Vec<(String, MemRef)>, n: &String) -> (r: Option<MemRef>)
    ensures
        r == assoc_lookup(pvars_view(vars@), n@),
{
    match pvar_find(vars, n) {
        Some(i) => {
            proof {
                lemma_assoc_lookup_skip(pvars_view(vars@), n@, i as int);
                assert(pvars_view(vars@).skip(i as int)[0] == pvars_view(vars@)[i as int]);
            }
            Some(vars[i].1)
        },
        None => {
            proof {
                lemma_assoc_lookup_skip(pvars_view(vars@), n@, vars@.len() as int);
            }
            None
        },
    }
}

/// Overwrite-or-append recording of a frame slot under a name.
fn pvar_set(vars: &mut Vec<(String, MemRef)>, n: &String, m: MemRef)
    ensures
        pvars_view(final(vars)@) == assoc_set(pvars_view(old(vars)@), n@, m),
{
    let ghost vv = pvars_view(vars@);
    match pvar_find(vars, n) {
        Some(i) => {
            proof {
                lemma_assoc_lookup_skip(vv, n@, i as int);
                assert(vv.skip(i as int)[0] == vv[i as int]);
                lemma_assoc_set_at(vv, n@, m, i as int);
            }
            vars[i] = (n.clone(), m);
            proof {
                assert(pvars_view(vars@) =~= vv.update(i as int, (n@, m)));
            }
        },
        None => {
            proof {
                lemma_assoc_set_absent(vv, n@, m);
            }
            vars.push((n.clone(), m));
            proof {
                assert(pvars_view(vars@) =~= vv.push((n@, m)));
            }
        },
    }
}

/// Whether a function of this name stands in the generated table.
fn funcs_contains(funcs: &Vec<FuncCode>, n: &String) -> (r: bool)
    ensures
        r == funcs_has(funcs_view(funcs@), n@),
{
    let mut i: usize = 0;
    let len = funcs.len();
    while i < len
        invariant
            len == funcs@.len(),
            i <= len,
            forall|j: int| 0 <= j < i ==> funcs_view(funcs@)[j].0 != n@,
        decreases len - i,
    {
        if funcs[i].name == *n {
            proof {
                assert(funcs_view(funcs@)[i as int].0 == n@);
            }
            return true;
        }
        i = i + 1;
    }
    false
}

/// The native generator instance for one compilation unit: its outputs (the
/// function table, the call-site callee names, the global data) and the
/// compile-time pseudo state.
pub struct Codegen {
    pub call_location: Vec<String>,
    pub assign_location: Vec<(String, Value)>,
    pub func_location: Vec<FuncCode>,
    pub pseudo_stack: Vec<Value>,
    pub pseudo_variable_stack: Vec<(String, MemRef)>,
}

impl Codegen {
    /// The state the definition sees part-way through a walk, given the
    /// frame cursors, ordinals, and code emitted so far.
    pub open spec fn mid_st(
        &self,
        lo: int,
        po: int,
        ac: int,
        pc: int,
        code: Seq<MachInstr>,
    ) -> CgSt {
        CgSt {
            pstack: pstack_view(self.pseudo_stack@),
            pvars: pvars_view(self.pseudo_variable_stack@),
            local_off: lo,
            param_off: po,
            argc: ac,
            paramc: pc,
            code: code,
            funcs: funcs_view(self.func_location@),
            calls: calls_view(self.call_location@),
            globals: globals_view(self.assign_location@),
        }
    }

    /// The state a generation pass starts from: fresh cursors over the
    /// instance's accumulated tables.
    pub open spec fn entry_st(&self) -> CgSt {
        self.mid_st(0, 0, 0, 0, Seq::empty())
    }

    pub fn new() -> (r: Codegen)
        ensures
            r.entry_st() == cg_empty(),
    {
        let r = Codegen {
            call_location: Vec::new(),
            assign_location: Vec::new(),
            func_location: Vec::new(),
            pseudo_stack: Vec::new(),
            pseudo_variable_stack: Vec::new(),
        };
        proof {
            assert(r.entry_st().pstack =~= cg_empty().pstack);
            assert(r.entry_st().pvars =~= cg_empty().pvars);
            assert(r.entry_st().funcs =~= cg_empty().funcs);
            assert(r.entry_st().calls =~= cg_empty().calls);
            assert(r.entry_st().globals =~= cg_empty().globals);
        }
        r
    }
}

impl Codegen {
    /// Generates machine instructions for one instruction vector, exactly
    /// as `cg_spec` defines it. Nested `MakeFunc` bodies are generated by a
    /// separate instance, so one function's frame offsets never bleed into
    /// another's; their outputs are folded into this instance's tables.
    #[verifier::rlimit(100)]
    pub fn instr(&mut self, opcodes: &Vec<Opcode>) -> (r: Result<Vec<MachInstr>, CodegenError>)
        ensures
            match r {
                Ok(codev) => ({
                    let res = cg_spec(opcodes@, 0, old(self).entry_st());
                    &&& res is Ok
                    &&& res->Ok_0.code == codev@
                    &&& res->Ok_0.pstack == pstack_view(final(self).pseudo_stack@)
                    &&& res->Ok_0.pvars == pvars_view(final(self).pseudo_variable_stack@)
                    &&& res->Ok_0.funcs == funcs_view(final(self).func_location@)
                    &&& res->Ok_0.calls == calls_view(final(self).call_location@)
                    &&& res->Ok_0.globals == globals_view(final(self).assign_location@)
                }),
                Err(e) => cg_spec(opcodes@, 0, old(self).entry_st()) == Err::<
                    CgSt,
                    CodegenError,
                >(e),
            },
        decreases opcodes@.len(),
    {
        let ghost cs = opcodes@;
        let ghost goal = cg_spec(cs, 0, self.entry_st());
        let mut out: Vec<MachInstr> = Vec::new();
        let mut local_off: u32 = 0;
        let mut param_off: u32 = 0;
        let mut arg_c: usize = 0;
        let mut param_c: usize = 0;
        let mut ip: usize = 0;
        let n = opcodes.len();
        while ip < n
            invariant
                n == cs.len(),
                cs == opcodes@,
                ip <= n,
                goal == cg_spec(cs, 0, old(self).entry_st()),
                cg_spec(
                    cs,
                    ip as int,
                    self.mid_st(
                        local_off as int,
                        param_off as int,
                        arg_c as int,
                        param_c as int,
                        out@,
                    ),
                ) == goal,
            decreases n - ip,
        {
            let ghost st_pre = self.mid_st(
                local_off as int,
                param_off as int,
                arg_c as int,
                param_c as int,
                out@,
            );
            let ghost ip_pre = ip as int;
            let op = &opcodes[ip];
            match op {
                Opcode::End => {
                    ip = ip + 1;
                },
                Opcode::EndFunc => {
                    ip = ip + 1;
                },
                Opcode::Nop => {
                    out.push(MachInstr::Nop);
                    ip = ip + 1;
                },
                Opcode::Invalid => {
                    out.push(MachInstr::Ud2);
                    ip = ip + 1;
                },
                Opcode::Constant(v) => {
                    self.pseudo_stack.push(v.dup());
                    proof {
                        assert(pstack_view(self.pseudo_stack@) =~= st_pre.pstack.push(v@));
                    }
                    ip = ip + 1;
                },
                Opcode::LoadName(nm) => {
                    if funcs_contains(&self.func_location, nm) {
                        self.pseudo_stack.push(Value::Str(nm.clone()));
                        proof {
                            assert(pstack_view(self.pseudo_stack@) =~= st_pre.pstack.push(
                                ValV::Str(nm@),
                            ));
                        }
                        ip = ip + 1;
                    } else {
                        return Err(CodegenError::UnknownVariable);
                    }
                },
                Opcode::StoreArg(v) => {
                    if arg_c >= 6 {
                        return Err(CodegenError::UnsupportedAbi);
                    }
                    let reg = match arg_reg(arg_c) {
                        Some(rg) => rg,
                        None => {
                            return Err(CodegenError::UnsupportedAbi);
                        },
                    };
                    match v {
                        Value::Number(x) => {
                            let x = *x;
                            if 0 <= x && x < u32::MAX as i64 {
                                out.push(MachInstr::MovR32Imm32(reg, x as u32));
                            } else {
                                out.push(
                                    MachInstr::MovR64Imm64(reg, #[verifier::truncate] (x as u64)),
                                );
                            }
                            arg_c = arg_c + 1;
                            ip = ip + 1;
                        },
                        _ => {
                            return Err(CodegenError::UnsupportedAbi);
                        },
                    }
                },
                Opcode::StoreParam(d, nm) => {
                    if param_c >= 6 {
                        return Err(CodegenError::UnsupportedAbi);
                    }
                    let size = d.size();
                    if size == 0 {
                        return Err(CodegenError::UnsupportedAbi);
                    }
                    let reg = match arg_reg(param_c) {
                        Some(rg) => rg,
                        None => {
                            return Err(CodegenError::UnsupportedAbi);
                        },
                    };
                    let pad = padding(*d, param_off);
                    if param_off > u32::MAX - pad - size {
                        return Err(CodegenError::UnsupportedAbi);
                    }
                    let new_off = param_off + pad + size;
                    let m = MemRef { width: width_of(d), disp: new_off };
                    if matches!(d, DataType::Int) {
                        out.push(MachInstr::MovMemR32(m, reg));
                    } else {
                        out.push(MachInstr::MovMemR64(m, reg));
                    }
                    pvar_set(&mut self.pseudo_variable_stack, nm, m);
                    param_off = new_off;
                    param_c = param_c + 1;
                    ip = ip + 1;
                },
                Opcode::StoreLocal(d, is_p, nm) => {
                    if self.pseudo_stack.len() == 0 {
                        return Err(CodegenError::MissingOperand);
                    }
                    let size = d.size();
                    if size == 0 {
                        return Err(CodegenError::UnsupportedAbi);
                    }
                    let pad = padding(*d, local_off);
                    if local_off > u32::MAX - pad - size {
                        return Err(CodegenError::UnsupportedAbi);
                    }
                    let new_off = local_off + pad + size;
                    let wd = if *is_p {
                        Width::Qword
                    } else {
                        width_of(d)
                    };
                    let m = MemRef { width: wd, disp: new_off };
                    let value = match self.pseudo_stack.pop() {
                        Some(x) => x,
                        None => {
                            return Err(CodegenError::MissingOperand);
                        },
                    };
                    proof {
                        assert(value@ == st_pre.pstack.last());
                        assert(pstack_view(self.pseudo_stack@) =~= st_pre.pstack.drop_last());
                    }
                    let imm: i32 = match value {
                        Value::Number(x) => #[verifier::truncate] (x as i32),
                        Value::FloatBits(b) => #[verifier::truncate] (b as i32),
                        Value::Char(c) => c as i32,
                        _ => {
                            return Err(CodegenError::UnsupportedAbi);
                        },
                    };
                    out.push(MachInstr::MovMemImm32(m, imm));
                    pvar_set(&mut self.pseudo_variable_stack, nm, m);
                    local_off = new_off;
                    ip = ip + 1;
                },
                Opcode::StoreGlobal(_d, _p, nm) => {
                    if self.pseudo_stack.len() == 0 {
                        return Err(CodegenError::MissingOperand);
                    }
                    let value = match self.pseudo_stack.pop() {
                        Some(x) => x,
                        None => {
                            return Err(CodegenError::MissingOperand);
                        },
                    };
                    proof {
                        assert(value@ == st_pre.pstack.last());
                        assert(pstack_view(self.pseudo_stack@) =~= st_pre.pstack.drop_last());
                    }
                    self.assign_location.push((nm.clone(), value));
                    proof {
                        assert(globals_view(self.assign_location@) =~= st_pre.globals.push(
                            (nm@, st_pre.pstack.last()),
                        ));
                    }
                    ip = ip + 1;
                },
                Opcode::Agn(nm) => {
                    let m = match pvar_lookup(&self.pseudo_variable_stack, nm) {
                        Some(m) => m,
                        None => {
                            return Err(CodegenError::UnknownVariable);
                        },
                    };
                    if self.pseudo_stack.len() == 0 {
                        return Err(CodegenError::MissingOperand);
                    }
                    let value = match self.pseudo_stack.pop() {
                        Some(x) => x,
                        None => {
                            return Err(CodegenError::MissingOperand);
                        },
                    };
                    proof {
                        assert(value@ == st_pre.pstack.last());
                        assert(pstack_view(self.pseudo_stack@) =~= st_pre.pstack.drop_last());
                    }
                    match value {
                        Value::Number(x) => {
                            out.push(
                                MachInstr::MovMemImm32(m, #[verifier::truncate] (x as i32)),
                            );
                            ip = ip + 1;
                        },
                        _ => {
                            return Err(CodegenError::UnsupportedAbi);
                        },
                    }
                },
                Opcode::Call(nm) => {
                    out.push(MachInstr::CallRel(0));
                    self.call_location.push(nm.clone());
                    proof {
                        assert(calls_view(self.call_location@) =~= st_pre.calls.push(nm@));
                    }
                    ip = ip + 1;
                },
                Opcode::Return(v) => {
                    match v {
                        Some(val) => {
                            match val {
                                Value::Number(x) => {
                                    out.push(
                                        MachInstr::MovR32Imm32(
                                            Reg::Rax,
                                            #[verifier::truncate] (*x as u32),
                                        ),
                                    );
                                    ip = ip + 1;
                                },
                                Value::Char(c) => {
                                    out.push(MachInstr::MovR32Imm32(Reg::Rax, *c as u32));
                                    ip = ip + 1;
                                },
                                _ => {
                                    return Err(CodegenError::UnsupportedAbi);
                                },
                            }
                        },
                        None => {
                            ip = ip + 1;
                        },
                    }
                },
                Opcode::Jmp(o) => {
                    out.push(MachInstr::JmpAbs(*o as u64));
                    ip = ip + 1;
                },
                Opcode::JIfFalse(o) => {
                    out.push(MachInstr::JnzAbs((ip as u64).wrapping_add(*o as u64)));
                    ip = ip + 1;
                },
                Opcode::JBackward(_o) => {
                    out.push(MachInstr::JmpToPrevLabel);
                    ip = ip + 1;
                },
                Opcode::Begin => {
                    out.push(MachInstr::AnonLabel);
                    out.push(MachInstr::Nop);
                    ip = ip + 1;
                },
                Opcode::MakeFunc(sz, nm) => {
                    if *sz <= n - 1 - ip {
                        let body = opcode_subvec(opcodes, ip + 1, *sz);
                        let mut sub = Codegen::new();
                        match sub.instr(&body) {
                            Ok(sub_code) => {
                                let ghost sub_res = cg_spec(body@, 0, cg_empty())->Ok_0;
                                let mut wrapped: Vec<MachInstr> = Vec::new();
                                wrapped.push(MachInstr::PushReg(Reg::Rbp));
                                wrapped.push(MachInstr::MovRegReg(Reg::Rbp, Reg::Rsp));
                                let mut sc = sub_code;
                                wrapped.append(&mut sc);
                                wrapped.push(MachInstr::PopReg(Reg::Rbp));
                                wrapped.push(MachInstr::Ret);
                                proof {
                                    assert(wrapped@ =~= wrapped_of(sub_res.code));
                                }
                                let fc = FuncCode {
                                    name: nm.clone(),
                                    code: wrapped,
                                    calls: sub.call_location,
                                };
                                self.func_location.append(&mut sub.func_location);
                                self.func_location.push(fc);
                                self.assign_location.append(&mut sub.assign_location);
                                proof {
                                    assert(funcs_view(self.func_location@) =~~= st_pre.funcs
                                        + sub_res.funcs + seq![
                                        (nm@, wrapped_of(sub_res.code), sub_res.calls),
                                    ]);
                                    assert(globals_view(self.assign_location@) =~= st_pre.globals
                                        + sub_res.globals);
                                }
                                ip = ip + 1 + *sz;
                            },
                            Err(e) => {
                                return Err(e);
                            },
                        }
                    } else {
                        return Err(CodegenError::UnsupportedOpcode);
                    }
                },
                _ => {
                    return Err(CodegenError::UnsupportedOpcode);
                },
            }
        }
        Ok(out)
    }
}

} // verus!
