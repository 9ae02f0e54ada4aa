//! The stack-machine interpreter: executes an instruction sequence against
//! an operand stack, a flat variable environment, and a stack of scope
//! frames.
//!
//! `vm_spec` is the definition of execution (a step-indexed big-step
//! interpreter); `VM::run` is the executable loop, proved to produce exactly
//! the result and final state the definition gives. A fuel bound stands in
//! for the host call stack: guest recursion and loops beyond it report a
//! `RuntimeError` instead of exhausting host resources.

use vstd::prelude::*;
use crate::opcode::{ConstantPool, Opcode, opcode_subvec};
use crate::token_type::TokenType;
use crate::value::{
    Value, ValV, ValueError, add_spec, sub_spec, mul_spec, div_spec, neg_spec, not_spec,
    shl_spec, shr_spec, cmp_lt_spec, cmp_le_spec, cmp_gt_spec, cmp_ge_spec, cmp_eq_spec,
    cmp_ne_spec,
};

verus! {

/// One slot of the operand stack: a plain value, a raw memory address, or a
/// function captured as its instruction span.
#[derive(Debug)]
pub enum Stack {
    Value(Value),
    MemoryAddr(usize),
    CompressedFunc(Vec<Opcode>),
}

/// Mathematical image of a stack slot.
pub enum StackV {
    Val(ValV),
    Mem(usize),
    Func(Seq<Opcode>),
}

impl View for Stack {
    type V = StackV;

    open spec fn view(&self) -> StackV {
        match self {
            Stack::Value(v) => StackV::Val(v@),
            Stack::MemoryAddr(a) => StackV::Mem(*a),
            Stack::CompressedFunc(f) => StackV::Func(f@),
        }
    }
}

/// The value a slot reads as: non-value slots read as `Null`.
pub open spec fn as_value_spec(s: StackV) -> ValV {
    match s {
        StackV::Val(v) => v,
        _ => ValV::Null,
    }
}

impl Stack {
    /// The plain value in the slot; any other slot kind reads as `Null`.
    pub fn as_value(self) -> (r: Value)
        ensures
            r@ == as_value_spec(self@),
    {
        if let Stack::Value(v) = self {
            return v;
        }
        Value::Null
    }

    /// The memory address in the slot; any other slot kind reads as 0.
    pub fn as_memory_addr(self) -> (r: usize)
        ensures
            r == (match self@ {
                StackV::Mem(a) => a,
                _ => 0usize,
            }),
    {
        if let Stack::MemoryAddr(addr) = self {
            return addr;
        }
        0
    }

    /// The captured function in the slot; any other slot kind reads as the
    /// empty program.
    pub fn as_compressed_func(self) -> (r: Vec<Opcode>)
        ensures
            r@ == (match self@ {
                StackV::Func(f) => f,
                _ => Seq::<Opcode>::empty(),
            }),
    {
        if let Stack::CompressedFunc(f) = self {
            return f;
        }
        Vec::new()
    }

    /// A structural copy with the same image.
    pub fn dup(&self) -> (r: Stack)
        ensures
            r@ == self@,
    {
        match self {
            Stack::Value(v) => Stack::Value(v.dup()),
            Stack::MemoryAddr(a) => Stack::MemoryAddr(*a),
            Stack::CompressedFunc(f) => Stack::CompressedFunc(crate::opcode::opcode_dup_vec(f)),
        }
    }
}

/// Interpreter failure: an opcode outside the interpreter's mapping, a
/// broken program invariant (empty stack, missing name, bad pool index, bad
/// jump), a value-arithmetic error, or an exhausted fuel budget.
#[derive(Debug, PartialEq, Eq, Structural, Clone, Copy)]
pub enum VMError {
    CompileError,
    RuntimeError,
}

/// The whole interpreter state: operand stack, flat name environment, and
/// the stack of scope frames (each frame lists the names introduced since
/// its `Begin`).
pub struct VmSt {
    pub stack: Seq<StackV>,
    pub vars: Seq<(Seq<char>, StackV)>,
    pub frames: Seq<Seq<Seq<char>>>,
}

/// First binding of a name, scanning from the oldest entry.
pub open spec fn vars_lookup(vars: Seq<(Seq<char>, StackV)>, n: Seq<char>) -> Option<StackV>
    decreases vars.len(),
{
    if vars.len() == 0 {
        None
    } else if vars[0].0 == n {
        Some(vars[0].1)
    } else {
        vars_lookup(vars.drop_first(), n)
    }
}

/// Binding discipline of the flat environment: the first writer wins, a
/// rebind of an existing name changes nothing.
pub open spec fn vars_insert_if_absent(
    vars: Seq<(Seq<char>, StackV)>,
    n: Seq<char>,
    v: StackV,
) -> Seq<(Seq<char>, StackV)> {
    if vars_lookup(vars, n) is Some {
        vars
    } else {
        vars.push((n, v))
    }
}

/// Reassignment: the first binding of the name is overwritten.
pub open spec fn vars_assign(
    vars: Seq<(Seq<char>, StackV)>,
    n: Seq<char>,
    v: StackV,
) -> Seq<(Seq<char>, StackV)>
    decreases vars.len(),
{
    if vars.len() == 0 {
        vars
    } else if vars[0].0 == n {
        seq![(n, v)] + vars.drop_first()
    } else {
        seq![vars[0]] + vars_assign(vars.drop_first(), n, v)
    }
}

/// Removal of the first binding of a name, if any.
pub open spec fn vars_remove(
    vars: Seq<(Seq<char>, StackV)>,
    n: Seq<char>,
) -> Seq<(Seq<char>, StackV)>
    decreases vars.len(),
{
    if vars.len() == 0 {
        vars
    } else if vars[0].0 == n {
        vars.drop_first()
    } else {
        seq![vars[0]] + vars_remove(vars.drop_first(), n)
    }
}

/// Scope cleanup: every name recorded in a frame is removed from the flat
/// environment, in the order it was recorded.
pub open spec fn vars_remove_all(
    vars: Seq<(Seq<char>, StackV)>,
    names: Seq<Seq<char>>,
    i: int,
) -> Seq<(Seq<char>, StackV)>
    decreases names.len() - i,
{
    if i < 0 || i >= names.len() {
        vars
    } else {
        vars_remove_all(vars_remove(vars, names[i]), names, i + 1)
    }
}

/// What one binary-operator token computes, over the value domain; tokens
/// outside the operator mapping fail as runtime errors, and so do
/// value-kind mismatches.
pub open spec fn binop_spec(t: TokenType, a: ValV, b: ValV) -> Result<ValV, VMError> {
    let r = match t {
        TokenType::Plus => add_spec(a, b),
        TokenType::Minus => sub_spec(a, b),
        TokenType::Star => mul_spec(a, b),
        TokenType::Slash => div_spec(a, b),
        TokenType::Less => cmp_lt_spec(a, b),
        TokenType::LessEqual => cmp_le_spec(a, b),
        TokenType::Greater => cmp_gt_spec(a, b),
        TokenType::GreaterEqual => cmp_ge_spec(a, b),
        TokenType::NotEqual => cmp_ne_spec(a, b),
        TokenType::EqualEqual => cmp_eq_spec(a, b),
        TokenType::ShiftLeft => shl_spec(a, b),
        TokenType::ShiftRight => shr_spec(a, b),
        _ => Err(ValueError::TypeMismatch),
    };
    if t is Plus || t is Minus || t is Star || t is Slash || t is Less || t is LessEqual
        || t is Greater || t is GreaterEqual || t is NotEqual || t is EqualEqual
        || t is ShiftLeft || t is ShiftRight {
        match r {
            Ok(v) => Ok(v),
            Err(_) => Err(VMError::RuntimeError),
        }
    } else {
        Err(VMError::RuntimeError)
    }
}

/// The truth value `JIfFalse` tests: booleans directly, integers by
/// comparison with zero; anything else is a runtime error.
pub open spec fn truthy_spec(v: ValV) -> Result<bool, VMError> {
    match v {
        ValV::Bool(b) => Ok(b),
        ValV::Num(x) => Ok(x != 0),
        _ => Err(VMError::RuntimeError),
    }
}

/// The empty interpreter state a fresh VM (and every function call) starts
/// from.
pub open spec fn empty_st() -> VmSt {
    VmSt { stack: Seq::empty(), vars: Seq::empty(), frames: Seq::empty() }
}

/// Execution itself: what running `code` from `ip` in state `st` yields,
/// within `fuel` steps. Each executed opcode consumes one unit of fuel; a
/// call hands its remaining budget to the callee and to its own
/// continuation. Running out of fuel is a `RuntimeError`, the bounded
/// stand-in for host resource exhaustion.
pub open spec fn vm_spec(
    pool: Seq<ValV>,
    code: Seq<Opcode>,
    st: VmSt,
    ip: int,
    fuel: nat,
) -> (Result<(), VMError>, VmSt)
    decreases fuel,
{
    if ip < 0 {
        (Err(VMError::RuntimeError), st)
    } else if ip >= code.len() {
        (Ok(()), st)
    } else if fuel == 0 {
        (Err(VMError::RuntimeError), st)
    } else {
        let next = (fuel - 1) as nat;
        match code[ip] {
            Opcode::Nop => vm_spec(pool, code, st, ip + 1, next),
            Opcode::EndFunc => vm_spec(pool, code, st, ip + 1, next),
            Opcode::Constant(v) => vm_spec(
                pool,
                code,
                VmSt { stack: st.stack.push(StackV::Val(v@)), vars: st.vars, frames: st.frames },
                ip + 1,
                next,
            ),
            Opcode::LoadConstant(idx) => if idx < pool.len() {
                vm_spec(
                    pool,
                    code,
                    VmSt {
                        stack: st.stack.push(StackV::Val(pool[idx as int])),
                        vars: st.vars,
                        frames: st.frames,
                    },
                    ip + 1,
                    next,
                )
            } else {
                (Err(VMError::RuntimeError), st)
            },
            Opcode::StoreLocal(_d, _p, n) => if st.stack.len() == 0 || st.frames.len() == 0 {
                (Err(VMError::RuntimeError), st)
            } else {
                vm_spec(
                    pool,
                    code,
                    VmSt {
                        stack: st.stack.drop_last(),
                        vars: vars_insert_if_absent(st.vars, n@, st.stack.last()),
                        frames: st.frames.update(
                            st.frames.len() - 1,
                            st.frames.last().push(n@),
                        ),
                    },
                    ip + 1,
                    next,
                )
            },
            Opcode::StoreGlobal(_d, _p, n) => if st.stack.len() == 0 {
                (Err(VMError::RuntimeError), st)
            } else {
                vm_spec(
                    pool,
                    code,
                    VmSt {
                        stack: st.stack.drop_last(),
                        vars: vars_insert_if_absent(st.vars, n@, st.stack.last()),
                        frames: st.frames,
                    },
                    ip + 1,
                    next,
                )
            },
            Opcode::Begin => vm_spec(
                pool,
                code,
                VmSt {
                    stack: st.stack,
                    vars: st.vars,
                    frames: st.frames.push(Seq::empty()),
                },
                ip + 1,
                next,
            ),
            Opcode::End => if st.frames.len() == 0 {
                vm_spec(pool, code, st, ip + 1, next)
            } else {
                vm_spec(
                    pool,
                    code,
                    VmSt {
                        stack: st.stack,
                        vars: vars_remove_all(st.vars, st.frames.last(), 0),
                        frames: st.frames.drop_last(),
                    },
                    ip + 1,
                    next,
                )
            },
            Opcode::LoadName(n) => match vars_lookup(st.vars, n@) {
                Some(v) => vm_spec(
                    pool,
                    code,
                    VmSt { stack: st.stack.push(v), vars: st.vars, frames: st.frames },
                    ip + 1,
                    next,
                ),
                None => (Err(VMError::RuntimeError), st),
            },
            Opcode::BinOp(t) => if st.stack.len() < 2 {
                (Err(VMError::RuntimeError), st)
            } else {
                let rhs = as_value_spec(st.stack.last());
                let lhs = as_value_spec(st.stack[st.stack.len() - 2]);
                let popped = VmSt {
                    stack: st.stack.drop_last().drop_last(),
                    vars: st.vars,
                    frames: st.frames,
                };
                match binop_spec(t, lhs, rhs) {
                    Ok(v) => vm_spec(
                        pool,
                        code,
                        VmSt {
                            stack: popped.stack.push(StackV::Val(v)),
                            vars: popped.vars,
                            frames: popped.frames,
                        },
                        ip + 1,
                        next,
                    ),
                    Err(e) => (Err(e), popped),
                }
            },
            Opcode::Neg => if st.stack.len() == 0 {
                (Err(VMError::RuntimeError), st)
            } else {
                let popped = VmSt {
                    stack: st.stack.drop_last(),
                    vars: st.vars,
                    frames: st.frames,
                };
                match neg_spec(as_value_spec(st.stack.last())) {
                    Ok(v) => vm_spec(
                        pool,
                        code,
                        VmSt {
                            stack: popped.stack.push(StackV::Val(v)),
                            vars: popped.vars,
                            frames: popped.frames,
                        },
                        ip + 1,
                        next,
                    ),
                    Err(_) => (Err(VMError::RuntimeError), popped),
                }
            },
            Opcode::Not => if st.stack.len() == 0 {
                (Err(VMError::RuntimeError), st)
            } else {
                let popped = VmSt {
                    stack: st.stack.drop_last(),
                    vars: st.vars,
                    frames: st.frames,
                };
                match not_spec(as_value_spec(st.stack.last())) {
                    Ok(v) => vm_spec(
                        pool,
                        code,
                        VmSt {
                            stack: popped.stack.push(StackV::Val(v)),
                            vars: popped.vars,
                            frames: popped.frames,
                        },
                        ip + 1,
                        next,
                    ),
                    Err(_) => (Err(VMError::RuntimeError), popped),
                }
            },
            Opcode::Agn(n) => if st.stack.len() == 0 {
                (Err(VMError::RuntimeError), st)
            } else {
                let popped = VmSt {
                    stack: st.stack.drop_last(),
                    vars: st.vars,
                    frames: st.frames,
                };
                if vars_lookup(st.vars, n@) is Some {
                    vm_spec(
                        pool,
                        code,
                        VmSt {
                            stack: popped.stack,
                            vars: vars_assign(st.vars, n@, st.stack.last()),
                            frames: popped.frames,
                        },
                        ip + 1,
                        next,
                    )
                } else {
                    (Err(VMError::RuntimeError), popped)
                }
            },
            Opcode::Jmp(o) => vm_spec(pool, code, st, ip + 1 + o, next),
            Opcode::JBackward(o) => if o <= ip + 1 {
                vm_spec(pool, code, st, ip + 1 - o, next)
            } else {
                (Err(VMError::RuntimeError), st)
            },
            Opcode::JIfFalse(o) => if st.stack.len() == 0 {
                (Err(VMError::RuntimeError), st)
            } else {
                let popped = VmSt {
                    stack: st.stack.drop_last(),
                    vars: st.vars,
                    frames: st.frames,
                };
                match truthy_spec(as_value_spec(st.stack.last())) {
                    Ok(true) => vm_spec(pool, code, popped, ip + 1, next),
                    Ok(false) => vm_spec(pool, code, popped, ip + 1 + o, next),
                    Err(e) => (Err(e), popped),
                }
            },
            Opcode::MakeFunc(sz, _n) => if ip + 1 + sz <= code.len() {
                vm_spec(
                    pool,
                    code,
                    VmSt {
                        stack: st.stack.push(
                            StackV::Func(code.subrange(ip + 1, ip + 1 + sz)),
                        ),
                        vars: st.vars,
                        frames: st.frames,
                    },
                    ip + 1 + sz,
                    next,
                )
            } else {
                (Err(VMError::RuntimeError), st)
            },
            Opcode::Call(_n) => if st.stack.len() == 0 {
                (Err(VMError::RuntimeError), st)
            } else {
                let popped = VmSt {
                    stack: st.stack.drop_last(),
                    vars: st.vars,
                    frames: st.frames,
                };
                match st.stack.last() {
                    StackV::Func(body) => {
                        let sub = vm_spec(pool, body, empty_st(), 0, next);
                        match sub.0 {
                            Ok(_) => vm_spec(pool, code, popped, ip + 1, next),
                            Err(e) => (Err(e), popped),
                        }
                    },
                    _ => (Err(VMError::RuntimeError), popped),
                }
            },
            _ => (Err(VMError::RuntimeError), st),
        }
    }
}

/// Views of the executable state components.
pub open spec fn stack_view(s: Seq<Stack>) -> Seq<StackV> {
    s.map(|i: int, x: Stack| x@)
}

pub open spec fn vars_view(s: Seq<(String, Stack)>) -> Seq<(Seq<char>, StackV)> {
    s.map(|i: int, p: (String, Stack)| (p.0@, p.1@))
}

pub open spec fn frames_view(s: Seq<Vec<String>>) -> Seq<Seq<Seq<char>>> {
    s.map(|i: int, f: Vec<String>| f@.map(|j: int, n: String| n@))
}

/// A scan that saw no binding of `n` before position `i` can continue from
/// `i`: the lookup result is decided by the rest.
proof fn lemma_vars_lookup_skip(vs: Seq<(Seq<char>, StackV)>, n: Seq<char>, i: int)
    requires
        0 <= i <= vs.len(),
        forall|j: int| 0 <= j < i ==> vs[j].0 != n,
    ensures
        vars_lookup(vs, n) == vars_lookup(vs.skip(i), n),
    decreases i,
{
    if i > 0 {
        assert(vs[0].0 != n);
        lemma_vars_lookup_skip(vs.drop_first(), n, i - 1);
        assert(vs.drop_first().skip(i - 1) =~= vs.skip(i));
    } else {
        assert(vs.skip(0) =~= vs);
    }
}

/// Overwriting the first binding of `n` is a point update at its index.
proof fn lemma_vars_assign_at(vs: Seq<(Seq<char>, StackV)>, n: Seq<char>, v: StackV, i: int)
    requires
        0 <= i < vs.len(),
        vs[i].0 == n,
        forall|j: int| 0 <= j < i ==> vs[j].0 != n,
    ensures
        vars_assign(vs, n, v) == vs.update(i, (n, v)),
    decreases i,
{
    if i == 0 {
        assert(vars_assign(vs, n, v) =~= vs.update(0, (n, v)));
    } else {
        assert(vs[0].0 != n);
        lemma_vars_assign_at(vs.drop_first(), n, v, i - 1);
        assert(seq![vs[0]] + vs.drop_first().update(i - 1, (n, v)) =~= vs.update(i, (n, v)));
    }
}

/// Removing the first binding of `n` is a point removal at its index.
proof fn lemma_vars_remove_at(vs: Seq<(Seq<char>, StackV)>, n: Seq<char>, i: int)
    requires
        0 <= i < vs.len(),
        vs[i].0 == n,
        forall|j: int| 0 <= j < i ==> vs[j].0 != n,
    ensures
        vars_remove(vs, n) == vs.remove(i),
    decreases i,
{
    if i == 0 {
        assert(vars_remove(vs, n) =~= vs.remove(0));
    } else {
        assert(vs[0].0 != n);
        lemma_vars_remove_at(vs.drop_first(), n, i - 1);
        assert(seq![vs[0]] + vs.drop_first().remove(i - 1) =~= vs.remove(i));
    }
}

/// Assigning a name with no binding changes nothing.
proof fn lemma_vars_assign_absent(vs: Seq<(Seq<char>, StackV)>, n: Seq<char>, v: StackV)
    requires
        forall|j: int| 0 <= j < vs.len() ==> vs[j].0 != n,
    ensures
        vars_assign(vs, n, v) == vs,
    decreases vs.len(),
{
    if vs.len() > 0 {
        assert(vs[0].0 != n);
        assert(forall|j: int| 0 <= j < vs.drop_first().len() ==> vs.drop_first()[j].0 != n);
        lemma_vars_assign_absent(vs.drop_first(), n, v);
        assert(seq![vs[0]] + vs.drop_first() =~= vs);
    }
}

/// Removing a name with no binding changes nothing.
proof fn lemma_vars_remove_absent(vs: Seq<(Seq<char>, StackV)>, n: Seq<char>)
    requires
        forall|j: int| 0 <= j < vs.len() ==> vs[j].0 != n,
    ensures
        vars_remove(vs, n) == vs,
    decreases vs.len(),
{
    if vs.len() > 0 {
        assert(vs[0].0 != n);
        assert(forall|j: int| 0 <= j < vs.drop_first().len() ==> vs.drop_first()[j].0 != n);
        lemma_vars_remove_absent(vs.drop_first(), n);
        assert(seq![vs[0]] + vs.drop_first() =~= vs);
    }
}

/// Index of the first binding of a name, if any.
fn env_find(vars: &Vec<(String, Stack)>, n: &String) -> (r: Option<usize>)
    ensures
        match r {
            Some(i) => i < vars@.len() && vars@[i as int].0@ == n@ && (forall|j: int|
                0 <= j < i ==> vars@[j].0@ != n@),
            None => forall|j: int| 0 <= j < vars@.len() ==> vars@[j].0@ != n@,
        },
{
    let mut i: usize = 0;
    let len = vars.len();
    while i < len
        invariant
            len == vars@.len(),
            i <= len,
            forall|j: int| 0 <= j < i ==> vars@[j].0@ != n@,
        decreases len - i,
    {
        if vars[i].0 == *n {
            return Some(i);
        }
        i = i + 1;
    }
    None
}

/// Lookup that hands back a copy of the bound slot.
fn env_lookup_dup(vars: &Vec<(String, Stack)>, n: &String) -> (r: Option<Stack>)
    ensures
        match vars_lookup(vars_view(vars@), n@) {
            Some(v) => r is Some && r->Some_0@ == v,
            None => r is None,
        },
{
    match env_find(vars, n) {
        Some(i) => {
            proof {
                lemma_vars_lookup_skip(vars_view(vars@), n@, i as int);
                assert(vars_view(vars@).skip(i as int)[0] == vars_view(vars@)[i as int]);
            }
            Some(vars[i].1.dup())
        },
        None => {
            proof {
                lemma_vars_lookup_skip(vars_view(vars@), n@, vars@.len() as int);
            }
            None
        },
    }
}

/// First writer wins: a fresh name is appended, a rebind changes nothing.
fn env_insert_if_absent(vars: &mut Vec<(String, Stack)>, n: &String, v: Stack)
    ensures
        vars_view(final(vars)@) == vars_insert_if_absent(vars_view(old(vars)@), n@, v@),
{
    let ghost vv = vars_view(vars@);
    match env_find(vars, n) {
        Some(i) => {
            proof {
                lemma_vars_lookup_skip(vv, n@, i as int);
                assert(vv.skip(i as int)[0] == vv[i as int]);
            }
        },
        None => {
            proof {
                lemma_vars_lookup_skip(vv, n@, vars@.len() as int);
            }
            let ghost pushed = v@;
            vars.push((n.clone(), v));
            proof {
                assert(vars_view(vars@) =~= vv.push((n@, pushed)));
            }
        },
    }
}

/// Reassignment of an existing binding; reports whether the name was bound.
fn env_assign(vars: &mut Vec<(String, Stack)>, n: &String, v: Stack) -> (found: bool)
    ensures
        found == (vars_lookup(vars_view(old(vars)@), n@) is Some),
        found ==> vars_view(final(vars)@) == vars_assign(vars_view(old(vars)@), n@, v@),
        !found ==> final(vars)@ == old(vars)@,
{
    let ghost vv = vars_view(vars@);
    match env_find(vars, n) {
        Some(i) => {
            proof {
                lemma_vars_lookup_skip(vv, n@, i as int);
                assert(vv.skip(i as int)[0] == vv[i as int]);
                lemma_vars_assign_at(vv, n@, v@, i as int);
            }
            let ghost pushed = v@;
            vars[i] = (n.clone(), v);
            proof {
                assert(vars_view(vars@) =~= vv.update(i as int, (n@, pushed)));
            }
            true
        },
        None => {
            proof {
                lemma_vars_lookup_skip(vv, n@, vars@.len() as int);
            }
            false
        },
    }
}

/// Removal of the first binding of a name, where one exists.
fn env_remove(vars: &mut Vec<(String, Stack)>, n: &String)
    ensures
        vars_view(final(vars)@) == vars_remove(vars_view(old(vars)@), n@),
{
    let ghost vv = vars_view(vars@);
    match env_find(vars, n) {
        Some(i) => {
            proof {
                lemma_vars_remove_at(vv, n@, i as int);
            }
            vars.remove(i);
            proof {
                assert(vars_view(vars@) =~= vv.remove(i as int));
            }
        },
        None => {
            proof {
                lemma_vars_remove_absent(vv, n@);
            }
        },
    }
}

/// The interpreter: a reusable instance holding the constant pool it reads
/// and the state it executes against.
pub struct VM {
    c_pool: ConstantPool,
    stack: Vec<Stack>,
    variable_stack: Vec<(String, Stack)>,
    local_stack: Vec<Vec<String>>,
}

impl VM {
    /// The pool this instance reads `LoadConstant` entries from.
    pub closed spec fn pool_view(&self) -> Seq<ValV> {
        self.c_pool@
    }

    /// The mathematical state of this instance.
    pub closed spec fn st(&self) -> VmSt {
        VmSt {
            stack: stack_view(self.stack@),
            vars: vars_view(self.variable_stack@),
            frames: frames_view(self.local_stack@),
        }
    }

    pub fn new(c_pool: ConstantPool) -> (r: VM)
        ensures
            r.pool_view() == c_pool@,
            r.st() == empty_st(),
    {
        let r = VM {
            c_pool,
            stack: Vec::new(),
            variable_stack: Vec::new(),
            local_stack: Vec::new(),
        };
        proof {
            assert(r.st().stack =~= empty_st().stack);
            assert(r.st().vars =~= empty_st().vars);
            assert(r.st().frames =~= empty_st().frames);
        }
        r
    }
}

/// Executable form of `binop_spec`.
fn apply_binop(t: &TokenType, a: Value, b: Value) -> (r: Result<Value, VMError>)
    ensures
        match r {
            Ok(v) => binop_spec(*t, a@, b@) == Ok::<ValV, VMError>(v@),
            Err(e) => binop_spec(*t, a@, b@) == Err::<ValV, VMError>(e),
        },
{
    let out = match t {
        TokenType::Plus => a.add(b),
        TokenType::Minus => a.sub(b),
        TokenType::Star => a.mul(b),
        TokenType::Slash => a.div(b),
        TokenType::Less => a.lt(b),
        TokenType::LessEqual => a.le(b),
        TokenType::Greater => a.gt(b),
        TokenType::GreaterEqual => a.ge(b),
        TokenType::NotEqual => a.ne_value(b),
        TokenType::EqualEqual => a.eq_value(b),
        TokenType::ShiftLeft => a.shl(b),
        TokenType::ShiftRight => a.shr(b),
        _ => {
            return Err(VMError::RuntimeError);
        },
    };
    match out {
        Ok(v) => Ok(v),
        Err(_) => Err(VMError::RuntimeError),
    }
}

/// Executable form of `truthy_spec`.
fn truthy(v: Value) -> (r: Result<bool, VMError>)
    ensures
        match r {
            Ok(b) => truthy_spec(v@) == Ok::<bool, VMError>(b),
            Err(e) => truthy_spec(v@) == Err::<bool, VMError>(e),
        },
{
    match v {
        Value::Boolean(b) => Ok(b),
        Value::Number(x) => Ok(x != 0),
        _ => Err(VMError::RuntimeError),
    }
}

impl VM {
    /// The fetch-decode-execute loop over one instruction vector, exactly as
    /// `vm_spec` defines it; called functions run in a fresh instance that
    /// shares only the constant pool.
    #[verifier::rlimit(100)]
    fn run_core(&mut self, opcodes: &Vec<Opcode>, ip: usize, fuel: u64) -> (r: Result<
        (),
        VMError,
    >)
        ensures
            final(self).pool_view() == old(self).pool_view(),
            r == vm_spec(
                old(self).pool_view(),
                opcodes@,
                old(self).st(),
                ip as int,
                fuel as nat,
            ).0,
            final(self).st() == vm_spec(
                old(self).pool_view(),
                opcodes@,
                old(self).st(),
                ip as int,
                fuel as nat,
            ).1,
        decreases fuel,
    {
        let ghost pool = self.c_pool@;
        let ghost code = opcodes@;
        let ghost goal = vm_spec(pool, code, self.st(), ip as int, fuel as nat);
        let mut ip_cur: usize = ip;
        let mut fuel_cur: u64 = fuel;
        let n = opcodes.len();
        while ip_cur < n
            invariant
                n == code.len(),
                code == opcodes@,
                self.c_pool@ == pool,
                pool == old(self).pool_view(),
                goal == vm_spec(pool, code, old(self).st(), ip as int, fuel as nat),
                fuel_cur <= fuel,
                vm_spec(pool, code, self.st(), ip_cur as int, fuel_cur as nat) == goal,
            decreases fuel_cur,
        {
            let ghost st_pre = self.st();
            let ghost ip_pre = ip_cur as int;
            let ghost fuel_pre = fuel_cur as nat;
            if fuel_cur == 0 {
                return Err(VMError::RuntimeError);
            }
            fuel_cur = fuel_cur - 1;
            let op = &opcodes[ip_cur];
            match op {
                Opcode::Nop => {
                    ip_cur = ip_cur + 1;
                },
                Opcode::EndFunc => {
                    ip_cur = ip_cur + 1;
                },
                Opcode::Constant(v) => {
                    self.stack.push(Stack::Value(v.dup()));
                    proof {
                        assert(self.st().stack =~= st_pre.stack.push(StackV::Val(v@)));
                    }
                    ip_cur = ip_cur + 1;
                },
                Opcode::LoadConstant(idx) => {
                    if *idx < self.c_pool.len() {
                        let val = self.c_pool.get(*idx).dup();
                        self.stack.push(Stack::Value(val));
                        proof {
                            assert(self.st().stack =~= st_pre.stack.push(
                                StackV::Val(pool[*idx as int]),
                            ));
                        }
                        ip_cur = ip_cur + 1;
                    } else {
                        return Err(VMError::RuntimeError);
                    }
                },
                Opcode::StoreLocal(_d, _p, nm) => {
                    if self.stack.len() == 0 {
                        return Err(VMError::RuntimeError);
                    }
                    if self.local_stack.len() == 0 {
                        return Err(VMError::RuntimeError);
                    }
                    let top = match self.stack.pop() {
                        Some(t) => t,
                        None => {
                            return Err(VMError::RuntimeError);
                        },
                    };
                    proof {
                        assert(top@ == st_pre.stack.last());
                        assert(self.st().stack =~= st_pre.stack.drop_last());
                    }
                    env_insert_if_absent(&mut self.variable_stack, nm, top);
                    let mut fr = match self.local_stack.pop() {
                        Some(f) => f,
                        None => {
                            return Err(VMError::RuntimeError);
                        },
                    };
                    fr.push(nm.clone());
                    self.local_stack.push(fr);
                    proof {
                        assert(self.st().frames =~~= st_pre.frames.update(
                            st_pre.frames.len() - 1,
                            st_pre.frames.last().push(nm@),
                        ));
                    }
                    ip_cur = ip_cur + 1;
                },
                Opcode::StoreGlobal(_d, _p, nm) => {
                    if self.stack.len() == 0 {
                        return Err(VMError::RuntimeError);
                    }
                    let top = match self.stack.pop() {
                        Some(t) => t,
                        None => {
                            return Err(VMError::RuntimeError);
                        },
                    };
                    proof {
                        assert(top@ == st_pre.stack.last());
                        assert(self.st().stack =~= st_pre.stack.drop_last());
                    }
                    env_insert_if_absent(&mut self.variable_stack, nm, top);
                    ip_cur = ip_cur + 1;
                },
                Opcode::Begin => {
                    self.local_stack.push(Vec::new());
                    proof {
                        assert(self.st().frames =~~= st_pre.frames.push(Seq::empty()));
                    }
                    ip_cur = ip_cur + 1;
                },
                Opcode::End => {
                    if self.local_stack.len() > 0 {
                        let names = match self.local_stack.pop() {
                            Some(f) => f,
                            None => {
                                return Err(VMError::RuntimeError);
                            },
                        };
                        let ghost nv = st_pre.frames.last();
                        proof {
                            assert(nv == names@.map(|j: int, m: String| m@));
                            assert(self.st().frames =~= st_pre.frames.drop_last());
                        }
                        let mut k: usize = 0;
                        let nn = names.len();
                        while k < nn
                            invariant
                                nn == names@.len(),
                                k <= nn,
                                nv == names@.map(|j: int, m: String| m@),
                                self.c_pool@ == pool,
                                stack_view(self.stack@) == st_pre.stack,
                                frames_view(self.local_stack@) == st_pre.frames.drop_last(),
                                vars_remove_all(
                                    vars_view(self.variable_stack@),
                                    nv,
                                    k as int,
                                ) == vars_remove_all(st_pre.vars, nv, 0),
                            decreases nn - k,
                        {
                            env_remove(&mut self.variable_stack, &names[k]);
                            k = k + 1;
                        }
                        ip_cur = ip_cur + 1;
                    } else {
                        ip_cur = ip_cur + 1;
                    }
                },
                Opcode::LoadName(nm) => {
                    match env_lookup_dup(&self.variable_stack, nm) {
                        Some(slot) => {
                            self.stack.push(slot);
                            proof {
                                assert(self.st().stack =~= st_pre.stack.push(
                                    vars_lookup(st_pre.vars, nm@)->Some_0,
                                ));
                            }
                            ip_cur = ip_cur + 1;
                        },
                        None => {
                            return Err(VMError::RuntimeError);
                        },
                    }
                },
                Opcode::BinOp(t) => {
                    if self.stack.len() < 2 {
                        return Err(VMError::RuntimeError);
                    }
                    let rhs = match self.stack.pop() {
                        Some(x) => x,
                        None => {
                            return Err(VMError::RuntimeError);
                        },
                    };
                    let lhs = match self.stack.pop() {
                        Some(x) => x,
                        None => {
                            return Err(VMError::RuntimeError);
                        },
                    };
                    proof {
                        assert(rhs@ == st_pre.stack.last());
                        assert(lhs@ == st_pre.stack[st_pre.stack.len() - 2]);
                        assert(self.st().stack =~= st_pre.stack.drop_last().drop_last());
                    }
                    match apply_binop(t, lhs.as_value(), rhs.as_value()) {
                        Ok(v) => {
                            let ghost prev = self.st().stack;
                            self.stack.push(Stack::Value(v));
                            proof {
                                assert(self.st().stack =~= prev.push(StackV::Val(v@)));
                            }
                            ip_cur = ip_cur + 1;
                        },
                        Err(e) => {
                            return Err(e);
                        },
                    }
                },
                Opcode::Neg => {
                    if self.stack.len() == 0 {
                        return Err(VMError::RuntimeError);
                    }
                    let t1 = match self.stack.pop() {
                        Some(x) => x,
                        None => {
                            return Err(VMError::RuntimeError);
                        },
                    };
                    proof {
                        assert(t1@ == st_pre.stack.last());
                        assert(self.st().stack =~= st_pre.stack.drop_last());
                    }
                    match t1.as_value().neg() {
                        Ok(v) => {
                            let ghost prev = self.st().stack;
                            self.stack.push(Stack::Value(v));
                            proof {
                                assert(self.st().stack =~= prev.push(StackV::Val(v@)));
                            }
                            ip_cur = ip_cur + 1;
                        },
                        Err(_) => {
                            return Err(VMError::RuntimeError);
                        },
                    }
                },
                Opcode::Not => {
                    if self.stack.len() == 0 {
                        return Err(VMError::RuntimeError);
                    }
                    let t1 = match self.stack.pop() {
                        Some(x) => x,
                        None => {
                            return Err(VMError::RuntimeError);
                        },
                    };
                    proof {
                        assert(t1@ == st_pre.stack.last());
                        assert(self.st().stack =~= st_pre.stack.drop_last());
                    }
                    match t1.as_value().not() {
                        Ok(v) => {
                            let ghost prev = self.st().stack;
                            self.stack.push(Stack::Value(v));
                            proof {
                                assert(self.st().stack =~= prev.push(StackV::Val(v@)));
                            }
                            ip_cur = ip_cur + 1;
                        },
                        Err(_) => {
                            return Err(VMError::RuntimeError);
                        },
                    }
                },
                Opcode::Agn(nm) => {
                    if self.stack.len() == 0 {
                        return Err(VMError::RuntimeError);
                    }
                    let v = match self.stack.pop() {
                        Some(x) => x,
                        None => {
                            return Err(VMError::RuntimeError);
                        },
                    };
                    proof {
                        assert(v@ == st_pre.stack.last());
                        assert(self.st().stack =~= st_pre.stack.drop_last());
                    }
                    let found = env_assign(&mut self.variable_stack, nm, v);
                    if found {
                        ip_cur = ip_cur + 1;
                    } else {
                        return Err(VMError::RuntimeError);
                    }
                },
                Opcode::Jmp(o) => {
                    if *o <= n - 1 - ip_cur {
                        ip_cur = ip_cur + 1 + *o;
                    } else {
                        ip_cur = n;
                        proof {
                            assert(vm_spec(pool, code, st_pre, ip_pre + 1 + (*o as int), fuel_cur as nat)
                                == vm_spec(pool, code, st_pre, n as int, fuel_cur as nat));
                        }
                    }
                },
                Opcode::JBackward(o) => {
                    if *o <= ip_cur + 1 {
                        ip_cur = ip_cur + 1 - *o;
                    } else {
                        return Err(VMError::RuntimeError);
                    }
                },
                Opcode::JIfFalse(o) => {
                    if self.stack.len() == 0 {
                        return Err(VMError::RuntimeError);
                    }
                    let t1 = match self.stack.pop() {
                        Some(x) => x,
                        None => {
                            return Err(VMError::RuntimeError);
                        },
                    };
                    proof {
                        assert(t1@ == st_pre.stack.last());
                        assert(self.st().stack =~= st_pre.stack.drop_last());
                    }
                    match truthy(t1.as_value()) {
                        Ok(true) => {
                            ip_cur = ip_cur + 1;
                        },
                        Ok(false) => {
                            if *o <= n - 1 - ip_cur {
                                ip_cur = ip_cur + 1 + *o;
                            } else {
                                let ghost popped = self.st();
                                ip_cur = n;
                                proof {
                                    assert(vm_spec(pool, code, popped, ip_pre + 1 + (*o as int), fuel_cur as nat)
                                        == vm_spec(pool, code, popped, n as int, fuel_cur as nat));
                                }
                            }
                        },
                        Err(e) => {
                            return Err(e);
                        },
                    }
                },
                Opcode::MakeFunc(sz, _nm) => {
                    if *sz <= n - 1 - ip_cur {
                        let body = opcode_subvec(opcodes, ip_cur + 1, *sz);
                        self.stack.push(Stack::CompressedFunc(body));
                        proof {
                            assert(self.st().stack =~= st_pre.stack.push(
                                StackV::Func(code.subrange(ip_pre + 1, ip_pre + 1 + (*sz as int))),
                            ));
                        }
                        ip_cur = ip_cur + 1 + *sz;
                    } else {
                        return Err(VMError::RuntimeError);
                    }
                },
                Opcode::Call(_nm) => {
                    if self.stack.len() == 0 {
                        return Err(VMError::RuntimeError);
                    }
                    let f = match self.stack.pop() {
                        Some(x) => x,
                        None => {
                            return Err(VMError::RuntimeError);
                        },
                    };
                    proof {
                        assert(f@ == st_pre.stack.last());
                        assert(self.st().stack =~= st_pre.stack.drop_last());
                    }
                    match f {
                        Stack::CompressedFunc(body) => {
                            let mut sub = VM::new(self.c_pool.dup());
                            let res = sub.run_core(&body, 0, fuel_cur);
                            match res {
                                Ok(_) => {
                                    ip_cur = ip_cur + 1;
                                },
                                Err(e) => {
                                    return Err(e);
                                },
                            }
                        },
                        _ => {
                            return Err(VMError::RuntimeError);
                        },
                    }
                },
                _ => {
                    return Err(VMError::RuntimeError);
                },
            }
        }
        Ok(())
    }
}

impl VM {
    /// Runs a program to completion (or failure) and clears the instance
    /// state, so the same VM can serve another independent execution. The
    /// result is exactly what `vm_spec` gives for the fuel budget.
    pub fn run(&mut self, opcodes: &Vec<Opcode>, ip: usize, fuel: u64) -> (r: Result<
        (),
        VMError,
    >)
        ensures
            final(self).pool_view() == old(self).pool_view(),
            final(self).st() == empty_st(),
            r == vm_spec(
                old(self).pool_view(),
                opcodes@,
                old(self).st(),
                ip as int,
                fuel as nat,
            ).0,
    {
        let res = self.run_core(opcodes, ip, fuel);
        self.stack = Vec::new();
        self.variable_stack = Vec::new();
        self.local_stack = Vec::new();
        proof {
            assert(self.st().stack =~= empty_st().stack);
            assert(self.st().vars =~= empty_st().vars);
            assert(self.st().frames =~= empty_st().frames);
        }
        res
    }

    /// Like `run`, but hands back the variable bindings as they stood at
    /// completion, before the state is cleared.
    pub fn run_bindings(&mut self, opcodes: &Vec<Opcode>, ip: usize, fuel: u64) -> (r: Result<
        Vec<(String, Stack)>,
        VMError,
    >)
        ensures
            final(self).pool_view() == old(self).pool_view(),
            final(self).st() == empty_st(),
            match r {
                Ok(b) => (vm_spec(
                    old(self).pool_view(),
                    opcodes@,
                    old(self).st(),
                    ip as int,
                    fuel as nat,
                ).0 is Ok) && vars_view(b@) == vm_spec(
                    old(self).pool_view(),
                    opcodes@,
                    old(self).st(),
                    ip as int,
                    fuel as nat,
                ).1.vars,
                Err(e) => vm_spec(
                    old(self).pool_view(),
                    opcodes@,
                    old(self).st(),
                    ip as int,
                    fuel as nat,
                ).0 == Err::<(), VMError>(e),
            },
    {
        let res = self.run_core(opcodes, ip, fuel);
        let ghost full = vm_spec(
            old(self).pool_view(),
            opcodes@,
            old(self).st(),
            ip as int,
            fuel as nat,
        );
        proof {
            assert(vars_view(self.variable_stack@) == full.1.vars);
        }
        let mut bindings: Vec<(String, Stack)> = Vec::new();
        core::mem::swap(&mut bindings, &mut self.variable_stack);
        proof {
            assert(vars_view(bindings@) == full.1.vars);
        }
        self.stack = Vec::new();
        self.local_stack = Vec::new();
        proof {
            assert(self.st().stack =~= empty_st().stack);
            assert(self.st().vars =~= empty_st().vars);
            assert(self.st().frames =~= empty_st().frames);
        }
        match res {
            Ok(_) => Ok(bindings),
            Err(e) => Err(e),
        }
    }
}

/// Distinctness of the bound names of an environment.
pub open spec fn vars_keys_distinct(vars: Seq<(Seq<char>, StackV)>) -> bool {
    forall|i: int, j: int| 0 <= i < j < vars.len() ==> vars[i].0 != vars[j].0
}

/// Removing a bound name shrinks the environment by exactly one entry.
proof fn lemma_remove_len(vars: Seq<(Seq<char>, StackV)>, n: Seq<char>)
    requires
        vars_lookup(vars, n) is Some,
    ensures
        vars_remove(vars, n).len() == vars.len() - 1,
    decreases vars.len(),
{
    if vars.len() > 0 && vars[0].0 != n {
        lemma_remove_len(vars.drop_first(), n);
    }
}

/// Removing one name leaves every other name's binding untouched.
proof fn lemma_remove_preserves_other(vars: Seq<(Seq<char>, StackV)>, n: Seq<char>, m: Seq<char>)
    requires
        m != n,
    ensures
        vars_lookup(vars_remove(vars, n), m) == vars_lookup(vars, m),
    decreases vars.len(),
{
    if vars.len() > 0 {
        if vars[0].0 == n {
        } else {
            lemma_remove_preserves_other(vars.drop_first(), n, m);
            assert((seq![vars[0]] + vars_remove(vars.drop_first(), n)).drop_first()
                =~= vars_remove(vars.drop_first(), n));
        }
    }
}

/// A name bound by no entry looks up to nothing.
proof fn lemma_lookup_all_absent(vars: Seq<(Seq<char>, StackV)>, n: Seq<char>)
    requires
        forall|j: int| 0 <= j < vars.len() ==> vars[j].0 != n,
    ensures
        vars_lookup(vars, n) is None,
    decreases vars.len(),
{
    if vars.len() > 0 {
        assert(forall|j: int| 0 <= j < vars.drop_first().len() ==> vars.drop_first()[j]
            == vars[j + 1]);
        lemma_lookup_all_absent(vars.drop_first(), n);
    }
}

/// With distinct keys, a removed name is no longer bound.
proof fn lemma_remove_unbinds(vars: Seq<(Seq<char>, StackV)>, n: Seq<char>)
    requires
        vars_keys_distinct(vars),
    ensures
        vars_lookup(vars_remove(vars, n), n) is None,
    decreases vars.len(),
{
    if vars.len() > 0 {
        assert(forall|j: int| 0 <= j < vars.drop_first().len() ==> vars.drop_first()[j]
            == vars[j + 1]);
        if vars[0].0 == n {
            assert(forall|j: int| 0 <= j < vars.drop_first().len() ==> vars.drop_first()[j].0
                != n);
            lemma_lookup_all_absent(vars.drop_first(), n);
        } else {
            lemma_remove_unbinds(vars.drop_first(), n);
            assert((seq![vars[0]] + vars_remove(vars.drop_first(), n)).drop_first()
                =~= vars_remove(vars.drop_first(), n));
        }
    }
}

/// Every entry that survives a removal was an entry before it.
proof fn lemma_remove_sub(vars: Seq<(Seq<char>, StackV)>, n: Seq<char>)
    ensures
        forall|j: int| 0 <= j < vars_remove(vars, n).len() ==> exists|i: int|
            0 <= i < vars.len() && vars[i] == #[trigger] vars_remove(vars, n)[j],
    decreases vars.len(),
{
    if vars.len() > 0 {
        assert(forall|j: int| 0 <= j < vars.drop_first().len() ==> vars.drop_first()[j]
            == vars[j + 1]);
        if vars[0].0 == n {
        } else {
            lemma_remove_sub(vars.drop_first(), n);
            let r = seq![vars[0]] + vars_remove(vars.drop_first(), n);
            assert forall|j: int| 0 <= j < r.len() implies exists|i: int|
                0 <= i < vars.len() && vars[i] == #[trigger] r[j] by {
                if j == 0 {
                    assert(vars[0] == r[0]);
                } else {
                    assert(r[j] == vars_remove(vars.drop_first(), n)[j - 1]);
                }
            }
        }
    }
}

/// Removal keeps the keys distinct.
proof fn lemma_remove_keeps_distinct(vars: Seq<(Seq<char>, StackV)>, n: Seq<char>)
    requires
        vars_keys_distinct(vars),
    ensures
        vars_keys_distinct(vars_remove(vars, n)),
    decreases vars.len(),
{
    if vars.len() > 0 {
        assert(forall|j: int| 0 <= j < vars.drop_first().len() ==> vars.drop_first()[j]
            == vars[j + 1]);
        if vars[0].0 == n {
        } else {
            lemma_remove_keeps_distinct(vars.drop_first(), n);
            lemma_remove_sub(vars.drop_first(), n);
            let r = seq![vars[0]] + vars_remove(vars.drop_first(), n);
            assert forall|i: int, j: int| 0 <= i < j < r.len() implies r[i].0 != r[j].0 by {
                if i == 0 {
                    assert(exists|k: int| 0 <= k < vars.drop_first().len()
                        && vars.drop_first()[k] == r[j]);
                } else {
                    assert(r[i] == vars_remove(vars.drop_first(), n)[i - 1]);
                    assert(r[j] == vars_remove(vars.drop_first(), n)[j - 1]);
                }
            }
        }
    }
}

/// A name unbound before one removal stays unbound through it.
proof fn lemma_remove_absent_lookup(vars: Seq<(Seq<char>, StackV)>, r: Seq<char>, n: Seq<char>)
    requires
        vars_lookup(vars, n) is None,
    ensures
        vars_lookup(vars_remove(vars, r), n) is None,
    decreases vars.len(),
{
    if vars.len() > 0 {
        if vars[0].0 == r {
        } else {
            lemma_remove_absent_lookup(vars.drop_first(), r, n);
            assert((seq![vars[0]] + vars_remove(vars.drop_first(), r)).drop_first()
                =~= vars_remove(vars.drop_first(), r));
        }
    }
}

/// A name unbound before a cleanup stays unbound through it.
proof fn lemma_removed_stays_removed(
    vars: Seq<(Seq<char>, StackV)>,
    names: Seq<Seq<char>>,
    i: int,
    n: Seq<char>,
)
    requires
        vars_lookup(vars, n) is None,
    ensures
        vars_lookup(vars_remove_all(vars, names, i), n) is None,
    decreases names.len() - i,
{
    if 0 <= i < names.len() {
        lemma_remove_absent_lookup(vars, names[i], n);
        lemma_removed_stays_removed(vars_remove(vars, names[i]), names, i + 1, n);
    }
}

/// Scope cleanup shrinks the environment by exactly the frame's size: with
/// distinct environment keys and a frame of distinct names that are all
/// bound, removing the frame's names unbinds each of them and removes
/// nothing else.
pub proof fn lemma_scope_cleanup_count(
    vars: Seq<(Seq<char>, StackV)>,
    names: Seq<Seq<char>>,
    i: int,
)
    requires
        0 <= i <= names.len(),
        vars_keys_distinct(vars),
        forall|j: int| i <= j < names.len() ==> vars_lookup(vars, #[trigger] names[j]) is Some,
        forall|j: int, k: int| i <= j < k < names.len() ==> names[j] != names[k],
    ensures
        vars_remove_all(vars, names, i).len() == vars.len() - (names.len() - i),
        vars_keys_distinct(vars_remove_all(vars, names, i)),
        forall|j: int| i <= j < names.len() ==> vars_lookup(
            vars_remove_all(vars, names, i),
            #[trigger] names[j],
        ) is None,
    decreases names.len() - i,
{
    if i < names.len() {
        let v2 = vars_remove(vars, names[i]);
        lemma_remove_len(vars, names[i]);
        lemma_remove_keeps_distinct(vars, names[i]);
        lemma_remove_unbinds(vars, names[i]);
        assert forall|j: int| i + 1 <= j < names.len() implies vars_lookup(
            v2,
            #[trigger] names[j],
        ) is Some by {
            lemma_remove_preserves_other(vars, names[i], names[j]);
        }
        lemma_scope_cleanup_count(v2, names, i + 1);
        assert forall|j: int| i <= j < names.len() implies vars_lookup(
            vars_remove_all(vars, names, i),
            #[trigger] names[j],
        ) is None by {
            if j == i {
                lemma_removed_stays_removed(v2, names, i + 1, names[i]);
            }
        }
    }
}

/// The scope brackets leave the operand stack alone: a `Begin` only pushes
/// an empty frame, and an `End` only unbinds the top frame's names and pops
/// the frame — the operand-stack depth after the bracket equals the depth
/// before it.
pub proof fn lemma_scope_brackets_preserve_stack(
    pool: Seq<ValV>,
    code: Seq<Opcode>,
    st: VmSt,
    ip: int,
    fuel: nat,
)
    requires
        0 <= ip < code.len(),
        fuel > 0,
        code[ip] is Begin || code[ip] is End,
    ensures
        code[ip] is Begin ==> vm_spec(pool, code, st, ip, fuel) == vm_spec(
            pool,
            code,
            (VmSt {
                stack: st.stack,
                vars: st.vars,
                frames: st.frames.push(Seq::empty()),
            }),
            ip + 1,
            (fuel - 1) as nat,
        ),
        code[ip] is End && st.frames.len() > 0 ==> vm_spec(pool, code, st, ip, fuel) == vm_spec(
            pool,
            code,
            (VmSt {
                stack: st.stack,
                vars: vars_remove_all(st.vars, st.frames.last(), 0),
                frames: st.frames.drop_last(),
            }),
            ip + 1,
            (fuel - 1) as nat,
        ),
{
}

} // verus!
