//! The IR builder: assembles a flat instruction sequence from fragments,
//! hoisting string literals into the constant pool (as `LoadConstant`
//! references) and leaving scalar literals inline.
//!
//! The interning policy is deliberate and locked in: every string constant
//! appends a fresh pool entry; nothing is deduplicated.

use vstd::prelude::*;
use crate::opcode::{ConstantPool, Opcode};
use crate::value::{Value, ValV};

verus! {

/// The finished IR: one flat instruction vector.
#[derive(Debug)]
pub struct Ir {
    pub instr: Vec<Opcode>,
}

/// What interning the opcodes `ops[i..]` does to an instruction stream that
/// already holds `out` and a pool that already holds `pool`: string
/// constants move to the pool and become `LoadConstant` of the index just
/// written; every other opcode is kept as it is.
pub open spec fn intern_from(
    ops: Seq<Opcode>,
    i: int,
    out: Seq<Opcode>,
    pool: Seq<ValV>,
) -> (Seq<Opcode>, Seq<ValV>)
    decreases ops.len() - i,
{
    if i < 0 || i >= ops.len() {
        (out, pool)
    } else {
        match ops[i] {
            Opcode::Constant(v) => {
                if v@ is Str {
                    intern_from(
                        ops,
                        i + 1,
                        out.push(Opcode::LoadConstant(pool.len() as usize)),
                        pool.push(v@),
                    )
                } else {
                    intern_from(ops, i + 1, out.push(ops[i]), pool)
                }
            },
            _ => intern_from(ops, i + 1, out.push(ops[i]), pool),
        }
    }
}

/// Accumulates instruction fragments and the constant pool they intern
/// their string literals into.
pub struct IrBuilder {
    instr: Vec<Opcode>,
    c_pool: ConstantPool,
}

impl IrBuilder {
    pub fn new() -> (r: IrBuilder)
        ensures
            r.instr_view() == Seq::<Opcode>::empty(),
            r.pool_view() == Seq::<ValV>::empty(),
    {
        IrBuilder { instr: Vec::new(), c_pool: ConstantPool::new() }
    }

    /// A copy of the pool as interned so far.
    pub fn get_const_pool(&self) -> (r: ConstantPool)
        ensures
            r@ == self.pool_view(),
    {
        self.c_pool.dup()
    }

    /// The pool as interned so far.
    pub closed spec fn pool_view(&self) -> Seq<ValV> {
        self.c_pool@
    }

    /// The instruction stream assembled so far.
    pub closed spec fn instr_view(&self) -> Seq<Opcode> {
        self.instr@
    }

    /// Appends one fragment, interning its string constants: exactly
    /// `intern_from` applied to the fragment on top of the current state.
    pub fn append_from_vec(self, v: &Vec<Opcode>) -> (r: IrBuilder)
        ensures
            (r.instr_view(), r.pool_view()) == intern_from(
                v@,
                0,
                self.instr_view(),
                self.pool_view(),
            ),
    {
        let IrBuilder { mut instr, mut c_pool } = self;
        let ghost ops = v@;
        let mut i: usize = 0;
        let n = v.len();
        while i < n
            invariant
                n == ops.len(),
                i <= n,
                v@ == ops,
                intern_from(ops, 0, self.instr@, self.c_pool@) == intern_from(
                    ops,
                    i as int,
                    instr@,
                    c_pool@,
                ),
            decreases n - i,
        {
            let op = &v[i];
            match op {
                Opcode::Constant(val) => {
                    if matches!(val, Value::Str(_)) {
                        let idx = c_pool.append(val.dup());
                        instr.push(Opcode::LoadConstant(idx));
                    } else {
                        instr.push(op.dup());
                    }
                },
                _ => {
                    instr.push(op.dup());
                },
            }
            i = i + 1;
        }
        IrBuilder { instr, c_pool }
    }

    pub fn build(self) -> (r: Ir)
        ensures
            r.instr@ == self.instr_view(),
    {
        Ir { instr: self.instr }
    }
}

/// Drives lowering and interning over a whole program: each top-level
/// expression is lowered (with the in-block flag clear) and its fragment
/// appended to one builder.
pub struct Ast2Ir {
    pub expr: Vec<crate::ast::Expr>,
    pub const_pool: ConstantPool,
}

/// What lowering and interning the expressions `es[i..]` yields on top of an
/// instruction stream and pool, or `None` as soon as one expression does not
/// lower.
pub open spec fn to_ir_from(
    es: Seq<crate::ast::Expr>,
    i: int,
    out: Seq<Opcode>,
    pool: Seq<ValV>,
) -> Option<(Seq<Opcode>, Seq<ValV>)>
    decreases es.len() - i,
{
    if i < 0 || i >= es.len() {
        Some((out, pool))
    } else {
        match crate::lower::lower_spec(es[i], false) {
            Some(f) => {
                let (out2, pool2) = intern_from(f, 0, out, pool);
                to_ir_from(es, i + 1, out2, pool2)
            },
            None => None,
        }
    }
}

impl Ast2Ir {
    pub fn new(vect: Vec<crate::ast::Expr>) -> (r: Ast2Ir)
        ensures
            r.expr_view() == vect@,
            r.const_pool@ == Seq::<ValV>::empty(),
    {
        Ast2Ir { expr: vect, const_pool: ConstantPool::new() }
    }

    /// The program this pass was created over.
    pub open spec fn expr_view(&self) -> Seq<crate::ast::Expr> {
        self.expr@
    }

    /// Lowers the whole program to IR, leaving the interned pool on `self`.
    pub fn to_ir(&mut self) -> (r: Result<Ir, crate::lower::LoweringError>)
        ensures
            match r {
                Ok(ir) => to_ir_from(old(self).expr_view(), 0, Seq::empty(), Seq::empty())
                    == Some((ir.instr@, final(self).const_pool@)),
                Err(_) => to_ir_from(old(self).expr_view(), 0, Seq::empty(), Seq::empty())
                    is None,
            },
            final(self).expr_view() == old(self).expr_view(),
    {
        let mut irb = IrBuilder::new();
        let ghost es = self.expr@;
        let mut i: usize = 0;
        let n = self.expr.len();
        while i < n
            invariant
                n == es.len(),
                i <= n,
                self.expr@ == es,
                to_ir_from(es, 0, Seq::empty(), Seq::empty()) == to_ir_from(
                    es,
                    i as int,
                    irb.instr@,
                    irb.c_pool@,
                ),
            decreases n - i,
        {
            match crate::lower::lower_expr(&self.expr[i], false) {
                Ok(frag) => {
                    irb = irb.append_from_vec(&frag);
                },
                Err(er) => {
                    return Err(er);
                },
            }
            i = i + 1;
        }
        self.const_pool = irb.get_const_pool();
        Ok(irb.build())
    }
}

/// Interning policy, locked in: interning the same string constant twice in
/// one pass appends two separate pool entries (nothing is deduplicated),
/// each `LoadConstant` gets the index just written, and both entries
/// reproduce the string bit for bit.
pub proof fn lemma_intern_same_string_twice(v: Value, out: Seq<Opcode>, pool: Seq<ValV>)
    requires
        v@ is Str,
        pool.len() + 1 < usize::MAX,
    ensures
        intern_from(seq![Opcode::Constant(v), Opcode::Constant(v)], 0, out, pool) == (
            out.push(Opcode::LoadConstant(pool.len() as usize)).push(
                Opcode::LoadConstant((pool.len() + 1) as usize),
            ),
            pool.push(v@).push(v@),
        ),
        intern_from(seq![Opcode::Constant(v), Opcode::Constant(v)], 0, out, pool).1[
            pool.len() as int
        ] == v@,
        intern_from(seq![Opcode::Constant(v), Opcode::Constant(v)], 0, out, pool).1[
            pool.len() as int + 1
        ] == v@,
{
    reveal_with_fuel(intern_from, 4);
    let ops = seq![Opcode::Constant(v), Opcode::Constant(v)];
    assert(ops[0] == Opcode::Constant(v));
    assert(ops[1] == Opcode::Constant(v));
    assert(intern_from(ops, 2, out.push(Opcode::LoadConstant(pool.len() as usize)).push(
        Opcode::LoadConstant((pool.len() + 1) as usize),
    ), pool.push(v@).push(v@)) == (
        out.push(Opcode::LoadConstant(pool.len() as usize)).push(
            Opcode::LoadConstant((pool.len() + 1) as usize),
        ),
        pool.push(v@).push(v@),
    ));
    assert(intern_from(ops, 0, out, pool).1 == pool.push(v@).push(v@));
    assert(pool.push(v@)[pool.len() as int] == v@);
    assert(pool.push(v@).push(v@)[pool.len() as int] == v@);
    assert(pool.push(v@).push(v@)[pool.len() as int + 1] == v@);
}

/// Whether an opcode is a string constant, the kind the builder interns.
pub open spec fn is_str_const(op: Opcode) -> bool {
    match op {
        Opcode::Constant(v) => v@ is Str,
        _ => false,
    }
}

/// The value a constant opcode carries.
pub open spec fn const_view(op: Opcode) -> ValV {
    match op {
        Opcode::Constant(v) => v@,
        _ => ValV::Null,
    }
}

/// How many string constants stand before position `i`.
pub open spec fn str_const_count(ops: Seq<Opcode>, i: int) -> int
    decreases i,
{
    if i <= 0 {
        0
    } else {
        str_const_count(ops, i - 1) + (if is_str_const(ops[i - 1]) {
            1int
        } else {
            0int
        })
    }
}

/// The count never decreases, and passing a string constant raises it.
proof fn lemma_str_const_count_mono(ops: Seq<Opcode>, i: int, j: int)
    requires
        i <= j,
    ensures
        str_const_count(ops, i) <= str_const_count(ops, j),
    decreases j - i,
{
    if i < j {
        lemma_str_const_count_mono(ops, i, j - 1);
    }
}

/// The shape of a whole interning pass, at any position: the instruction
/// stream and pool already accumulated pass through unchanged; every
/// remaining opcode contributes exactly one output opcode, in order; a
/// string constant becomes `LoadConstant` of the pool index just written
/// (the prior pool length plus the string constants already interned), and
/// that pool entry is the constant's value; every other opcode is kept as
/// it is.
#[verifier::rlimit(100)]
#[verifier::spinoff_prover]
pub proof fn lemma_intern_structure(ops: Seq<Opcode>, i: int, out: Seq<Opcode>, pool: Seq<ValV>)
    requires
        0 <= i <= ops.len(),
    ensures
        intern_from(ops, i, out, pool).0.len() == out.len() + (ops.len() - i),
        intern_from(ops, i, out, pool).1.len() == pool.len() + str_const_count(ops, ops.len() as int)
            - str_const_count(ops, i),
        forall|j: int| 0 <= j < out.len() ==> intern_from(ops, i, out, pool).0[j] == out[j],
        forall|j: int| 0 <= j < pool.len() ==> intern_from(ops, i, out, pool).1[j] == pool[j],
        forall|j: int| i <= j < ops.len() ==> intern_from(ops, i, out, pool).0[out.len() + j - i]
            == (if is_str_const(ops[j]) {
                Opcode::LoadConstant(
                    ((pool.len() + str_const_count(ops, j) - str_const_count(ops, i)) as usize),
                )
            } else {
                ops[j]
            }),
        forall|j: int| i <= j < ops.len() && is_str_const(ops[j]) ==> intern_from(
            ops,
            i,
            out,
            pool,
        ).1[pool.len() + str_const_count(ops, j) - str_const_count(ops, i)] == const_view(ops[j]),
    decreases ops.len() - i,
{
    lemma_str_const_count_mono(ops, i, ops.len() as int);
    if i < ops.len() {
        let (o, p) = intern_from(ops, i, out, pool);
        if is_str_const(ops[i]) {
            let out2 = out.push(Opcode::LoadConstant(pool.len() as usize));
            let pool2 = pool.push(const_view(ops[i]));
            assert(intern_from(ops, i, out, pool) == intern_from(ops, i + 1, out2, pool2));
            lemma_intern_structure(ops, i + 1, out2, pool2);
            assert(str_const_count(ops, i + 1) == str_const_count(ops, i) + 1);
            assert forall|j: int| 0 <= j < out.len() implies o[j] == out[j] by {
                assert(o[j] == out2[j]);
            }
            assert forall|j: int| 0 <= j < pool.len() implies p[j] == pool[j] by {
                assert(p[j] == pool2[j]);
            }
            assert forall|j: int| i <= j < ops.len() implies o[out.len() + j - i] == (
            if is_str_const(ops[j]) {
                Opcode::LoadConstant(
                    ((pool.len() + str_const_count(ops, j) - str_const_count(ops, i)) as usize),
                )
            } else {
                ops[j]
            }) by {
                if j == i {
                    assert(o[out.len() as int] == out2[out.len() as int]);
                } else {
                    lemma_str_const_count_mono(ops, i + 1, j);
                    assert(o[out2.len() + j - (i + 1)] == o[out.len() + j - i]);
                }
            }
            assert forall|j: int| i <= j < ops.len() && is_str_const(ops[j]) implies p[pool.len()
                + str_const_count(ops, j) - str_const_count(ops, i)] == const_view(ops[j]) by {
                if j == i {
                    assert(p[pool.len() as int] == pool2[pool.len() as int]);
                }
            }
        } else {
            let out2 = out.push(ops[i]);
            assert(intern_from(ops, i, out, pool) == intern_from(ops, i + 1, out2, pool));
            lemma_intern_structure(ops, i + 1, out2, pool);
            assert(str_const_count(ops, i + 1) == str_const_count(ops, i));
            assert forall|j: int| 0 <= j < out.len() implies o[j] == out[j] by {
                assert(o[j] == out2[j]);
            }
            assert forall|j: int| i <= j < ops.len() implies o[out.len() + j - i] == (
            if is_str_const(ops[j]) {
                Opcode::LoadConstant(
                    ((pool.len() + str_const_count(ops, j) - str_const_count(ops, i)) as usize),
                )
            } else {
                ops[j]
            }) by {
                if j == i {
                    assert(o[out.len() as int] == out2[out.len() as int]);
                } else {
                    assert(o[out2.len() + j - (i + 1)] == o[out.len() + j - i]);
                }
            }
        }
    }
}

/// Interning the same string constant at any two positions of one pass
/// appends two separate pool entries under two distinct indices, both
/// reproducing the string; nothing is deduplicated, wherever the constants
/// stand.
pub proof fn lemma_intern_same_string_any_positions(
    ops: Seq<Opcode>,
    p1: int,
    p2: int,
    out: Seq<Opcode>,
    pool: Seq<ValV>,
)
    requires
        0 <= p1 < p2 < ops.len(),
        is_str_const(ops[p1]),
        is_str_const(ops[p2]),
        const_view(ops[p1]) == const_view(ops[p2]),
        pool.len() + str_const_count(ops, p2) <= usize::MAX,
    ensures
        intern_from(ops, 0, out, pool).0[out.len() + p1] == Opcode::LoadConstant(
            ((pool.len() + str_const_count(ops, p1)) as usize),
        ),
        intern_from(ops, 0, out, pool).0[out.len() + p2] == Opcode::LoadConstant(
            ((pool.len() + str_const_count(ops, p2)) as usize),
        ),
        pool.len() + str_const_count(ops, p1) < pool.len() + str_const_count(ops, p2),
        intern_from(ops, 0, out, pool).1[pool.len() + str_const_count(ops, p1)] == const_view(
            ops[p1],
        ),
        intern_from(ops, 0, out, pool).1[pool.len() + str_const_count(ops, p2)] == const_view(
            ops[p2],
        ),
{
    lemma_intern_structure(ops, 0, out, pool);
    assert(str_const_count(ops, p1 + 1) == str_const_count(ops, p1) + 1);
    lemma_str_const_count_mono(ops, p1 + 1, p2);
    lemma_str_const_count_mono(ops, 0, p1);
}

} // verus!
