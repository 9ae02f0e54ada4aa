//! AST-to-IR lowering: a pure function from checked AST nodes to flat
//! instruction fragments, composed positionally so branch and loop offsets
//! come out of fragment lengths.
//!
//! `lower_spec` is the definition; `lower_expr` is the executable pass,
//! proved to return exactly what the definition says, and to fail exactly on
//! the shapes the definition does not cover.

use vstd::prelude::*;
use crate::ast::{DataType, Expr, to_value_spec};
use crate::opcode::Opcode;
use crate::token_type::TokenType;
use crate::value::Value;

verus! {

broadcast use vstd::std_specs::vec::axiom_vec_index_decreases;

/// AST shape not recognized by any lowering rule, or a fragment too large to
/// address. Fatal: compilation aborts before either backend runs.
#[derive(Debug, PartialEq, Eq, Structural, Clone, Copy)]
pub enum LoweringError {
    UnsupportedConstruct,
}

/// The callee name of a call target, where it has one.
pub open spec fn callee_name_spec(e: Expr) -> Option<String> {
    match e {
        Expr::Identifier(s) => Some(s),
        Expr::Var(s) => Some(s),
        _ => None,
    }
}

/// One `StoreParam` per parameter, in declaration order.
pub open spec fn params_of(args: Seq<(DataType, String)>) -> Seq<Opcode>
    decreases args.len(),
{
    if args.len() == 0 {
        Seq::empty()
    } else {
        params_of(args.drop_last()).push(
            Opcode::StoreParam(args.last().0, args.last().1),
        )
    }
}

/// One `StoreArg` per call argument, in left-to-right order.
pub open spec fn args_of(args: Seq<Expr>) -> Seq<Opcode>
    decreases args.len(),
{
    if args.len() == 0 {
        Seq::empty()
    } else {
        args_of(args.drop_last()).push(Opcode::StoreArg(to_value_spec(args.last())))
    }
}

/// Whether a lowered function body respects its declared return type: with a
/// return type, the second-to-last opcode of the body must be a
/// value-carrying `Return`; without one, it must not be a `Return` at all.
pub open spec fn body_return_ok(body: Seq<Opcode>, return_type: Option<DataType>) -> bool {
    match return_type {
        Some(_) => body.len() >= 2 && (body[body.len() - 2] matches Opcode::Return(Some(_))),
        None => !(body.len() >= 2 && (body[body.len() - 2] matches Opcode::Return(_))),
    }
}

/// The fragment an expression lowers to, or `None` for a shape outside the
/// lowering rules (including a fragment whose jump offsets would not fit the
/// machine word). `in_block` is the lexical flag that picks `StoreLocal`
/// over `StoreGlobal` for declarations: it is set inside any block, at any
/// depth.
pub open spec fn lower_spec(e: Expr, in_block: bool) -> Option<Seq<Opcode>>
    decreases e,
{
    match e {
        Expr::Statement(st) => lower_spec(*st, in_block),
        Expr::Grouping(g) => lower_spec(*g, in_block),
        Expr::Literal(v) => Some(seq![Opcode::Constant(v)]),
        Expr::Var(n) => Some(seq![Opcode::LoadName(n)]),
        Expr::Binary(lhs, op, rhs) => {
            match (lower_spec(*lhs, in_block), lower_spec(*rhs, in_block)) {
                (Some(l), Some(r)) => Some(l + r + seq![Opcode::BinOp(op)]),
                _ => None,
            }
        },
        Expr::Unary(op, rhs) => {
            match lower_spec(*rhs, in_block) {
                Some(r) => match op {
                    TokenType::Minus => Some(r.push(Opcode::Neg)),
                    TokenType::Not => Some(r.push(Opcode::Not)),
                    _ => None,
                },
                None => None,
            }
        },
        Expr::VarDecl(d, is_p, _c, n, init) => {
            let store = if in_block {
                Opcode::StoreLocal(d, is_p, n)
            } else {
                Opcode::StoreGlobal(d, is_p, n)
            };
            match init {
                Some(iv) => match lower_spec(*iv, in_block) {
                    Some(f) => Some(f.push(store)),
                    None => None,
                },
                None => Some(seq![store]),
            }
        },
        Expr::Assign(n, v) => {
            match lower_spec(*v, in_block) {
                Some(f) => Some(f.push(Opcode::Agn(n))),
                None => None,
            }
        },
        Expr::Block(bl) => {
            match lower_items(bl, bl.len() as int) {
                Some(f) => Some(seq![Opcode::Begin] + f + seq![Opcode::End]),
                None => None,
            }
        },
        Expr::IfStmt(cond, then, els) => {
            match (lower_spec(*cond, in_block), lower_spec(*then, in_block)) {
                (Some(c), Some(t)) => {
                    if *els is Empty {
                        if t.len() <= usize::MAX {
                            Some(c + seq![Opcode::JIfFalse(t.len() as usize)] + t)
                        } else {
                            None
                        }
                    } else {
                        match lower_spec(*els, in_block) {
                            Some(el) => if t.len() + 1 <= usize::MAX && el.len() <= usize::MAX {
                                Some(
                                    c + seq![Opcode::JIfFalse((t.len() + 1) as usize)] + t
                                        + seq![Opcode::Jmp(el.len() as usize)] + el,
                                )
                            } else {
                                None
                            },
                            None => None,
                        }
                    }
                },
                _ => None,
            }
        },
        Expr::WhileStmt(cond, body) => {
            match (lower_spec(*cond, in_block), lower_spec(*body, in_block)) {
                (Some(c), Some(b)) => {
                    if b.len() + c.len() + 2 <= usize::MAX {
                        Some(
                            c + seq![Opcode::JIfFalse((b.len() + 1) as usize)] + b
                                + seq![Opcode::JBackward((b.len() + c.len() + 2) as usize)],
                        )
                    } else {
                        None
                    }
                },
                _ => None,
            }
        },
        Expr::FuncStmt(header, body) => {
            match lower_spec(*body, in_block) {
                Some(fb) => {
                    let ps = params_of(header.args@);
                    let trap: Seq<Opcode> = if body_return_ok(fb, header.return_type) {
                        Seq::empty()
                    } else {
                        seq![Opcode::Invalid]
                    };
                    let span = ps.len() + fb.len() + trap.len();
                    if span <= usize::MAX {
                        Some(
                            seq![Opcode::MakeFunc(span as usize, header.name)] + ps + fb + trap
                                + seq![Opcode::EndFunc],
                        )
                    } else {
                        None
                    }
                },
                None => None,
            }
        },
        Expr::Callee(n, args) => {
            match callee_name_spec(*n) {
                Some(name) => Some(args_of(args@).push(Opcode::Call(name))),
                None => None,
            }
        },
        Expr::Return(val) => {
            match val {
                Some(v) => Some(seq![Opcode::Return(Some(to_value_spec(*v)))]),
                None => Some(seq![Opcode::Return(None)]),
            }
        },
        _ => None,
    }
}

/// The concatenation of the lowered forms of the first `i` statements of a
/// block body (all lowered with the in-block flag set).
pub open spec fn lower_items(bl: Vec<Expr>, i: int) -> Option<Seq<Opcode>>
    decreases bl, i,
{
    if i <= 0 {
        Some(Seq::empty())
    } else if i > bl.len() {
        None
    } else {
        match (lower_items(bl, i - 1), lower_spec(bl[i - 1], true)) {
            (Some(acc), Some(f)) => Some(acc + f),
            _ => None,
        }
    }
}

/// Once one statement of a block fails to lower, the whole block body does.
proof fn lemma_lower_items_none(bl: Vec<Expr>, i: int, j: int)
    requires
        0 <= i <= j,
        lower_items(bl, i) is None,
    ensures
        lower_items(bl, j) is None,
    decreases j - i,
{
    if j > i {
        lemma_lower_items_none(bl, i, j - 1);
    }
}

impl Expr {
    /// The callee name of a call target: identifiers and variable references
    /// have one; anything else is not a valid callee.
    pub fn ident_to_string(&self) -> (r: Option<String>)
        ensures
            r == callee_name_spec(*self),
    {
        match self {
            Expr::Identifier(s) => Some(s.clone()),
            Expr::Var(s) => Some(s.clone()),
            _ => None,
        }
    }
}

/// The length of the parameter-store fragment equals the parameter count.
pub proof fn lemma_params_of_len(args: Seq<(DataType, String)>)
    ensures
        params_of(args).len() == args.len(),
    decreases args.len(),
{
    if args.len() > 0 {
        lemma_params_of_len(args.drop_last());
    }
}

/// Lowers one expression to its instruction fragment, exactly as
/// `lower_spec` defines it; fails exactly on the shapes the rules do not
/// cover.
pub fn lower_expr(e: &Expr, in_block: bool) -> (r: Result<Vec<Opcode>, LoweringError>)
    ensures
        match r {
            Ok(v) => lower_spec(*e, in_block) == Some(v@),
            Err(_) => lower_spec(*e, in_block) is None,
        },
    decreases *e, 1int,
{
    match e {
        Expr::Statement(st) => lower_expr(st, in_block),
        Expr::Grouping(g) => lower_expr(g, in_block),
        Expr::Literal(v) => {
            let mut out: Vec<Opcode> = Vec::new();
            out.push(Opcode::Constant(v.dup()));
            proof {
                assert(out@ =~= seq![Opcode::Constant(*v)]);
            }
            Ok(out)
        },
        Expr::Var(n) => {
            let mut out: Vec<Opcode> = Vec::new();
            out.push(Opcode::LoadName(n.clone()));
            proof {
                assert(out@ =~= seq![Opcode::LoadName(*n)]);
            }
            Ok(out)
        },
        Expr::Binary(lhs, op, rhs) => {
            let mut l = match lower_expr(lhs, in_block) {
                Ok(v) => v,
                Err(er) => {
                    return Err(er);
                },
            };
            let mut rv = match lower_expr(rhs, in_block) {
                Ok(v) => v,
                Err(er) => {
                    return Err(er);
                },
            };
            let ghost lv = l@;
            let ghost rvv = rv@;
            l.append(&mut rv);
            l.push(Opcode::BinOp(*op));
            proof {
                assert(l@ =~= lv + rvv + seq![Opcode::BinOp(*op)]);
            }
            Ok(l)
        },
        Expr::Unary(op, rhs) => {
            let mut rv = match lower_expr(rhs, in_block) {
                Ok(v) => v,
                Err(er) => {
                    return Err(er);
                },
            };
            match op {
                TokenType::Minus => {
                    rv.push(Opcode::Neg);
                    Ok(rv)
                },
                TokenType::Not => {
                    rv.push(Opcode::Not);
                    Ok(rv)
                },
                _ => Err(LoweringError::UnsupportedConstruct),
            }
        },
        Expr::VarDecl(d, is_p, _c, n, init) => {
            let store = if in_block {
                Opcode::StoreLocal(*d, *is_p, n.clone())
            } else {
                Opcode::StoreGlobal(*d, *is_p, n.clone())
            };
            match init {
                Some(iv) => {
                    let mut f = match lower_expr(iv, in_block) {
                        Ok(v) => v,
                        Err(er) => {
                            return Err(er);
                        },
                    };
                    f.push(store);
                    Ok(f)
                },
                None => {
                    let mut out: Vec<Opcode> = Vec::new();
                    out.push(store);
                    proof {
                        assert(out@ =~= lower_spec(*e, in_block)->Some_0);
                    }
                    Ok(out)
                },
            }
        },
        Expr::Assign(n, v) => {
            let mut f = match lower_expr(v, in_block) {
                Ok(fv) => fv,
                Err(er) => {
                    return Err(er);
                },
            };
            f.push(Opcode::Agn(n.clone()));
            Ok(f)
        },
        Expr::Block(_) => lower_block(e, in_block),
        Expr::IfStmt(_, _, _) => lower_if(e, in_block),
        Expr::WhileStmt(_, _) => lower_while(e, in_block),
        Expr::FuncStmt(_, _) => lower_func(e, in_block),
        Expr::Callee(n, args) => {
            let name = match n.ident_to_string() {
                Some(s) => s,
                None => {
                    return Err(LoweringError::UnsupportedConstruct);
                },
            };
            let mut out: Vec<Opcode> = Vec::new();
            let mut k: usize = 0;
            while k < args.len()
                invariant
                    k <= args@.len(),
                    out@ == args_of(args@.take(k as int)),
                decreases args@.len() - k,
            {
                let ghost prev = out@;
                out.push(Opcode::StoreArg(args[k].to_value()));
                proof {
                    let a = args@;
                    assert(a.take(k as int + 1).drop_last() =~= a.take(k as int));
                    assert(a.take(k as int + 1).last() == a[k as int]);
                    assert(out@ =~= prev.push(Opcode::StoreArg(to_value_spec(a[k as int]))));
                }
                k = k + 1;
            }
            proof {
                assert(args@.take(args@.len() as int) =~= args@);
            }
            out.push(Opcode::Call(name));
            Ok(out)
        },
        Expr::Return(val) => {
            let mut out: Vec<Opcode> = Vec::new();
            match val {
                Some(v) => {
                    out.push(Opcode::Return(Some(v.to_value())));
                    proof {
                        assert(out@ =~= seq![Opcode::Return(Some(to_value_spec(**v)))]);
                    }
                },
                None => {
                    out.push(Opcode::Return(None));
                    proof {
                        assert(out@ =~= seq![Opcode::Return(None::<Value>)]);
                    }
                },
            }
            Ok(out)
        },
        _ => Err(LoweringError::UnsupportedConstruct),
    }
}

/// The `Block` rule: a `Begin`/`End` bracket around the statements, each
/// lowered with the in-block flag set.
fn lower_block(e: &Expr, in_block: bool) -> (r: Result<Vec<Opcode>, LoweringError>)
    requires
        *e is Block,
    ensures
        match r {
            Ok(v) => lower_spec(*e, in_block) == Some(v@),
            Err(_) => lower_spec(*e, in_block) is None,
        },
    decreases *e, 0int,
{
    match e {
        Expr::Block(bl) => {
            let mut out: Vec<Opcode> = Vec::new();
            out.push(Opcode::Begin);
            let mut i: usize = 0;
            let n = bl.len();
            while i < n
                invariant
                    *e is Block,
                    *e == Expr::Block(*bl),
                    n == bl@.len(),
                    i <= n,
                    out@.len() >= 1,
                    out@[0] == Opcode::Begin,
                    lower_items(*bl, i as int) == Some(out@.skip(1)),
                decreases n - i,
            {
                proof {
                    vstd::std_specs::vec::axiom_vec_index_decreases(*bl, i as int);
                }
                match lower_expr(&bl[i], true) {
                    Ok(mut f) => {
                        let ghost prev = out@;
                        let ghost fv = f@;
                        out.append(&mut f);
                        proof {
                            assert(out@.skip(1) =~= prev.skip(1) + fv);
                        }
                    },
                    Err(er) => {
                        proof {
                            lemma_lower_items_none(*bl, i as int + 1, bl@.len() as int);
                        }
                        return Err(er);
                    },
                }
                i = i + 1;
            }
            let ghost items = lower_items(*bl, bl@.len() as int)->Some_0;
            out.push(Opcode::End);
            proof {
                assert(out@ =~= seq![Opcode::Begin] + items + seq![Opcode::End]);
            }
            Ok(out)
        },
        _ => Err(LoweringError::UnsupportedConstruct),
    }
}

/// The `If` rule: condition, a `JIfFalse` over the then-fragment (plus the
/// `Jmp` that skips an else-fragment when one is present), then the
/// fragments themselves.
fn lower_if(e: &Expr, in_block: bool) -> (r: Result<Vec<Opcode>, LoweringError>)
    requires
        *e is IfStmt,
    ensures
        match r {
            Ok(v) => lower_spec(*e, in_block) == Some(v@),
            Err(_) => lower_spec(*e, in_block) is None,
        },
    decreases *e, 0int,
{
    match e {
        Expr::IfStmt(cond, then, els) => {
            let mut c = match lower_expr(cond, in_block) {
                Ok(v) => v,
                Err(er) => {
                    return Err(er);
                },
            };
            let mut t = match lower_expr(then, in_block) {
                Ok(v) => v,
                Err(er) => {
                    return Err(er);
                },
            };
            if matches!(**els, Expr::Empty) {
                let ghost cv = c@;
                let ghost tv = t@;
                c.push(Opcode::JIfFalse(t.len()));
                c.append(&mut t);
                proof {
                    assert(c@ =~= cv + seq![Opcode::JIfFalse(tv.len() as usize)] + tv);
                }
                Ok(c)
            } else {
                let mut el = match lower_expr(els, in_block) {
                    Ok(v) => v,
                    Err(er) => {
                        return Err(er);
                    },
                };
                let then_len = t.len();
                if then_len == usize::MAX {
                    return Err(LoweringError::UnsupportedConstruct);
                }
                let el_len = el.len();
                let ghost cv = c@;
                let ghost tv = t@;
                let ghost ev = el@;
                c.push(Opcode::JIfFalse(then_len + 1));
                c.append(&mut t);
                c.push(Opcode::Jmp(el_len));
                c.append(&mut el);
                proof {
                    assert(c@ =~= cv + seq![Opcode::JIfFalse((tv.len() + 1) as usize)] + tv
                        + seq![Opcode::Jmp(ev.len() as usize)] + ev);
                }
                Ok(c)
            }
        },
        _ => Err(LoweringError::UnsupportedConstruct),
    }
}

/// The `While` rule: condition, a `JIfFalse` over body plus back-jump, the
/// body, and a `JBackward` whose offset spans body, condition and both jump
/// instructions.
fn lower_while(e: &Expr, in_block: bool) -> (r: Result<Vec<Opcode>, LoweringError>)
    requires
        *e is WhileStmt,
    ensures
        match r {
            Ok(v) => lower_spec(*e, in_block) == Some(v@),
            Err(_) => lower_spec(*e, in_block) is None,
        },
    decreases *e, 0int,
{
    match e {
        Expr::WhileStmt(cond, body) => {
            let mut c = match lower_expr(cond, in_block) {
                Ok(v) => v,
                Err(er) => {
                    return Err(er);
                },
            };
            let mut b = match lower_expr(body, in_block) {
                Ok(v) => v,
                Err(er) => {
                    return Err(er);
                },
            };
            let c_len = c.len();
            let b_len = b.len();
            if b_len >= usize::MAX - 1 || c_len > usize::MAX - 2 - b_len {
                return Err(LoweringError::UnsupportedConstruct);
            }
            let ghost cv = c@;
            let ghost bv = b@;
            c.push(Opcode::JIfFalse(b_len + 1));
            c.append(&mut b);
            c.push(Opcode::JBackward(b_len + c_len + 2));
            proof {
                assert(c@ =~= cv + seq![Opcode::JIfFalse((bv.len() + 1) as usize)] + bv
                    + seq![Opcode::JBackward((bv.len() + cv.len() + 2) as usize)]);
            }
            Ok(c)
        },
        _ => Err(LoweringError::UnsupportedConstruct),
    }
}

/// The `FuncStmt` rule: a `MakeFunc` span holding the parameter stores, the
/// body, and a trap opcode when the body disagrees with the declared return
/// type, closed by `EndFunc`.
#[verifier::rlimit(60)]
fn lower_func(e: &Expr, in_block: bool) -> (r: Result<Vec<Opcode>, LoweringError>)
    requires
        *e is FuncStmt,
    ensures
        match r {
            Ok(v) => lower_spec(*e, in_block) == Some(v@),
            Err(_) => lower_spec(*e, in_block) is None,
        },
    decreases *e, 0int,
{
    match e {
        Expr::FuncStmt(header, body) => {
            let mut fb = match lower_expr(body, in_block) {
                Ok(v) => v,
                Err(er) => {
                    return Err(er);
                },
            };
            proof {
                lemma_params_of_len(header.args@);
            }
            let trap = !body_return_matches(&fb, &header.return_type);
            let fb_len = fb.len();
            let trap_len: usize = if trap {
                1
            } else {
                0
            };
            let rem = usize::MAX - fb_len;
            if trap_len > rem {
                return Err(LoweringError::UnsupportedConstruct);
            }
            if header.args.len() > rem - trap_len {
                return Err(LoweringError::UnsupportedConstruct);
            }
            let span = header.args.len() + fb_len + trap_len;
            let mut out: Vec<Opcode> = Vec::new();
            out.push(Opcode::MakeFunc(span, header.name.clone()));
            let mut k: usize = 0;
            while k < header.args.len()
                invariant
                    *e is FuncStmt,
                    k <= header.args@.len(),
                    out@.len() == 1 + k,
                    out@[0] == Opcode::MakeFunc(span, header.name),
                    out@.skip(1) == params_of(header.args@.take(k as int)),
                decreases header.args@.len() - k,
            {
                let (d, pn) = &header.args[k];
                let ghost prev = out@;
                out.push(Opcode::StoreParam(*d, pn.clone()));
                proof {
                    let a = header.args@;
                    assert(a.take(k as int + 1).drop_last() =~= a.take(k as int));
                    assert(a.take(k as int + 1).last() == a[k as int]);
                    assert(out@.skip(1) =~= prev.skip(1).push(Opcode::StoreParam(*d, *pn)));
                }
                k = k + 1;
            }
            proof {
                assert(header.args@.take(header.args@.len() as int) =~= header.args@);
            }
            let ghost fbv = fb@;
            out.append(&mut fb);
            if trap {
                out.push(Opcode::Invalid);
            }
            out.push(Opcode::EndFunc);
            proof {
                let ps = params_of(header.args@);
                let trap_seq: Seq<Opcode> = if body_return_ok(fbv, header.return_type) {
                    Seq::empty()
                } else {
                    seq![Opcode::Invalid]
                };
                assert(out@ =~= seq![Opcode::MakeFunc(span as usize, header.name)] + ps + fbv
                    + trap_seq + seq![Opcode::EndFunc]);
            }
            Ok(out)
        },
        _ => Err(LoweringError::UnsupportedConstruct),
    }
}

/// Executable check of `body_return_ok`.
fn body_return_matches(body: &Vec<Opcode>, return_type: &Option<DataType>) -> (r: bool)
    ensures
        r == body_return_ok(body@, *return_type),
{
    let has_tail_return_some = body.len() >= 2 && matches!(
        body[body.len() - 2],
        Opcode::Return(Some(_)),
    );
    let has_tail_return = body.len() >= 2 && matches!(body[body.len() - 2], Opcode::Return(_));
    match return_type {
        Some(_) => has_tail_return_some,
        None => !has_tail_return,
    }
}


/// Jump arithmetic of a lowered loop: for a condition fragment of length
/// `c` and a body fragment of length `b`, the lowered form is exactly the
/// condition, a conditional forward jump over `b + 1` opcodes, the body,
/// and a backward jump of `b + c + 2` opcodes — the body, the condition,
/// and the two jump instructions themselves.
pub proof fn lemma_while_jump_arithmetic(e: Expr, in_block: bool, c: Seq<Opcode>, b: Seq<Opcode>)
    requires
        e is WhileStmt,
        lower_spec(*e->WhileStmt_0, in_block) == Some(c),
        lower_spec(*e->WhileStmt_1, in_block) == Some(b),
        b.len() + c.len() + 2 <= usize::MAX,
    ensures
        lower_spec(e, in_block) == Some(
            c + seq![Opcode::JIfFalse((b.len() + 1) as usize)] + b + seq![
                Opcode::JBackward((b.len() + c.len() + 2) as usize),
            ],
        ),
        lower_spec(e, in_block)->Some_0.last() == Opcode::JBackward(
            ((b.len() + c.len() + 2) as usize),
        ),
{
}

} // verus!
