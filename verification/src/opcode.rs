//! The IR instruction vocabulary and the constant pool.
//!
//! One flat instruction stream is produced by lowering and consumed by both
//! backends. Jump offsets are counted in opcodes, exclude the jump itself,
//! and are relative to the instruction pointer after the jump. A
//! `MakeFunc(n, _)` is always followed by exactly `n` opcodes belonging to
//! that function (its parameter stores and body), then `EndFunc`; both
//! backends skip or recurse over exactly that span.

use vstd::prelude::*;
use crate::value::{Value, ValV};
use crate::ast::DataType;
use crate::token_type::TokenType;

verus! {

/// One IR instruction.
#[derive(Debug)]
pub enum Opcode {
    /// Unreachable marker: a deliberate trap for ill-formed function bodies.
    Invalid,
    /// Return from a function, optionally with a constant value.
    Return(Option<Value>),
    /// Push the pool entry at the given index.
    LoadConstant(usize),
    /// Push an inline scalar constant.
    Constant(Value),
    Not,
    Neg,
    /// Bind a top-level name: data type, is-pointer, name.
    StoreGlobal(DataType, bool, String),
    /// Push the value bound to a name.
    LoadName(String),
    /// Bind a block-local name: data type, is-pointer, name.
    StoreLocal(DataType, bool, String),
    /// Bind a function parameter: data type, name.
    StoreParam(DataType, String),
    /// Stage a call argument (restricted to lowering-time constants).
    StoreArg(Value),
    /// Close the innermost scope.
    End,
    /// Open a scope.
    Begin,
    /// Apply a binary operator to the two topmost stack values.
    BinOp(TokenType),
    /// Unconditional forward jump.
    Jmp(usize),
    /// Unconditional backward jump.
    JBackward(usize),
    /// Forward jump taken when the popped value is false.
    JIfFalse(usize),
    /// Reassign an already-bound name.
    Agn(String),
    /// Begin a function span: length of the span, function name.
    MakeFunc(usize, String),
    /// Close a function span.
    EndFunc,
    /// Call a function by name.
    Call(String),
    Nop,
}

impl Opcode {
    /// A structural copy, equal to the original.
    pub fn dup(&self) -> (r: Opcode)
        ensures
            r == *self,
    {
        match self {
            Opcode::Invalid => Opcode::Invalid,
            Opcode::Return(v) => Opcode::Return(
                match v {
                    Some(v) => Some(v.dup()),
                    None => None,
                },
            ),
            Opcode::LoadConstant(i) => Opcode::LoadConstant(*i),
            Opcode::Constant(v) => Opcode::Constant(v.dup()),
            Opcode::Not => Opcode::Not,
            Opcode::Neg => Opcode::Neg,
            Opcode::StoreGlobal(d, p, n) => Opcode::StoreGlobal(*d, *p, n.clone()),
            Opcode::LoadName(n) => Opcode::LoadName(n.clone()),
            Opcode::StoreLocal(d, p, n) => Opcode::StoreLocal(*d, *p, n.clone()),
            Opcode::StoreParam(d, n) => Opcode::StoreParam(*d, n.clone()),
            Opcode::StoreArg(v) => Opcode::StoreArg(v.dup()),
            Opcode::End => Opcode::End,
            Opcode::Begin => Opcode::Begin,
            Opcode::BinOp(t) => Opcode::BinOp(*t),
            Opcode::Jmp(o) => Opcode::Jmp(*o),
            Opcode::JBackward(o) => Opcode::JBackward(*o),
            Opcode::JIfFalse(o) => Opcode::JIfFalse(*o),
            Opcode::Agn(n) => Opcode::Agn(n.clone()),
            Opcode::MakeFunc(s, n) => Opcode::MakeFunc(*s, n.clone()),
            Opcode::EndFunc => Opcode::EndFunc,
            Opcode::Call(n) => Opcode::Call(n.clone()),
            Opcode::Nop => Opcode::Nop,
        }
    }
}

/// Copy of a contiguous span of an instruction vector.
pub fn opcode_subvec(v: &Vec<Opcode>, start: usize, count: usize) -> (r: Vec<Opcode>)
    requires
        start + count <= v@.len(),
    ensures
        r@ == v@.subrange(start as int, start as int + count as int),
{
    let mut r: Vec<Opcode> = Vec::new();
    let mut i: usize = 0;
    let vl = v.len();
    while i < count
        invariant
            start + count <= vl == v@.len(),
            i <= count,
            r@ == v@.subrange(start as int, start as int + i as int),
        decreases count - i,
    {
        r.push(v[start + i].dup());
        assert(r@ =~= v@.subrange(start as int, start as int + (i + 1) as int));
        i = i + 1;
    }
    r
}

/// The dup of every element, as a new vector with the same view.
pub fn opcode_dup_vec(v: &Vec<Opcode>) -> (r: Vec<Opcode>)
    ensures
        r@ == v@,
{
    let r = opcode_subvec(v, 0, v.len());
    assert(v@.subrange(0, v@.len() as int) =~= v@);
    r
}

/// Ordered, append-only table of out-of-line constants. Only string-valued
/// constants are interned here; scalar constants stay inline in the
/// instruction stream. An index is stable once assigned.
#[derive(Debug)]
pub struct ConstantPool {
    v: Vec<Value>,
}

impl View for ConstantPool {
    type V = Seq<ValV>;

    closed spec fn view(&self) -> Seq<ValV> {
        self.v@.map(|i: int, x: Value| x@)
    }
}

impl ConstantPool {
    pub fn new() -> (r: ConstantPool)
        ensures
            r@ == Seq::<ValV>::empty(),
    {
        let r = ConstantPool { v: Vec::new() };
        assert(r@ =~= Seq::<ValV>::empty());
        r
    }

    /// Appends never fail; the index just written is returned.
    pub fn append(&mut self, v: Value) -> (idx: usize)
        ensures
            final(self)@ == old(self)@.push(v@),
            idx == old(self)@.len(),
    {
        let idx = self.v.len();
        self.v.push(v);
        assert(final(self)@ =~= old(self)@.push(v@));
        idx
    }

    /// Lookup of an assigned index. An out-of-range index is a programmer
    /// error in the emitting pass, so it is excluded up front.
    pub fn get(&self, idx: usize) -> (r: &Value)
        requires
            idx < self@.len(),
        ensures
            r@ == self@[idx as int],
    {
        &self.v[idx]
    }

    pub fn len(&self) -> (r: usize)
        ensures
            r == self@.len(),
    {
        self.v.len()
    }

    /// A structural copy with the same contents.
    pub fn dup(&self) -> (r: ConstantPool)
        ensures
            r@ == self@,
    {
        let mut nv: Vec<Value> = Vec::new();
        let mut i: usize = 0;
        while i < self.v.len()
            invariant
                i <= self.v@.len(),
                nv@.len() == i,
                forall|j: int| 0 <= j < i ==> nv@[j]@ == self.v@[j]@,
            decreases self.v@.len() - i,
        {
            nv.push(self.v[i].dup());
            i = i + 1;
        }
        let r = ConstantPool { v: nv };
        assert(r@ =~= self@);
        r
    }
}

} // verus!
