//! The scalar/string value domain shared by the lowering pass, the
//! interpreter and the native code generator.
//!
//! Arithmetic is partial: each operator is defined only for the operand kinds
//! listed in its contract, and anything else is a `ValueError`. Integer
//! arithmetic wraps at 64 bits. Float and double values are carried as their
//! raw bit patterns; no arithmetic is defined on them here.

use vstd::prelude::*;
use vstd::string::{StringExecFns, StrSliceExecFns};

verus! {

/// A runtime or compile-time constant value.
///
/// Floats and doubles are carried opaquely as IEEE-754 bit patterns: the core
/// only moves them around (into the constant pool, into stack slots), it
/// never computes with them.
#[derive(Debug)]
pub enum Value {
    Null,
    Number(i64),
    /// 32-bit float, as its raw bit pattern.
    FloatBits(u32),
    /// 64-bit float, as its raw bit pattern.
    DoubleBits(u64),
    Str(String),
    Object(String),
    Char(char),
    Boolean(bool),
}

/// Operand-kind mismatch or division by zero inside `Value` arithmetic.
/// Fatal at the point of evaluation; never recoverable inline.
#[derive(Debug, PartialEq, Eq, Structural, Clone, Copy)]
pub enum ValueError {
    TypeMismatch,
    DivisionByZero,
}

/// Mathematical image of a `Value`: strings by their character sequences.
pub enum ValV {
    Null,
    Num(i64),
    F32(u32),
    F64(u64),
    Str(Seq<char>),
    Obj(Seq<char>),
    Char(char),
    Bool(bool),
}

impl View for Value {
    type V = ValV;

    open spec fn view(&self) -> ValV {
        match self {
            Value::Null => ValV::Null,
            Value::Number(n) => ValV::Num(*n),
            Value::FloatBits(b) => ValV::F32(*b),
            Value::DoubleBits(b) => ValV::F64(*b),
            Value::Str(s) => ValV::Str(s@),
            Value::Object(s) => ValV::Obj(s@),
            Value::Char(c) => ValV::Char(*c),
            Value::Boolean(b) => ValV::Bool(*b),
        }
    }
}

impl Value {
    /// An object value carrying the given name.
    pub fn new_obj(obj_name: String) -> (r: Value)
        ensures
            r@ == ValV::Obj(obj_name@),
    {
        Value::Object(obj_name)
    }

    /// Boolean from an integer: zero is false, everything else true.
    pub fn new_boolean_from(v: i64) -> (r: Value)
        ensures
            r@ == ValV::Bool(v != 0),
    {
        if v == 0 {
            Value::Boolean(false)
        } else {
            Value::Boolean(true)
        }
    }

    /// The integer carried by a `Number`. Calling this on any other kind is a
    /// programmer error in the caller, so the kind is required up front.
    pub fn to_literal(&self) -> (r: i64)
        requires
            self@ is Num,
        ensures
            self@ == ValV::Num(r),
    {
        match self {
            Value::Number(n) => *n,
            _ => 0,
        }
    }

    /// A structural copy, equal to the original.
    pub fn dup(&self) -> (r: Value)
        ensures
            r == *self,
    {
        match self {
            Value::Null => Value::Null,
            Value::Number(n) => Value::Number(*n),
            Value::FloatBits(b) => Value::FloatBits(*b),
            Value::DoubleBits(b) => Value::DoubleBits(*b),
            Value::Str(s) => Value::Str(s.clone()),
            Value::Object(s) => Value::Object(s.clone()),
            Value::Char(c) => Value::Char(*c),
            Value::Boolean(b) => Value::Boolean(*b),
        }
    }
}

/// What addition yields: integers wrap at 64 bits, strings concatenate,
/// everything else is a kind mismatch.
pub open spec fn add_spec(a: ValV, b: ValV) -> Result<ValV, ValueError> {
    match (a, b) {
        (ValV::Num(x), ValV::Num(y)) => Ok(ValV::Num(x.wrapping_add(y))),
        (ValV::Str(x), ValV::Str(y)) => Ok(ValV::Str(x + y)),
        _ => Err(ValueError::TypeMismatch),
    }
}

pub open spec fn sub_spec(a: ValV, b: ValV) -> Result<ValV, ValueError> {
    match (a, b) {
        (ValV::Num(x), ValV::Num(y)) => Ok(ValV::Num(x.wrapping_sub(y))),
        _ => Err(ValueError::TypeMismatch),
    }
}

pub open spec fn mul_spec(a: ValV, b: ValV) -> Result<ValV, ValueError> {
    match (a, b) {
        (ValV::Num(x), ValV::Num(y)) => Ok(ValV::Num(x.wrapping_mul(y))),
        _ => Err(ValueError::TypeMismatch),
    }
}

/// Division truncates toward zero and wraps on `i64::MIN / -1`; a zero
/// divisor is an error in its own right.
pub open spec fn div_spec(a: ValV, b: ValV) -> Result<ValV, ValueError> {
    match (a, b) {
        (ValV::Num(x), ValV::Num(y)) => if y == 0 {
            Err(ValueError::DivisionByZero)
        } else {
            match x.checked_div(y) {
                Some(q) => Ok(ValV::Num(q)),
                None => Ok(ValV::Num(i64::MIN)),
            }
        },
        _ => Err(ValueError::TypeMismatch),
    }
}

/// Negation of an integer, wrapping on `i64::MIN`.
pub open spec fn neg_spec(a: ValV) -> Result<ValV, ValueError> {
    match a {
        ValV::Num(x) => Ok(ValV::Num((0i64).wrapping_sub(x))),
        _ => Err(ValueError::TypeMismatch),
    }
}

/// Logical/bitwise not on integers: 0 and 1 flip as booleans, every other
/// integer is complemented bitwise.
pub open spec fn not_spec(a: ValV) -> Result<ValV, ValueError> {
    match a {
        ValV::Num(x) => if x == 0 {
            Ok(ValV::Num(1))
        } else if x == 1 {
            Ok(ValV::Num(0))
        } else {
            Ok(ValV::Num(!x))
        },
        _ => Err(ValueError::TypeMismatch),
    }
}

/// Left shift, defined only for non-negative integers and a shift amount
/// below the word width.
pub open spec fn shl_spec(a: ValV, b: ValV) -> Result<ValV, ValueError> {
    match (a, b) {
        (ValV::Num(x), ValV::Num(y)) => if x >= 0 && 0 <= y < 64 {
            Ok(ValV::Num(x.wrapping_shl(y as u32)))
        } else {
            Err(ValueError::TypeMismatch)
        },
        _ => Err(ValueError::TypeMismatch),
    }
}

pub open spec fn shr_spec(a: ValV, b: ValV) -> Result<ValV, ValueError> {
    match (a, b) {
        (ValV::Num(x), ValV::Num(y)) => if x >= 0 && 0 <= y < 64 {
            Ok(ValV::Num(x.wrapping_shr(y as u32)))
        } else {
            Err(ValueError::TypeMismatch)
        },
        _ => Err(ValueError::TypeMismatch),
    }
}

/// Lexicographic order on character sequences, by code point; a proper
/// prefix comes first. For UTF-8 strings this coincides with byte order.
pub open spec fn seq_char_lt(a: Seq<char>, b: Seq<char>) -> bool
    decreases a.len(),
{
    if b.len() == 0 {
        false
    } else if a.len() == 0 {
        true
    } else if a[0] != b[0] {
        (a[0] as u32) < (b[0] as u32)
    } else {
        seq_char_lt(a.drop_first(), b.drop_first())
    }
}

/// Ordering comparisons are defined for matching-kind operands: integers by
/// value, strings lexicographically, characters by code point, booleans
/// with false before true. Float kinds carry opaque bit patterns and are
/// not ordered here.
pub open spec fn cmp_lt_spec(a: ValV, b: ValV) -> Result<ValV, ValueError> {
    match (a, b) {
        (ValV::Num(x), ValV::Num(y)) => Ok(ValV::Bool(x < y)),
        (ValV::Str(x), ValV::Str(y)) => Ok(ValV::Bool(seq_char_lt(x, y))),
        (ValV::Char(x), ValV::Char(y)) => Ok(ValV::Bool((x as u32) < (y as u32))),
        (ValV::Bool(x), ValV::Bool(y)) => Ok(ValV::Bool(!x && y)),
        _ => Err(ValueError::TypeMismatch),
    }
}

pub open spec fn cmp_le_spec(a: ValV, b: ValV) -> Result<ValV, ValueError> {
    match (a, b) {
        (ValV::Num(x), ValV::Num(y)) => Ok(ValV::Bool(x <= y)),
        (ValV::Str(x), ValV::Str(y)) => Ok(ValV::Bool(!seq_char_lt(y, x))),
        (ValV::Char(x), ValV::Char(y)) => Ok(ValV::Bool((x as u32) <= (y as u32))),
        (ValV::Bool(x), ValV::Bool(y)) => Ok(ValV::Bool(!x || y)),
        _ => Err(ValueError::TypeMismatch),
    }
}

pub open spec fn cmp_gt_spec(a: ValV, b: ValV) -> Result<ValV, ValueError> {
    match (a, b) {
        (ValV::Num(x), ValV::Num(y)) => Ok(ValV::Bool(x > y)),
        (ValV::Str(x), ValV::Str(y)) => Ok(ValV::Bool(seq_char_lt(y, x))),
        (ValV::Char(x), ValV::Char(y)) => Ok(ValV::Bool((x as u32) > (y as u32))),
        (ValV::Bool(x), ValV::Bool(y)) => Ok(ValV::Bool(x && !y)),
        _ => Err(ValueError::TypeMismatch),
    }
}

pub open spec fn cmp_ge_spec(a: ValV, b: ValV) -> Result<ValV, ValueError> {
    match (a, b) {
        (ValV::Num(x), ValV::Num(y)) => Ok(ValV::Bool(x >= y)),
        (ValV::Str(x), ValV::Str(y)) => Ok(ValV::Bool(!seq_char_lt(x, y))),
        (ValV::Char(x), ValV::Char(y)) => Ok(ValV::Bool((x as u32) >= (y as u32))),
        (ValV::Bool(x), ValV::Bool(y)) => Ok(ValV::Bool(x || !y)),
        _ => Err(ValueError::TypeMismatch),
    }
}

/// A scan that found only equal characters before position `i` can go on
/// from `i`: the order is decided by the rest.
proof fn lemma_seq_char_lt_skip(a: Seq<char>, b: Seq<char>, i: int)
    requires
        0 <= i <= a.len(),
        i <= b.len(),
        forall|j: int| 0 <= j < i ==> a[j] == b[j],
    ensures
        seq_char_lt(a, b) == seq_char_lt(a.skip(i), b.skip(i)),
    decreases i,
{
    if i > 0 {
        assert(a[0] == b[0]);
        lemma_seq_char_lt_skip(a.drop_first(), b.drop_first(), i - 1);
        assert(a.drop_first().skip(i - 1) =~= a.skip(i));
        assert(b.drop_first().skip(i - 1) =~= b.skip(i));
    } else {
        assert(a.skip(0) =~= a);
        assert(b.skip(0) =~= b);
    }
}

/// Executable lexicographic comparison of two strings.
fn str_lt(a: &String, b: &String) -> (r: bool)
    ensures
        r == seq_char_lt(a@, b@),
{
    let sa = a.as_str();
    let sb = b.as_str();
    let la = sa.unicode_len();
    let lb = sb.unicode_len();
    let mut i: usize = 0;
    while i < la && i < lb
        invariant
            la == a@.len(),
            lb == b@.len(),
            sa@ == a@,
            sb@ == b@,
            i <= la,
            i <= lb,
            forall|j: int| 0 <= j < i ==> a@[j] == b@[j],
        decreases la - i,
    {
        let ca = sa.get_char(i);
        let cb = sb.get_char(i);
        if ca != cb {
            proof {
                lemma_seq_char_lt_skip(a@, b@, i as int);
                assert(a@.skip(i as int)[0] == a@[i as int]);
                assert(b@.skip(i as int)[0] == b@[i as int]);
            }
            return (ca as u32) < (cb as u32);
        }
        i = i + 1;
    }
    proof {
        lemma_seq_char_lt_skip(a@, b@, i as int);
    }
    la < lb
}

/// Equality is defined for same-kind scalar and string operands.
pub open spec fn cmp_eq_spec(a: ValV, b: ValV) -> Result<ValV, ValueError> {
    match (a, b) {
        (ValV::Num(x), ValV::Num(y)) => Ok(ValV::Bool(x == y)),
        (ValV::Str(x), ValV::Str(y)) => Ok(ValV::Bool(x == y)),
        (ValV::Char(x), ValV::Char(y)) => Ok(ValV::Bool(x == y)),
        (ValV::Bool(x), ValV::Bool(y)) => Ok(ValV::Bool(x == y)),
        (ValV::Null, ValV::Null) => Ok(ValV::Bool(true)),
        _ => Err(ValueError::TypeMismatch),
    }
}

pub open spec fn cmp_ne_spec(a: ValV, b: ValV) -> Result<ValV, ValueError> {
    match cmp_eq_spec(a, b) {
        Ok(ValV::Bool(e)) => Ok(ValV::Bool(!e)),
        r => r,
    }
}

impl Value {
    /// Addition per `add_spec`: integers wrap, strings concatenate.
    pub fn add(self, rhs: Value) -> (r: Result<Value, ValueError>)
        ensures
            match r {
                Ok(v) => add_spec(self@, rhs@) == Ok::<ValV, ValueError>(v@),
                Err(e) => add_spec(self@, rhs@) == Err::<ValV, ValueError>(e),
            },
    {
        match (self, rhs) {
            (Value::Number(x), Value::Number(y)) => Ok(Value::Number(x.wrapping_add(y))),
            (Value::Str(x), Value::Str(y)) => Ok(Value::Str(x.concat(y.as_str()))),
            _ => Err(ValueError::TypeMismatch),
        }
    }

    pub fn sub(self, rhs: Value) -> (r: Result<Value, ValueError>)
        ensures
            match r {
                Ok(v) => sub_spec(self@, rhs@) == Ok::<ValV, ValueError>(v@),
                Err(e) => sub_spec(self@, rhs@) == Err::<ValV, ValueError>(e),
            },
    {
        match (self, rhs) {
            (Value::Number(x), Value::Number(y)) => Ok(Value::Number(x.wrapping_sub(y))),
            _ => Err(ValueError::TypeMismatch),
        }
    }

    pub fn mul(self, rhs: Value) -> (r: Result<Value, ValueError>)
        ensures
            match r {
                Ok(v) => mul_spec(self@, rhs@) == Ok::<ValV, ValueError>(v@),
                Err(e) => mul_spec(self@, rhs@) == Err::<ValV, ValueError>(e),
            },
    {
        match (self, rhs) {
            (Value::Number(x), Value::Number(y)) => Ok(Value::Number(x.wrapping_mul(y))),
            _ => Err(ValueError::TypeMismatch),
        }
    }

    pub fn div(self, rhs: Value) -> (r: Result<Value, ValueError>)
        ensures
            match r {
                Ok(v) => div_spec(self@, rhs@) == Ok::<ValV, ValueError>(v@),
                Err(e) => div_spec(self@, rhs@) == Err::<ValV, ValueError>(e),
            },
    {
        match (self, rhs) {
            (Value::Number(x), Value::Number(y)) => {
                if y == 0 {
                    Err(ValueError::DivisionByZero)
                } else {
                    match x.checked_div(y) {
                        Some(q) => Ok(Value::Number(q)),
                        None => Ok(Value::Number(i64::MIN)),
                    }
                }
            },
            _ => Err(ValueError::TypeMismatch),
        }
    }

    pub fn neg(self) -> (r: Result<Value, ValueError>)
        ensures
            match r {
                Ok(v) => neg_spec(self@) == Ok::<ValV, ValueError>(v@),
                Err(e) => neg_spec(self@) == Err::<ValV, ValueError>(e),
            },
    {
        match self {
            Value::Number(x) => Ok(Value::Number((0i64).wrapping_sub(x))),
            _ => Err(ValueError::TypeMismatch),
        }
    }

    pub fn not(self) -> (r: Result<Value, ValueError>)
        ensures
            match r {
                Ok(v) => not_spec(self@) == Ok::<ValV, ValueError>(v@),
                Err(e) => not_spec(self@) == Err::<ValV, ValueError>(e),
            },
    {
        match self {
            Value::Number(x) => {
                if x == 0 {
                    Ok(Value::Number(1))
                } else if x == 1 {
                    Ok(Value::Number(0))
                } else {
                    Ok(Value::Number(!x))
                }
            },
            _ => Err(ValueError::TypeMismatch),
        }
    }

    pub fn shl(self, rhs: Value) -> (r: Result<Value, ValueError>)
        ensures
            match r {
                Ok(v) => shl_spec(self@, rhs@) == Ok::<ValV, ValueError>(v@),
                Err(e) => shl_spec(self@, rhs@) == Err::<ValV, ValueError>(e),
            },
    {
        match (self, rhs) {
            (Value::Number(x), Value::Number(y)) => {
                if x >= 0 && 0 <= y && y < 64 {
                    Ok(Value::Number(x.wrapping_shl(y as u32)))
                } else {
                    Err(ValueError::TypeMismatch)
                }
            },
            _ => Err(ValueError::TypeMismatch),
        }
    }

    pub fn shr(self, rhs: Value) -> (r: Result<Value, ValueError>)
        ensures
            match r {
                Ok(v) => shr_spec(self@, rhs@) == Ok::<ValV, ValueError>(v@),
                Err(e) => shr_spec(self@, rhs@) == Err::<ValV, ValueError>(e),
            },
    {
        match (self, rhs) {
            (Value::Number(x), Value::Number(y)) => {
                if x >= 0 && 0 <= y && y < 64 {
                    Ok(Value::Number(x.wrapping_shr(y as u32)))
                } else {
                    Err(ValueError::TypeMismatch)
                }
            },
            _ => Err(ValueError::TypeMismatch),
        }
    }

    pub fn lt(self, rhs: Value) -> (r: Result<Value, ValueError>)
        ensures
            match r {
                Ok(v) => cmp_lt_spec(self@, rhs@) == Ok::<ValV, ValueError>(v@),
                Err(e) => cmp_lt_spec(self@, rhs@) == Err::<ValV, ValueError>(e),
            },
    {
        match (self, rhs) {
            (Value::Number(x), Value::Number(y)) => Ok(Value::Boolean(x < y)),
            (Value::Str(x), Value::Str(y)) => Ok(Value::Boolean(str_lt(&x, &y))),
            (Value::Char(x), Value::Char(y)) => Ok(Value::Boolean((x as u32) < (y as u32))),
            (Value::Boolean(x), Value::Boolean(y)) => Ok(Value::Boolean(!x && y)),
            _ => Err(ValueError::TypeMismatch),
        }
    }

    pub fn le(self, rhs: Value) -> (r: Result<Value, ValueError>)
        ensures
            match r {
                Ok(v) => cmp_le_spec(self@, rhs@) == Ok::<ValV, ValueError>(v@),
                Err(e) => cmp_le_spec(self@, rhs@) == Err::<ValV, ValueError>(e),
            },
    {
        match (self, rhs) {
            (Value::Number(x), Value::Number(y)) => Ok(Value::Boolean(x <= y)),
            (Value::Str(x), Value::Str(y)) => Ok(Value::Boolean(!str_lt(&y, &x))),
            (Value::Char(x), Value::Char(y)) => Ok(Value::Boolean((x as u32) <= (y as u32))),
            (Value::Boolean(x), Value::Boolean(y)) => Ok(Value::Boolean(!x || y)),
            _ => Err(ValueError::TypeMismatch),
        }
    }

    pub fn gt(self, rhs: Value) -> (r: Result<Value, ValueError>)
        ensures
            match r {
                Ok(v) => cmp_gt_spec(self@, rhs@) == Ok::<ValV, ValueError>(v@),
                Err(e) => cmp_gt_spec(self@, rhs@) == Err::<ValV, ValueError>(e),
            },
    {
        match (self, rhs) {
            (Value::Number(x), Value::Number(y)) => Ok(Value::Boolean(x > y)),
            (Value::Str(x), Value::Str(y)) => Ok(Value::Boolean(str_lt(&y, &x))),
            (Value::Char(x), Value::Char(y)) => Ok(Value::Boolean((x as u32) > (y as u32))),
            (Value::Boolean(x), Value::Boolean(y)) => Ok(Value::Boolean(x && !y)),
            _ => Err(ValueError::TypeMismatch),
        }
    }

    pub fn ge(self, rhs: Value) -> (r: Result<Value, ValueError>)
        ensures
            match r {
                Ok(v) => cmp_ge_spec(self@, rhs@) == Ok::<ValV, ValueError>(v@),
                Err(e) => cmp_ge_spec(self@, rhs@) == Err::<ValV, ValueError>(e),
            },
    {
        match (self, rhs) {
            (Value::Number(x), Value::Number(y)) => Ok(Value::Boolean(x >= y)),
            (Value::Str(x), Value::Str(y)) => Ok(Value::Boolean(!str_lt(&x, &y))),
            (Value::Char(x), Value::Char(y)) => Ok(Value::Boolean((x as u32) >= (y as u32))),
            (Value::Boolean(x), Value::Boolean(y)) => Ok(Value::Boolean(x || !y)),
            _ => Err(ValueError::TypeMismatch),
        }
    }

    pub fn eq_value(self, rhs: Value) -> (r: Result<Value, ValueError>)
        ensures
            match r {
                Ok(v) => cmp_eq_spec(self@, rhs@) == Ok::<ValV, ValueError>(v@),
                Err(e) => cmp_eq_spec(self@, rhs@) == Err::<ValV, ValueError>(e),
            },
    {
        match (self, rhs) {
            (Value::Number(x), Value::Number(y)) => Ok(Value::Boolean(x == y)),
            (Value::Str(x), Value::Str(y)) => Ok(Value::Boolean(x == y)),
            (Value::Char(x), Value::Char(y)) => Ok(Value::Boolean(x == y)),
            (Value::Boolean(x), Value::Boolean(y)) => Ok(Value::Boolean(x == y)),
            (Value::Null, Value::Null) => Ok(Value::Boolean(true)),
            _ => Err(ValueError::TypeMismatch),
        }
    }

    pub fn ne_value(self, rhs: Value) -> (r: Result<Value, ValueError>)
        ensures
            match r {
                Ok(v) => cmp_ne_spec(self@, rhs@) == Ok::<ValV, ValueError>(v@),
                Err(e) => cmp_ne_spec(self@, rhs@) == Err::<ValV, ValueError>(e),
            },
    {
        match self.eq_value(rhs) {
            Ok(Value::Boolean(e)) => Ok(Value::Boolean(!e)),
            Ok(v) => Ok(v),
            Err(e) => Err(e),
        }
    }
}

} // verus!
