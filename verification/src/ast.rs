//! The checked AST that the lowering pass consumes, and the data types of the
//! surface language with their machine sizes.

use vstd::prelude::*;
use crate::value::Value;
use crate::token_type::TokenType;

verus! {

/// A surface-language data type. `Suu` is the language's name for a double.
#[derive(Debug, PartialEq, Eq, Structural, Clone, Copy)]
pub enum DataType {
    Char,
    Short,
    Int,
    Long,
    Float,
    Suu,
    Void,
    Unknown,
}

/// Size in bytes of each data type, as laid out in a stack frame.
pub open spec fn size_spec(d: DataType) -> u32 {
    match d {
        DataType::Char => 1,
        DataType::Short => 2,
        DataType::Int => 4,
        DataType::Float => 4,
        DataType::Long => 8,
        DataType::Suu => 8,
        DataType::Void => 0,
        DataType::Unknown => 0,
    }
}

impl DataType {
    /// Size in bytes; `Void` and `Unknown` have no layout and report 0.
    pub fn size(&self) -> (r: u32)
        ensures
            r == size_spec(*self),
    {
        match self {
            DataType::Char => 1,
            DataType::Short => 2,
            DataType::Int | DataType::Float => 4,
            DataType::Long | DataType::Suu => 8,
            _ => 0,
        }
    }
}

/// The header of a function declaration: its name, parameters in declaration
/// order, and optional return type.
#[derive(Debug)]
#[allow(non_camel_case_types)]
pub struct Func_Header {
    pub name: String,
    pub args: Vec<(DataType, String)>,
    pub return_type: Option<DataType>,
    pub is_ptr_dt: bool,
}

/// A node of the checked AST handed to the core by the external type checker.
#[derive(Debug)]
pub enum Expr {
    /// Binary expression: left operand, operator token, right operand.
    Binary(Box<Expr>, TokenType, Box<Expr>),
    Literal(Value),
    Unary(TokenType, Box<Expr>),
    Grouping(Box<Expr>),
    Identifier(String),
    Var(String),
    Statement(Box<Expr>),
    Block(Vec<Expr>),
    Assign(String, Box<Expr>),
    /// Condition, then-branch, else-branch (`None` when absent).
    IfStmt(Box<Expr>, Box<Expr>, Box<Expr>),
    WhileStmt(Box<Expr>, Box<Expr>),
    FuncStmt(Func_Header, Box<Expr>),
    Callee(Box<Expr>, Vec<Expr>),
    /// Declaration: data type, is-pointer, is-constant, name, initializer.
    VarDecl(DataType, bool, bool, String, Option<Box<Expr>>),
    Return(Option<Box<Expr>>),
    Extern(Func_Header),
    Empty,
}

/// The constant an expression reduces to at lowering time: literals reduce
/// to their value, everything else to `Null`.
pub open spec fn to_value_spec(e: Expr) -> Value {
    match e {
        Expr::Literal(v) => v,
        _ => Value::Null,
    }
}

impl Expr {
    /// The constant a literal node reduces to; every other shape reduces to
    /// `Null`. Call and return arguments rely on this, which is why they are
    /// restricted to literal operands.
    pub fn to_value(&self) -> (r: Value)
        ensures
            r == to_value_spec(*self),
    {
        match self {
            Expr::Literal(v) => v.dup(),
            _ => Value::Null,
        }
    }
}

} // verus!
