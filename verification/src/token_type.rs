//! The token vocabulary of the surface language. The IR core only consumes
//! the operator tokens (they ride on `BinOp` opcodes), but the full set is
//! kept so the external lexer and parser can share it.

use vstd::prelude::*;

verus! {

#[derive(Debug, PartialEq, Eq, Structural, Clone, Copy)]
pub enum TokenType {
    Identifier,
    Keywords,
    DataType,
    Number,
    Macro,
    String,
    Plus,
    Minus,
    Star,
    Slash,
    LeftParen,
    RightParen,
    LeftBrace,
    RightBrace,
    LeftBracket,
    RightBracket,
    Modulo,
    Equal,
    Semicolon,
    And,
    Or,
    Not,
    Comma,
    NotEqual,
    EqualEqual,
    Less,
    LessEqual,
    Greater,
    GreaterEqual,
    ShiftLeft,
    ShiftRight,
    AndBool,
    OrBool,
    NewLine,
    EOF,
}

} // verus!
