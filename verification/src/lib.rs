//! Core of a small-language compiler toolchain: the linear IR (opcodes and a
//! constant pool), the AST-to-IR lowering pass, the stack-machine interpreter
//! that executes the IR directly, and the native code generator that turns the
//! same IR into machine instructions with a calling convention and stack-frame
//! layout.

pub mod value;
pub mod token_type;
pub mod ast;
pub mod opcode;
pub mod lower;
pub mod ir;
pub mod vm;
pub mod machinstr;
pub mod codegen;
pub mod emit;
pub mod message;
pub mod data_section;
pub mod escape;
