use dcz::ast::{DataType, Expr};
use dcz::ir::Ast2Ir;
use dcz::opcode::{ConstantPool, Opcode};
use dcz::token_type::TokenType;
use dcz::value::Value;
use dcz::vm::{Stack, VM, VMError};

const FUEL: u64 = 100_000;

fn binding<'a>(bindings: &'a [(String, Stack)], name: &str) -> Option<&'a Stack> {
    bindings.iter().find(|(n, _)| n == name).map(|(_, s)| s)
}

fn num(v: i64) -> Expr {
    Expr::Literal(Value::Number(v))
}

fn var(n: &str) -> Expr {
    Expr::Var(n.to_string())
}

/// `int a = 2; int b = 3; a = a + b;` ends with `a` bound to 5, and a
/// reused VM instance gives 5 again.
#[test]
fn end_to_end_interpreter_sum() {
    let program = vec![
        Expr::VarDecl(DataType::Int, false, false, "a".to_string(), Some(Box::new(num(2)))),
        Expr::VarDecl(DataType::Int, false, false, "b".to_string(), Some(Box::new(num(3)))),
        Expr::Assign(
            "a".to_string(),
            Box::new(Expr::Binary(Box::new(var("a")), TokenType::Plus, Box::new(var("b")))),
        ),
    ];
    let mut pass = Ast2Ir::new(program);
    let ir = pass.to_ir().unwrap();
    let mut vm = VM::new(pass.const_pool.dup());
    for _ in 0..2 {
        let bindings = vm.run_bindings(&ir.instr, 0, FUEL).unwrap();
        match binding(&bindings, "a") {
            Some(Stack::Value(Value::Number(5))) => {},
            other => panic!("expected a bound to 5, got {:?}", other),
        }
    }
}

/// A block's `End` unbinds exactly the block's locals; outer bindings stay.
#[test]
fn scope_end_removes_block_locals() {
    let program = vec![
        Expr::VarDecl(DataType::Int, false, false, "g".to_string(), Some(Box::new(num(7)))),
        Expr::Block(vec![
            Expr::VarDecl(DataType::Int, false, false, "x".to_string(), Some(Box::new(num(1)))),
            Expr::VarDecl(DataType::Int, false, false, "y".to_string(), Some(Box::new(num(2)))),
        ]),
    ];
    let mut pass = Ast2Ir::new(program);
    let ir = pass.to_ir().unwrap();
    let mut vm = VM::new(pass.const_pool.dup());
    let bindings = vm.run_bindings(&ir.instr, 0, FUEL).unwrap();
    assert_eq!(bindings.len(), 1);
    assert!(matches!(binding(&bindings, "g"), Some(Stack::Value(Value::Number(7)))));
    assert!(binding(&bindings, "x").is_none());
    assert!(binding(&bindings, "y").is_none());
}

/// A lowered while loop terminates and leaves the expected final binding.
#[test]
fn while_loop_runs_to_final_binding() {
    let cond = Expr::Binary(Box::new(var("i")), TokenType::Less, Box::new(num(3)));
    let body = Expr::Assign(
        "i".to_string(),
        Box::new(Expr::Binary(Box::new(var("i")), TokenType::Plus, Box::new(num(1)))),
    );
    let program = vec![
        Expr::VarDecl(DataType::Int, false, false, "i".to_string(), Some(Box::new(num(0)))),
        Expr::WhileStmt(Box::new(cond), Box::new(body)),
    ];
    let mut pass = Ast2Ir::new(program);
    let ir = pass.to_ir().unwrap();
    let mut vm = VM::new(pass.const_pool.dup());
    let bindings = vm.run_bindings(&ir.instr, 0, FUEL).unwrap();
    assert!(matches!(binding(&bindings, "i"), Some(Stack::Value(Value::Number(3)))));
}

/// String constants round-trip bit for bit through the pool, and two
/// internments of the same string make two entries.
#[test]
fn string_constants_intern_without_dedup_and_round_trip() {
    let program = vec![
        Expr::VarDecl(
            DataType::Long,
            false,
            false,
            "s".to_string(),
            Some(Box::new(Expr::Literal(Value::Str("Hello World".to_string())))),
        ),
        Expr::VarDecl(
            DataType::Long,
            false,
            false,
            "t".to_string(),
            Some(Box::new(Expr::Literal(Value::Str("Hello World".to_string())))),
        ),
    ];
    let mut pass = Ast2Ir::new(program);
    let ir = pass.to_ir().unwrap();
    assert_eq!(pass.const_pool.len(), 2, "no deduplication");
    assert!(matches!(&ir.instr[0], Opcode::LoadConstant(0)));
    assert!(matches!(&ir.instr[2], Opcode::LoadConstant(1)));
    assert!(matches!(pass.const_pool.get(0), Value::Str(s) if s == "Hello World"));
    assert!(matches!(pass.const_pool.get(1), Value::Str(s) if s == "Hello World"));
    let mut vm = VM::new(pass.const_pool.dup());
    let bindings = vm.run_bindings(&ir.instr, 0, FUEL).unwrap();
    assert!(
        matches!(binding(&bindings, "s"), Some(Stack::Value(Value::Str(s))) if s == "Hello World")
    );
}

/// A captured function runs in a fresh environment: its bindings do not
/// leak into the caller's.
#[test]
fn call_runs_captured_function_in_fresh_state() {
    let ops = vec![
        Opcode::MakeFunc(2, "f".to_string()),
        Opcode::Constant(Value::Number(7)),
        Opcode::StoreGlobal(DataType::Int, false, "x".to_string()),
        Opcode::EndFunc,
        Opcode::Call("f".to_string()),
    ];
    let mut vm = VM::new(ConstantPool::new());
    let bindings = vm.run_bindings(&ops, 0, FUEL).unwrap();
    assert!(bindings.is_empty(), "callee bindings must not leak");
}

#[test]
fn mismatched_operand_kinds_are_runtime_errors() {
    let ops = vec![
        Opcode::Constant(Value::Number(1)),
        Opcode::Constant(Value::Boolean(true)),
        Opcode::BinOp(TokenType::Plus),
    ];
    let mut vm = VM::new(ConstantPool::new());
    assert_eq!(vm.run(&ops, 0, FUEL).unwrap_err(), VMError::RuntimeError);
}

#[test]
fn division_by_zero_is_a_runtime_error() {
    let ops = vec![
        Opcode::Constant(Value::Number(1)),
        Opcode::Constant(Value::Number(0)),
        Opcode::BinOp(TokenType::Slash),
    ];
    let mut vm = VM::new(ConstantPool::new());
    assert_eq!(vm.run(&ops, 0, FUEL).unwrap_err(), VMError::RuntimeError);
}

#[test]
fn missing_name_and_empty_stack_are_runtime_errors() {
    let mut vm = VM::new(ConstantPool::new());
    let load = vec![Opcode::LoadName("nope".to_string())];
    assert_eq!(vm.run(&load, 0, FUEL).unwrap_err(), VMError::RuntimeError);
    let pop = vec![Opcode::Neg];
    assert_eq!(vm.run(&pop, 0, FUEL).unwrap_err(), VMError::RuntimeError);
}

#[test]
fn exhausted_fuel_reports_runtime_error() {
    // An infinite loop: jump back to yourself forever.
    let ops = vec![Opcode::Nop, Opcode::JBackward(1)];
    let mut vm = VM::new(ConstantPool::new());
    assert_eq!(vm.run(&ops, 0, 1_000).unwrap_err(), VMError::RuntimeError);
}

#[test]
fn jump_if_false_coerces_integers() {
    // 0 is false: jump over the assignment; leaves no binding for "a".
    let ops = vec![
        Opcode::Constant(Value::Number(0)),
        Opcode::JIfFalse(2),
        Opcode::Constant(Value::Number(1)),
        Opcode::StoreGlobal(DataType::Int, false, "a".to_string()),
        Opcode::Nop,
    ];
    let mut vm = VM::new(ConstantPool::new());
    let bindings = vm.run_bindings(&ops, 0, FUEL).unwrap();
    assert!(bindings.is_empty());
}

#[test]
fn store_rebind_keeps_first_binding() {
    // First writer wins: a second store of the same name changes nothing.
    let ops = vec![
        Opcode::Constant(Value::Number(1)),
        Opcode::StoreGlobal(DataType::Int, false, "a".to_string()),
        Opcode::Constant(Value::Number(2)),
        Opcode::StoreGlobal(DataType::Int, false, "a".to_string()),
    ];
    let mut vm = VM::new(ConstantPool::new());
    let bindings = vm.run_bindings(&ops, 0, FUEL).unwrap();
    assert_eq!(bindings.len(), 1);
    assert!(matches!(binding(&bindings, "a"), Some(Stack::Value(Value::Number(1)))));
}

#[test]
fn jump_if_false_falls_through_on_true() {
    let ops = vec![
        Opcode::Constant(Value::Number(1)),
        Opcode::JIfFalse(2),
        Opcode::Constant(Value::Number(9)),
        Opcode::StoreGlobal(DataType::Int, false, "a".to_string()),
    ];
    let mut vm = VM::new(ConstantPool::new());
    let bindings = vm.run_bindings(&ops, 0, FUEL).unwrap();
    assert!(matches!(binding(&bindings, "a"), Some(Stack::Value(Value::Number(9)))));
}

#[test]
fn assignment_of_unbound_name_is_a_runtime_error() {
    let ops = vec![
        Opcode::Constant(Value::Number(1)),
        Opcode::Agn("ghostly".to_string()),
    ];
    let mut vm = VM::new(ConstantPool::new());
    assert_eq!(vm.run(&ops, 0, FUEL).unwrap_err(), VMError::RuntimeError);
}
