use dcz::ast::{DataType, Expr, Func_Header};
use dcz::lower::{lower_expr, LoweringError};
use dcz::opcode::Opcode;
use dcz::token_type::TokenType;
use dcz::value::Value;

fn var(n: &str) -> Expr {
    Expr::Var(n.to_string())
}

fn num(v: i64) -> Expr {
    Expr::Literal(Value::Number(v))
}

#[test]
fn literal_lowers_to_inline_constant() {
    let ops = lower_expr(&num(5), false).unwrap();
    assert_eq!(ops.len(), 1);
    assert!(matches!(&ops[0], Opcode::Constant(Value::Number(5))));
}

#[test]
fn binary_lowers_left_then_right_then_operator() {
    let e = Expr::Binary(Box::new(var("a")), TokenType::Plus, Box::new(num(1)));
    let ops = lower_expr(&e, false).unwrap();
    assert_eq!(ops.len(), 3);
    assert!(matches!(&ops[0], Opcode::LoadName(n) if n == "a"));
    assert!(matches!(&ops[1], Opcode::Constant(Value::Number(1))));
    assert!(matches!(&ops[2], Opcode::BinOp(TokenType::Plus)));
}

#[test]
fn while_backward_jump_spans_body_cond_and_both_jumps() {
    // cond: a < 10 (3 opcodes); body: a = a + 1 (4 opcodes)
    let cond = Expr::Binary(Box::new(var("a")), TokenType::Less, Box::new(num(10)));
    let body = Expr::Assign("a".to_string(), Box::new(
        Expr::Binary(Box::new(var("a")), TokenType::Plus, Box::new(num(1))),
    ));
    let e = Expr::WhileStmt(Box::new(cond), Box::new(body));
    let ops = lower_expr(&e, false).unwrap();
    assert_eq!(ops.len(), 3 + 1 + 4 + 1);
    assert!(matches!(&ops[3], Opcode::JIfFalse(5)), "skip = body + 1");
    assert!(matches!(&ops[8], Opcode::JBackward(9)), "back = body + cond + 2");
}

#[test]
fn if_without_else_jumps_over_then_fragment() {
    let cond = Expr::Binary(Box::new(var("a")), TokenType::EqualEqual, Box::new(num(0)));
    let then = Expr::Assign("a".to_string(), Box::new(num(1)));
    let e = Expr::IfStmt(Box::new(cond), Box::new(then), Box::new(Expr::Empty));
    let ops = lower_expr(&e, false).unwrap();
    // cond(3) ++ JIfFalse(2) ++ then(2)
    assert_eq!(ops.len(), 6);
    assert!(matches!(&ops[3], Opcode::JIfFalse(2)));
}

#[test]
fn if_with_else_adds_skip_jump() {
    let cond = Expr::Binary(Box::new(var("a")), TokenType::EqualEqual, Box::new(num(0)));
    let then = Expr::Assign("a".to_string(), Box::new(num(1)));
    let els = Expr::Assign("a".to_string(), Box::new(num(2)));
    let e = Expr::IfStmt(Box::new(cond), Box::new(then), Box::new(els));
    let ops = lower_expr(&e, false).unwrap();
    // cond(3) ++ JIfFalse(3) ++ then(2) ++ Jmp(2) ++ else(2)
    assert_eq!(ops.len(), 9);
    assert!(matches!(&ops[3], Opcode::JIfFalse(3)), "skip covers then plus its jump");
    assert!(matches!(&ops[6], Opcode::Jmp(2)), "jump spans the else fragment");
}

#[test]
fn block_declarations_store_local_and_top_level_store_global() {
    let top = Expr::VarDecl(DataType::Int, false, false, "g".to_string(), Some(Box::new(num(1))));
    let ops = lower_expr(&top, false).unwrap();
    assert!(matches!(&ops[1], Opcode::StoreGlobal(DataType::Int, false, n) if n == "g"));

    let inner = Expr::VarDecl(DataType::Int, false, false, "l".to_string(), Some(Box::new(num(2))));
    let block = Expr::Block(vec![inner]);
    let ops = lower_expr(&block, false).unwrap();
    assert!(matches!(&ops[0], Opcode::Begin));
    assert!(matches!(&ops[2], Opcode::StoreLocal(DataType::Int, false, n) if n == "l"));
    assert!(matches!(&ops[3], Opcode::End));
}

#[test]
fn function_span_covers_params_body_and_trap() {
    let header = Func_Header {
        name: "f".to_string(),
        args: vec![(DataType::Int, "x".to_string())],
        return_type: Some(DataType::Int),
        is_ptr_dt: false,
    };
    // body: { return 5; } lowers to [Begin, Return(Some(5)), End]
    let body = Expr::Block(vec![Expr::Return(Some(Box::new(num(5))))]);
    let e = Expr::FuncStmt(header, Box::new(body));
    let ops = lower_expr(&e, false).unwrap();
    // MakeFunc(4) ++ StoreParam ++ Begin ++ Return ++ End ++ EndFunc
    assert_eq!(ops.len(), 6);
    assert!(matches!(&ops[0], Opcode::MakeFunc(4, n) if n == "f"));
    assert!(matches!(&ops[1], Opcode::StoreParam(DataType::Int, n) if n == "x"));
    assert!(matches!(&ops[5], Opcode::EndFunc));
}

#[test]
fn function_body_without_required_return_gets_trap() {
    let header = Func_Header {
        name: "f".to_string(),
        args: vec![],
        return_type: Some(DataType::Int),
        is_ptr_dt: false,
    };
    // body lowers to [Begin, Constant, StoreLocal, End]: no return at all
    let body = Expr::Block(vec![
        Expr::VarDecl(DataType::Int, false, false, "x".to_string(), Some(Box::new(num(1)))),
    ]);
    let e = Expr::FuncStmt(header, Box::new(body));
    let ops = lower_expr(&e, false).unwrap();
    // MakeFunc(5) ++ Begin ++ Constant ++ StoreLocal ++ End ++ Invalid ++ EndFunc
    assert_eq!(ops.len(), 7);
    assert!(matches!(&ops[0], Opcode::MakeFunc(5, _)));
    assert!(matches!(&ops[5], Opcode::Invalid));
}

#[test]
fn call_stages_literal_arguments_in_order() {
    let e = Expr::Callee(
        Box::new(Expr::Identifier("f".to_string())),
        vec![num(2), num(3)],
    );
    let ops = lower_expr(&e, false).unwrap();
    assert_eq!(ops.len(), 3);
    assert!(matches!(&ops[0], Opcode::StoreArg(Value::Number(2))));
    assert!(matches!(&ops[1], Opcode::StoreArg(Value::Number(3))));
    assert!(matches!(&ops[2], Opcode::Call(n) if n == "f"));
}

#[test]
fn unsupported_shapes_are_rejected() {
    let e = Expr::Extern(Func_Header {
        name: "e".to_string(),
        args: vec![],
        return_type: None,
        is_ptr_dt: false,
    });
    assert_eq!(lower_expr(&e, false).unwrap_err(), LoweringError::UnsupportedConstruct);
    assert_eq!(lower_expr(&Expr::Empty, false).unwrap_err(), LoweringError::UnsupportedConstruct);
}
