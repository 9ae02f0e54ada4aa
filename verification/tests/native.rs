use dcz::ast::{DataType, Expr, Func_Header};
use dcz::ir::Ast2Ir;
use dcz::codegen::{Codegen, CodegenError, padding};
use dcz::emit::encode;
use dcz::lower::lower_expr;
use dcz::machinstr::{MachInstr, MemRef, Reg, Width};
use dcz::opcode::Opcode;
use dcz::value::Value;

fn num(v: i64) -> Expr {
    Expr::Literal(Value::Number(v))
}

/// Frame layout for local sizes [4, 1, 8, 2] (int, char, long, short):
/// start offsets 0, 4, 8, 16 — each non-byte offset a multiple of its size —
/// and total frame growth 18 = 15 bytes of data plus 3 of padding.
#[test]
fn frame_alignment_for_mixed_local_sizes() {
    let ops = vec![
        Opcode::Constant(Value::Number(1)),
        Opcode::StoreLocal(DataType::Int, false, "a".to_string()),
        Opcode::Constant(Value::Number(2)),
        Opcode::StoreLocal(DataType::Char, false, "b".to_string()),
        Opcode::Constant(Value::Number(3)),
        Opcode::StoreLocal(DataType::Long, false, "c".to_string()),
        Opcode::Constant(Value::Number(4)),
        Opcode::StoreLocal(DataType::Short, false, "d".to_string()),
    ];
    let mut cg = Codegen::new();
    let code = cg.instr(&ops).unwrap();
    // Each store is one MovMemImm32; disp is the cursor after the store,
    // so the start offset is disp minus the size.
    let expected = [
        (Width::Dword, 4u32, 4u32),
        (Width::Byte, 5, 1),
        (Width::Qword, 16, 8),
        (Width::Word, 18, 2),
    ];
    assert_eq!(code.len(), 4);
    for (mi, (w, disp, size)) in code.iter().zip(expected.iter()) {
        match mi {
            MachInstr::MovMemImm32(m, _) => {
                assert_eq!(m.width, *w);
                assert_eq!(m.disp, *disp);
                let start = m.disp - size;
                if *size > 1 {
                    assert_eq!(start % size, 0, "start offset aligned to size");
                }
            },
            other => panic!("expected a frame store, got {:?}", other),
        }
    }
    // Total frame growth: sum of sizes (15) plus inserted padding (3).
    assert_eq!(expected.last().unwrap().1, 18);
}

#[test]
fn padding_table_matches_hand_computation() {
    assert_eq!(padding(DataType::Int, 0), 0);
    assert_eq!(padding(DataType::Char, 4), 0);
    assert_eq!(padding(DataType::Long, 5), 3);
    assert_eq!(padding(DataType::Short, 16), 0);
    assert_eq!(padding(DataType::Int, 6), 2);
}

/// `f(int x, int y) -> int { return 5; }`: the first parameter is stored
/// from the rdi-sourced 32-bit register, the second from rsi, and the
/// return moves the literal into the accumulator before the epilogue.
#[test]
fn end_to_end_native_function() {
    let header = Func_Header {
        name: "f".to_string(),
        args: vec![(DataType::Int, "x".to_string()), (DataType::Int, "y".to_string())],
        return_type: Some(DataType::Int),
        is_ptr_dt: false,
    };
    let body = Expr::Block(vec![Expr::Return(Some(Box::new(num(5))))]);
    let ops = lower_expr(&Expr::FuncStmt(header, Box::new(body)), false).unwrap();
    let mut cg = Codegen::new();
    let top = cg.instr(&ops).unwrap();
    assert!(top.is_empty(), "the function body lives in the function table");
    assert_eq!(cg.func_location.len(), 1);
    let f = &cg.func_location[0];
    assert_eq!(f.name, "f");
    let code = &f.code;
    assert_eq!(code[0], MachInstr::PushReg(Reg::Rbp));
    assert_eq!(code[1], MachInstr::MovRegReg(Reg::Rbp, Reg::Rsp));
    assert_eq!(
        code[2],
        MachInstr::MovMemR32(MemRef { width: Width::Dword, disp: 4 }, Reg::Rdi),
    );
    assert_eq!(
        code[3],
        MachInstr::MovMemR32(MemRef { width: Width::Dword, disp: 8 }, Reg::Rsi),
    );
    assert!(code.contains(&MachInstr::MovR32Imm32(Reg::Rax, 5)));
    assert_eq!(code[code.len() - 2], MachInstr::PopReg(Reg::Rbp));
    assert_eq!(code[code.len() - 1], MachInstr::Ret);
}

#[test]
fn arguments_take_the_conventional_registers_in_order() {
    let ops = vec![
        Opcode::StoreArg(Value::Number(2)),
        Opcode::StoreArg(Value::Number(3)),
        Opcode::Call("f".to_string()),
    ];
    let mut cg = Codegen::new();
    let code = cg.instr(&ops).unwrap();
    assert_eq!(code[0], MachInstr::MovR32Imm32(Reg::Rdi, 2));
    assert_eq!(code[1], MachInstr::MovR32Imm32(Reg::Rsi, 3));
    assert_eq!(code[2], MachInstr::CallRel(0));
    assert_eq!(cg.call_location, vec!["f".to_string()]);
}

#[test]
fn a_seventh_argument_fails_loudly() {
    let mut ops: Vec<Opcode> = (0..7).map(|i| Opcode::StoreArg(Value::Number(i))).collect();
    ops.push(Opcode::Call("f".to_string()));
    let mut cg = Codegen::new();
    assert_eq!(cg.instr(&ops).unwrap_err(), CodegenError::UnsupportedAbi);
}

#[test]
fn globals_are_collected_as_data_not_code() {
    let ops = vec![
        Opcode::Constant(Value::Number(42)),
        Opcode::StoreGlobal(DataType::Int, false, "g".to_string()),
    ];
    let mut cg = Codegen::new();
    let code = cg.instr(&ops).unwrap();
    assert!(code.is_empty());
    assert_eq!(cg.assign_location.len(), 1);
    assert_eq!(cg.assign_location[0].0, "g");
    assert!(matches!(cg.assign_location[0].1, Value::Number(42)));
}

#[test]
fn encode_emits_prologue_epilogue_bytes() {
    let code = vec![
        MachInstr::PushReg(Reg::Rbp),
        MachInstr::MovRegReg(Reg::Rbp, Reg::Rsp),
        MachInstr::MovR32Imm32(Reg::Rax, 5),
        MachInstr::PopReg(Reg::Rbp),
        MachInstr::Ret,
    ];
    let (bytes, calls) = encode(&code, 0).unwrap();
    assert_eq!(bytes[0], 0x55, "push rbp");
    assert_eq!(*bytes.last().unwrap(), 0xC3, "ret");
    assert!(calls.is_empty());
    // mov eax, 5 appears as B8 05 00 00 00
    assert!(bytes.windows(5).any(|w| w == [0xB8, 5, 0, 0, 0]));
}

#[test]
fn encode_reports_call_site_offsets() {
    let code = vec![MachInstr::Nop, MachInstr::CallRel(0)];
    let (bytes, calls) = encode(&code, 0).unwrap();
    assert_eq!(bytes[0], 0x90, "nop");
    assert_eq!(bytes[1], 0xE8, "call rel32");
    assert_eq!(bytes.len(), 6);
    // The relocatable field starts one byte into the call's encoding.
    assert_eq!(calls, vec![2usize]);
}

#[test]
fn encode_handles_backward_labels() {
    let code = vec![
        MachInstr::AnonLabel,
        MachInstr::Nop,
        MachInstr::JmpToPrevLabel,
    ];
    let (bytes, _) = encode(&code, 0).unwrap();
    assert_eq!(bytes[0], 0x90);
    // A short backward jmp to the nop: EB FD.
    assert_eq!(&bytes[1..], &[0xEB, 0xFD]);
}

#[test]
fn a_seventh_parameter_fails_loudly() {
    let args: Vec<(DataType, String)> =
        (0..7).map(|i| (DataType::Int, format!("p{}", i))).collect();
    let header = Func_Header {
        name: "g".to_string(),
        args,
        return_type: None,
        is_ptr_dt: false,
    };
    let body = Expr::Block(vec![Expr::VarDecl(
        DataType::Int,
        false,
        false,
        "x".to_string(),
        Some(Box::new(num(1))),
    )]);
    let ops = lower_expr(&Expr::FuncStmt(header, Box::new(body)), false).unwrap();
    let mut cg = Codegen::new();
    assert_eq!(cg.instr(&ops).unwrap_err(), CodegenError::UnsupportedAbi);
}

#[test]
fn encoder_rejects_register_forms_outside_its_repertoire() {
    let code = vec![MachInstr::PushReg(Reg::Rax)];
    assert!(encode(&code, 0).is_err());
}

#[test]
fn pipeline_from_ast_to_object_code() {
    let header = Func_Header {
        name: "f".to_string(),
        args: vec![(DataType::Int, "x".to_string()), (DataType::Int, "y".to_string())],
        return_type: Some(DataType::Int),
        is_ptr_dt: false,
    };
    let program = vec![
        Expr::FuncStmt(header, Box::new(Expr::Block(vec![Expr::Return(Some(Box::new(num(5))))]))),
        Expr::Callee(
            Box::new(Expr::Identifier("f".to_string())),
            vec![num(2), num(3)],
        ),
    ];
    let mut pass = Ast2Ir::new(program);
    let ir = pass.to_ir().unwrap();
    let mut cg = Codegen::new();
    let top = cg.instr(&ir.instr).unwrap();
    assert_eq!(cg.func_location.len(), 1);
    assert_eq!(cg.func_location[0].name, "f");
    assert_eq!(cg.call_location, vec!["f".to_string()]);
    let (f_bytes, f_calls) = encode(&cg.func_location[0].code, 0).unwrap();
    assert_eq!(f_bytes[0], 0x55);
    assert_eq!(*f_bytes.last().unwrap(), 0xC3);
    assert!(f_calls.is_empty());
    let (top_bytes, top_calls) = encode(&top, 0).unwrap();
    assert_eq!(top_calls.len(), 1, "one call site to patch");
    assert!(top_bytes.len() > top_calls[0]);
}

#[test]
fn encoder_refuses_immediates_too_wide_for_the_slot() {
    // A byte slot takes -128..=255; 300 does not fit.
    let code = vec![MachInstr::MovMemImm32(
        MemRef { width: Width::Byte, disp: 1 },
        300,
    )];
    assert!(encode(&code, 0).is_err());
    // The same immediate fits a dword slot.
    let ok = vec![MachInstr::MovMemImm32(
        MemRef { width: Width::Dword, disp: 4 },
        300,
    )];
    assert!(encode(&ok, 0).is_ok());
}
