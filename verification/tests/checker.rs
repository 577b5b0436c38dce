//! The checker's and the lowering's error kinds, each on a minimal
//! reproduction, and a round trip over handcrafted typed IR.

use reko::compiler::{compile, CompileError};
use reko::evaluator::evaluate;
use reko::ir::{IRKind, TypeSignature, IR};
use reko::typer::{typecheck, TypeError, TypedIR, TypedIRKind};

fn ir(kind: IRKind) -> IR {
    IR { kind }
}

fn def_f(body: Vec<IRKind>) -> Vec<IR> {
    let mut chunk = vec![
        ir(IRKind::Def("f".to_string())),
        ir(IRKind::DashDash),
        ir(IRKind::Do),
    ];
    for k in body {
        chunk.push(ir(k));
    }
    chunk.push(ir(IRKind::End));
    chunk
}

#[test]
fn underflow_raises_shape_error() {
    assert_eq!(typecheck(vec![def_f(vec![IRKind::Add])]).unwrap_err(), TypeError::Shape);
}

#[test]
fn mixed_operands_raise_type_mismatch() {
    assert_eq!(
        typecheck(vec![def_f(vec![
            IRKind::PushInt(1),
            IRKind::PushBool(true),
            IRKind::Add,
        ])]).unwrap_err(),
        TypeError::TypeMismatch
    );
}

#[test]
fn equality_on_different_types_raises_type_mismatch() {
    assert_eq!(
        typecheck(vec![def_f(vec![
            IRKind::PushInt(1),
            IRKind::PushBool(true),
            IRKind::Eq,
        ])]).unwrap_err(),
        TypeError::TypeMismatch
    );
}

#[test]
fn leftover_return_value_raises_type_mismatch() {
    assert_eq!(
        typecheck(vec![def_f(vec![IRKind::PushInt(1)])]).unwrap_err(),
        TypeError::TypeMismatch
    );
}

#[test]
fn assign_to_non_pointer_raises_type_mismatch() {
    assert_eq!(
        typecheck(vec![def_f(vec![
            IRKind::PushInt(1),
            IRKind::PushInt(2),
            IRKind::Assign,
        ])]).unwrap_err(),
        TypeError::TypeMismatch
    );
}

#[test]
fn divergent_if_arms_raise_branch_mismatch() {
    assert_eq!(
        typecheck(vec![def_f(vec![
            IRKind::PushBool(true),
            IRKind::If,
            IRKind::Then,
            IRKind::PushInt(1),
            IRKind::Elif,
            IRKind::PushBool(true),
            IRKind::Then,
            IRKind::PushInt(2),
            IRKind::End,
            IRKind::Drop,
        ])]).unwrap_err(),
        TypeError::BranchMismatch
    );
}

#[test]
fn growing_loop_body_raises_branch_mismatch() {
    assert_eq!(
        typecheck(vec![def_f(vec![
            IRKind::While,
            IRKind::PushBool(true),
            IRKind::Do,
            IRKind::PushInt(1),
            IRKind::End,
        ])]).unwrap_err(),
        TypeError::BranchMismatch
    );
}

#[test]
fn call_to_undeclared_function_raises_unbound_identifier() {
    assert_eq!(
        typecheck(vec![def_f(vec![IRKind::Call("g".to_string())])]).unwrap_err(),
        TypeError::UnboundIdentifier
    );
}

#[test]
fn undeclared_variable_raises_unbound_identifier() {
    assert_eq!(
        typecheck(vec![def_f(vec![
            IRKind::PushVar("x".to_string()),
            IRKind::Drop,
        ])]).unwrap_err(),
        TypeError::UnboundIdentifier
    );
}

#[test]
fn stray_keyword_raises_unexpected_token() {
    assert_eq!(
        typecheck(vec![def_f(vec![IRKind::Else])]).unwrap_err(),
        TypeError::UnexpectedToken
    );
    assert_eq!(
        typecheck(vec![vec![ir(IRKind::Add)]]).unwrap_err(),
        TypeError::UnexpectedToken
    );
}

#[test]
fn variable_initializer_must_leave_one_value() {
    assert_eq!(
        typecheck(vec![vec![
            ir(IRKind::Var("x".to_string())),
            ir(IRKind::End),
        ]]).unwrap_err(),
        TypeError::Shape
    );
}

#[test]
fn condition_must_be_boolean() {
    assert_eq!(
        typecheck(vec![def_f(vec![
            IRKind::PushInt(1),
            IRKind::If,
            IRKind::Then,
            IRKind::End,
        ])]).unwrap_err(),
        TypeError::TypeMismatch
    );
}

#[test]
fn print_elaborates_by_operand_type() {
    let typed = typecheck(vec![def_f(vec![IRKind::PushBool(true), IRKind::Print])]).unwrap();
    assert_eq!(typed.len(), 1);
    assert!(matches!(typed[0][0].kind, TypedIRKind::Def(_)));
    assert!(matches!(typed[0][1].kind, TypedIRKind::PushBool(true)));
    assert!(matches!(typed[0][2].kind, TypedIRKind::PrintBool));
}

#[test]
fn load_of_string_pointer_elaborates_to_load_str() {
    let var_chunk = vec![
        ir(IRKind::Var("s".to_string())),
        ir(IRKind::PushStr("a".to_string())),
        ir(IRKind::End),
    ];
    let body = def_f(vec![
        IRKind::PushVar("s".to_string()),
        IRKind::Load,
        IRKind::Drop,
    ]);
    let typed = typecheck(vec![var_chunk, body]).unwrap();
    assert!(typed[1].iter().any(|t| matches!(t.kind, TypedIRKind::LoadStr)));
}

#[test]
fn lowering_rejects_unknown_call_target() {
    let typed = vec![vec![
        TypedIR {
            kind: TypedIRKind::Def("f".to_string()),
        },
        TypedIR {
            kind: TypedIRKind::Call("g".to_string()),
        },
    ]];
    assert_eq!(compile(typed).unwrap_err(), CompileError::UnknownFunction);
}

#[test]
fn lowering_rejects_pointer_print() {
    let typed = vec![vec![
        TypedIR {
            kind: TypedIRKind::Def("f".to_string()),
        },
        TypedIR {
            kind: TypedIRKind::PrintPtr,
        },
    ]];
    assert_eq!(compile(typed).unwrap_err(), CompileError::PrintPtrUnsupported);
}

#[test]
fn lowering_rejects_an_empty_chunk() {
    assert_eq!(compile(vec![Vec::new()]).unwrap_err(), CompileError::EmptyChunk);
}

#[test]
fn lowering_rejects_stray_keywords() {
    let typed = vec![vec![
        TypedIR {
            kind: TypedIRKind::Def("f".to_string()),
        },
        TypedIR {
            kind: TypedIRKind::Elif,
        },
    ]];
    assert_eq!(compile(typed).unwrap_err(), CompileError::UnexpectedElif);
}

#[test]
fn handcrafted_typed_chunk_round_trips() {
    let typed = vec![vec![
        TypedIR {
            kind: TypedIRKind::Def("main".to_string()),
        },
        TypedIR {
            kind: TypedIRKind::PushInt(2),
        },
        TypedIR {
            kind: TypedIRKind::PushInt(3),
        },
        TypedIR {
            kind: TypedIRKind::Add,
        },
        TypedIR {
            kind: TypedIRKind::PrintInt,
        },
    ]];
    let program = compile(typed).unwrap();
    let (lines, res) = evaluate(program);
    assert_eq!(res, Ok(()));
    assert_eq!(lines, vec!["5".to_string()]);
}

#[test]
fn signatures_compare_structurally() {
    let a = TypeSignature::Ptr(Box::new(TypeSignature::Int));
    let b = TypeSignature::Ptr(Box::new(TypeSignature::Int));
    let c = TypeSignature::Ptr(Box::new(TypeSignature::Str));
    assert!(reko::ir::sig_eq(&a, &b));
    assert!(!reko::ir::sig_eq(&a, &c));
}
