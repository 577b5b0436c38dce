//! End-to-end runs: untyped IR chunks through the checker, the
//! lowering and the machine, checking the exact lines printed.

use reko::compiler::compile;
use reko::evaluator::{evaluate, VmError};
use reko::ir::{IRKind, IR};
use reko::typer::typecheck;

fn ir(kind: IRKind) -> IR {
    IR { kind }
}

fn run(chunks: Vec<Vec<IR>>) -> (Vec<String>, Result<(), VmError>) {
    let typed = typecheck(chunks).expect("the chunks are well typed");
    let program = compile(typed).expect("the typed chunks lower");
    evaluate(program)
}

fn def_main(body: Vec<IRKind>) -> Vec<IR> {
    let mut chunk = vec![
        ir(IRKind::Def("main".to_string())),
        ir(IRKind::DashDash),
        ir(IRKind::Do),
    ];
    for k in body {
        chunk.push(ir(k));
    }
    chunk.push(ir(IRKind::End));
    chunk
}

#[test]
fn adds_and_prints() {
    let (lines, res) = run(vec![def_main(vec![
        IRKind::PushInt(2),
        IRKind::PushInt(3),
        IRKind::Add,
        IRKind::Print,
    ])]);
    assert_eq!(res, Ok(()));
    assert_eq!(lines, vec!["5".to_string()]);
}

#[test]
fn if_else_takes_true_arm() {
    let (lines, res) = run(vec![def_main(vec![
        IRKind::PushInt(1),
        IRKind::PushInt(1),
        IRKind::Eq,
        IRKind::If,
        IRKind::Then,
        IRKind::PushInt(42),
        IRKind::Print,
        IRKind::Else,
        IRKind::PushInt(0),
        IRKind::Print,
        IRKind::End,
    ])]);
    assert_eq!(res, Ok(()));
    assert_eq!(lines, vec!["42".to_string()]);
}

#[test]
fn global_variable_initializer_runs_first() {
    let var_chunk = vec![
        ir(IRKind::Var("x".to_string())),
        ir(IRKind::PushInt(5)),
        ir(IRKind::End),
    ];
    let main_chunk = def_main(vec![
        IRKind::PushVar("x".to_string()),
        IRKind::Load,
        IRKind::Print,
    ]);
    let (lines, res) = run(vec![var_chunk, main_chunk]);
    assert_eq!(res, Ok(()));
    assert_eq!(lines, vec!["5".to_string()]);
}

#[test]
fn while_loop_counts_to_three() {
    let (lines, res) = run(vec![def_main(vec![
        IRKind::PushInt(0),
        IRKind::While,
        IRKind::Dup,
        IRKind::PushInt(3),
        IRKind::Lt,
        IRKind::Do,
        IRKind::Dup,
        IRKind::Print,
        IRKind::PushInt(1),
        IRKind::Add,
        IRKind::End,
        IRKind::Drop,
    ])]);
    assert_eq!(res, Ok(()));
    assert_eq!(
        lines,
        vec!["0".to_string(), "1".to_string(), "2".to_string()]
    );
}

#[test]
fn call_adds_through_function() {
    let add_chunk = vec![
        ir(IRKind::Def("add".to_string())),
        ir(IRKind::FunctionArgument(reko::ir::TypeSignature::Int)),
        ir(IRKind::FunctionArgument(reko::ir::TypeSignature::Int)),
        ir(IRKind::DashDash),
        ir(IRKind::FunctionArgument(reko::ir::TypeSignature::Int)),
        ir(IRKind::Do),
        ir(IRKind::Add),
        ir(IRKind::End),
    ];
    let main_chunk = def_main(vec![
        IRKind::PushInt(7),
        IRKind::PushInt(8),
        IRKind::Call("add".to_string()),
        IRKind::Print,
    ]);
    let (lines, res) = run(vec![add_chunk, main_chunk]);
    assert_eq!(res, Ok(()));
    assert_eq!(lines, vec!["15".to_string()]);
}

#[test]
fn boolean_condition_takes_false_arm() {
    let (lines, res) = run(vec![def_main(vec![
        IRKind::PushBool(true),
        IRKind::PushBool(false),
        IRKind::And,
        IRKind::If,
        IRKind::Then,
        IRKind::PushStr("y".to_string()),
        IRKind::Print,
        IRKind::Else,
        IRKind::PushStr("n".to_string()),
        IRKind::Print,
        IRKind::End,
    ])]);
    assert_eq!(res, Ok(()));
    assert_eq!(lines, vec!["n".to_string()]);
}

#[test]
fn empty_string_prints_empty_line() {
    let (lines, res) = run(vec![def_main(vec![
        IRKind::PushStr(String::new()),
        IRKind::Print,
    ])]);
    assert_eq!(res, Ok(()));
    assert_eq!(lines, vec![String::new()]);
}

#[test]
fn division_by_zero_halts_without_further_output() {
    let (lines, res) = run(vec![def_main(vec![
        IRKind::PushInt(1),
        IRKind::Print,
        IRKind::PushInt(1),
        IRKind::PushInt(0),
        IRKind::Divide,
        IRKind::Print,
    ])]);
    assert_eq!(res, Err(VmError::DivisionByZero));
    assert_eq!(lines, vec!["1".to_string()]);
}

#[test]
fn empty_program_prints_nothing() {
    let (lines, res) = run(vec![]);
    assert_eq!(res, Ok(()));
    assert!(lines.is_empty());
}

#[test]
fn program_without_main_uses_the_initializer_as_entry() {
    // no `main`: entry stays 0, so only the initializer's effects occur
    let var_chunk = vec![
        ir(IRKind::Var("x".to_string())),
        ir(IRKind::PushInt(5)),
        ir(IRKind::End),
    ];
    let (lines, res) = run(vec![var_chunk]);
    assert_eq!(res, Ok(()));
    assert!(lines.is_empty());
}

#[test]
fn negative_result_prints_with_sign() {
    let (lines, res) = run(vec![def_main(vec![
        IRKind::PushInt(3),
        IRKind::PushInt(10),
        IRKind::Subtract,
        IRKind::Print,
    ])]);
    assert_eq!(res, Ok(()));
    assert_eq!(lines, vec!["-7".to_string()]);
}

#[test]
fn swap_over_drop_shuffle() {
    let (lines, res) = run(vec![def_main(vec![
        IRKind::PushInt(1),
        IRKind::PushInt(2),
        IRKind::Swap,
        IRKind::Over,
        IRKind::Print,
        IRKind::Drop,
        IRKind::Drop,
    ])]);
    assert_eq!(res, Ok(()));
    assert_eq!(lines, vec!["2".to_string()]);
}

#[test]
fn bind_names_locals_positionally() {
    let (lines, res) = run(vec![def_main(vec![
        IRKind::PushInt(4),
        IRKind::PushInt(9),
        IRKind::Bind(2),
        IRKind::PushBind(0),
        IRKind::Print,
        IRKind::PushBind(1),
        IRKind::Print,
        IRKind::Unbind(2),
    ])]);
    assert_eq!(res, Ok(()));
    assert_eq!(lines, vec!["4".to_string(), "9".to_string()]);
}

#[test]
fn assign_stores_through_variable_cell() {
    let var_chunk = vec![
        ir(IRKind::Var("x".to_string())),
        ir(IRKind::PushInt(1)),
        ir(IRKind::End),
    ];
    let main_chunk = def_main(vec![
        IRKind::PushInt(42),
        IRKind::PushVar("x".to_string()),
        IRKind::Assign,
        IRKind::PushVar("x".to_string()),
        IRKind::Load,
        IRKind::Print,
    ]);
    let (lines, res) = run(vec![var_chunk, main_chunk]);
    assert_eq!(res, Ok(()));
    assert_eq!(lines, vec!["42".to_string()]);
}

#[test]
fn elif_chain_picks_middle_arm() {
    let (lines, res) = run(vec![def_main(vec![
        IRKind::PushInt(2),
        IRKind::PushInt(1),
        IRKind::Eq,
        IRKind::If,
        IRKind::Then,
        IRKind::PushInt(1),
        IRKind::Print,
        IRKind::Elif,
        IRKind::PushBool(true),
        IRKind::Then,
        IRKind::PushInt(2),
        IRKind::Print,
        IRKind::Else,
        IRKind::PushInt(3),
        IRKind::Print,
        IRKind::End,
    ])]);
    assert_eq!(res, Ok(()));
    assert_eq!(lines, vec!["2".to_string()]);
}

#[test]
fn struct_arguments_flatten_to_field_types() {
    let struct_chunk = vec![
        ir(IRKind::Struct("pair".to_string())),
        ir(IRKind::StructField(reko::ir::TypeSignature::Int)),
        ir(IRKind::StructField(reko::ir::TypeSignature::Int)),
        ir(IRKind::End),
    ];
    let sum_chunk = vec![
        ir(IRKind::Def("sum".to_string())),
        ir(IRKind::FunctionArgument(reko::ir::TypeSignature::Struct(
            "pair".to_string(),
        ))),
        ir(IRKind::DashDash),
        ir(IRKind::FunctionArgument(reko::ir::TypeSignature::Int)),
        ir(IRKind::Do),
        ir(IRKind::Add),
        ir(IRKind::End),
    ];
    let main_chunk = def_main(vec![
        IRKind::PushInt(20),
        IRKind::PushInt(22),
        IRKind::Call("sum".to_string()),
        IRKind::Print,
    ]);
    let (lines, res) = run(vec![struct_chunk, sum_chunk, main_chunk]);
    assert_eq!(res, Ok(()));
    assert_eq!(lines, vec!["42".to_string()]);
}
