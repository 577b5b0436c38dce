//! The machine on handcrafted bytecode: every opcode at least once,
//! the fatal error cases, and the string table.

use reko::evaluator::{
    evaluate, i64_to_word, Function, Program, VmError, OP_ADD, OP_AND, OP_ASSIGN, OP_BIND, OP_CALL,
    OP_DIVIDE, OP_DROP, OP_DUP, OP_EQ, OP_GT, OP_JUMP, OP_JUMP_FALSE, OP_JUMP_TRUE, OP_LOAD,
    OP_LOAD_STR, OP_LT, OP_MAKE_VAR, OP_MULTIPLY, OP_NEQ, OP_NOT, OP_NO_OP, OP_OR, OP_OVER,
    OP_PRINT_BOOL, OP_PRINT_INT, OP_PRINT_STR, OP_PUSH_BIND, OP_PUSH_BOOL, OP_PUSH_INT,
    OP_PUSH_STR, OP_PUSH_VAR, OP_RETURN, OP_SUBTRACT, OP_SWAP, OP_UNBIND,
};

/// A program whose entry function holds `code`, with an empty
/// initializer, `vars` variable cells and the given string table.
fn program(code: Vec<u64>, vars: usize, strings: Vec<String>) -> Program {
    Program {
        entry_index: 1,
        variable_size: vars,
        functions: vec![Function { code: Vec::new() }, Function { code }],
        strings,
    }
}

fn run(code: Vec<u64>) -> (Vec<String>, Result<(), VmError>) {
    evaluate(program(code, 0, Vec::new()))
}

#[test]
fn push_and_print_int() {
    let (lines, res) = run(vec![OP_PUSH_INT, 7, OP_PRINT_INT]);
    assert_eq!(res, Ok(()));
    assert_eq!(lines, vec!["7".to_string()]);
}

#[test]
fn push_int_negative_round_trips_through_the_word() {
    let (lines, res) = run(vec![OP_PUSH_INT, i64_to_word(-9), OP_PRINT_INT]);
    assert_eq!(res, Ok(()));
    assert_eq!(lines, vec!["-9".to_string()]);
}

#[test]
fn print_bool_renders_words() {
    let (lines, res) = run(vec![
        OP_PUSH_BOOL,
        1,
        OP_PRINT_BOOL,
        OP_PUSH_BOOL,
        0,
        OP_PRINT_BOOL,
    ]);
    assert_eq!(res, Ok(()));
    assert_eq!(lines, vec!["true".to_string(), "false".to_string()]);
}

#[test]
fn push_str_prints_table_entry() {
    let p = program(
        vec![OP_PUSH_STR, 0, OP_PRINT_STR],
        0,
        vec!["hi".to_string()],
    );
    let (lines, res) = evaluate(p);
    assert_eq!(res, Ok(()));
    assert_eq!(lines, vec!["hi".to_string()]);
}

#[test]
fn dup_over_drop_swap() {
    let (lines, res) = run(vec![
        OP_PUSH_INT,
        1,
        OP_PUSH_INT,
        2,
        OP_OVER,
        OP_PRINT_INT,
        OP_SWAP,
        OP_DUP,
        OP_PRINT_INT,
        OP_DROP,
        OP_PRINT_INT,
    ]);
    assert_eq!(res, Ok(()));
    assert_eq!(
        lines,
        vec!["1".to_string(), "1".to_string(), "2".to_string()]
    );
}

#[test]
fn arithmetic_ops() {
    let (lines, res) = run(vec![
        OP_PUSH_INT,
        7,
        OP_PUSH_INT,
        2,
        OP_SUBTRACT,
        OP_PRINT_INT,
        OP_PUSH_INT,
        3,
        OP_PUSH_INT,
        4,
        OP_MULTIPLY,
        OP_PRINT_INT,
        OP_PUSH_INT,
        9,
        OP_PUSH_INT,
        2,
        OP_DIVIDE,
        OP_PRINT_INT,
        OP_PUSH_INT,
        1,
        OP_PUSH_INT,
        2,
        OP_ADD,
        OP_PRINT_INT,
    ]);
    assert_eq!(res, Ok(()));
    assert_eq!(
        lines,
        vec![
            "5".to_string(),
            "12".to_string(),
            "4".to_string(),
            "3".to_string()
        ]
    );
}

#[test]
fn logic_and_comparisons() {
    let (lines, res) = run(vec![
        OP_PUSH_BOOL,
        0,
        OP_PUSH_BOOL,
        1,
        OP_OR,
        OP_PRINT_BOOL,
        OP_PUSH_BOOL,
        1,
        OP_PUSH_BOOL,
        0,
        OP_AND,
        OP_PRINT_BOOL,
        OP_PUSH_BOOL,
        0,
        OP_NOT,
        OP_PRINT_BOOL,
        OP_PUSH_INT,
        1,
        OP_PUSH_INT,
        2,
        OP_NEQ,
        OP_PRINT_BOOL,
        OP_PUSH_INT,
        3,
        OP_PUSH_INT,
        2,
        OP_GT,
        OP_PRINT_BOOL,
        OP_PUSH_INT,
        3,
        OP_PUSH_INT,
        2,
        OP_LT,
        OP_PRINT_BOOL,
        OP_PUSH_INT,
        2,
        OP_PUSH_INT,
        2,
        OP_EQ,
        OP_PRINT_BOOL,
    ]);
    assert_eq!(res, Ok(()));
    assert_eq!(
        lines,
        vec![
            "true".to_string(),
            "false".to_string(),
            "true".to_string(),
            "true".to_string(),
            "true".to_string(),
            "false".to_string(),
            "true".to_string()
        ]
    );
}

#[test]
fn call_and_return_link_frames() {
    let p = Program {
        entry_index: 1,
        variable_size: 0,
        functions: vec![
            Function { code: Vec::new() },
            Function {
                code: vec![OP_CALL, 2, OP_PRINT_INT, OP_RETURN],
            },
            Function {
                code: vec![OP_PUSH_INT, 5, OP_RETURN],
            },
        ],
        strings: Vec::new(),
    };
    let (lines, res) = evaluate(p);
    assert_eq!(res, Ok(()));
    assert_eq!(lines, vec!["5".to_string()]);
}

#[test]
fn jump_skips_words() {
    let (lines, res) = run(vec![
        OP_JUMP,
        2,
        OP_PUSH_INT,
        1,
        OP_PUSH_INT,
        9,
        OP_PRINT_INT,
    ]);
    assert_eq!(res, Ok(()));
    assert_eq!(lines, vec!["9".to_string()]);
}

#[test]
fn jump_true_takes_the_branch() {
    let (lines, res) = run(vec![
        OP_PUSH_BOOL,
        1,
        OP_JUMP_TRUE,
        2,
        OP_PUSH_INT,
        1,
        OP_PUSH_INT,
        7,
        OP_PRINT_INT,
    ]);
    assert_eq!(res, Ok(()));
    assert_eq!(lines, vec!["7".to_string()]);
}

#[test]
fn jump_false_falls_through_on_true() {
    let (lines, res) = run(vec![
        OP_PUSH_BOOL,
        1,
        OP_JUMP_FALSE,
        2,
        OP_PUSH_INT,
        1,
        OP_PRINT_INT,
    ]);
    assert_eq!(res, Ok(()));
    assert_eq!(lines, vec!["1".to_string()]);
}

#[test]
fn backward_jump_loops() {
    // count 0, 1: [head] dup, print, 1, add, dup, 2, lt, jump_true head
    let code = vec![
        OP_PUSH_INT,
        0,
        // head = 2
        OP_DUP,
        OP_PRINT_INT,
        OP_PUSH_INT,
        1,
        OP_ADD,
        OP_DUP,
        OP_PUSH_INT,
        2,
        OP_LT,
        OP_JUMP_TRUE,
        i64_to_word(-11),
        OP_DROP,
    ];
    let (lines, res) = run(code);
    assert_eq!(res, Ok(()));
    assert_eq!(lines, vec!["0".to_string(), "1".to_string()]);
}

#[test]
fn bind_moves_words_and_unbind_releases() {
    let (lines, res) = run(vec![
        OP_PUSH_INT,
        4,
        OP_PUSH_INT,
        9,
        OP_BIND,
        2,
        OP_PUSH_BIND,
        0,
        OP_PRINT_INT,
        OP_PUSH_BIND,
        1,
        OP_PRINT_INT,
        OP_UNBIND,
        2,
    ]);
    assert_eq!(res, Ok(()));
    assert_eq!(lines, vec!["4".to_string(), "9".to_string()]);
}

#[test]
fn variables_store_and_load_by_cell_index() {
    let p = program(
        vec![
            OP_PUSH_INT,
            42,
            OP_MAKE_VAR,
            0,
            OP_PUSH_INT,
            7,
            OP_PUSH_VAR,
            0,
            OP_ASSIGN,
            OP_PUSH_VAR,
            0,
            OP_LOAD,
            OP_PRINT_INT,
        ],
        1,
        Vec::new(),
    );
    let (lines, res) = evaluate(p);
    assert_eq!(res, Ok(()));
    assert_eq!(lines, vec!["7".to_string()]);
}

#[test]
fn division_by_zero_is_fatal() {
    let (lines, res) = run(vec![OP_PUSH_INT, 1, OP_PUSH_INT, 0, OP_DIVIDE]);
    assert_eq!(res, Err(VmError::DivisionByZero));
    assert!(lines.is_empty());
}

#[test]
fn division_wraps_at_the_minimum() {
    let (lines, res) = run(vec![
        OP_PUSH_INT,
        i64_to_word(i64::MIN),
        OP_PUSH_INT,
        i64_to_word(-1),
        OP_DIVIDE,
        OP_PRINT_INT,
    ]);
    assert_eq!(res, Ok(()));
    assert_eq!(lines, vec![format!("{}", i64::MIN)]);
}

#[test]
fn arithmetic_wraps() {
    let (lines, res) = run(vec![
        OP_PUSH_INT,
        i64_to_word(i64::MAX),
        OP_PUSH_INT,
        1,
        OP_ADD,
        OP_PRINT_INT,
    ]);
    assert_eq!(res, Ok(()));
    assert_eq!(lines, vec![format!("{}", i64::MIN)]);
}

#[test]
fn stack_underflow_is_fatal() {
    let (lines, res) = run(vec![OP_ADD]);
    assert_eq!(res, Err(VmError::StackUnderflow));
    assert!(lines.is_empty());
}

#[test]
fn unknown_opcode_is_fatal() {
    let (_, res) = run(vec![255]);
    assert_eq!(res, Err(VmError::UnknownOpcode));
}

#[test]
fn reserved_and_unimplemented_opcodes_are_fatal() {
    let (_, res) = run(vec![OP_NO_OP]);
    assert_eq!(res, Err(VmError::UnsupportedInstruction));
    let (_, res) = run(vec![OP_LOAD_STR]);
    assert_eq!(res, Err(VmError::UnsupportedInstruction));
}

#[test]
fn out_of_range_slot_is_fatal() {
    let (_, res) = run(vec![OP_PUSH_INT, 3, OP_MAKE_VAR, 0]);
    assert_eq!(res, Err(VmError::SlotOutOfRange));
}

#[test]
fn out_of_range_string_is_fatal() {
    let (_, res) = run(vec![OP_PUSH_STR, 0]);
    assert_eq!(res, Err(VmError::StringOutOfRange));
}

#[test]
fn truncated_instruction_is_fatal() {
    let (_, res) = run(vec![OP_PUSH_INT]);
    assert_eq!(res, Err(VmError::TruncatedInstruction));
}

#[test]
fn out_of_range_call_target_is_fatal() {
    let (_, res) = run(vec![OP_CALL, 9]);
    assert_eq!(res, Err(VmError::FunctionOutOfRange));
}

#[test]
fn string_interning_reuses_equal_contents() {
    let mut p = Program::new();
    let a = p.add_string_constant("abc".to_string()).unwrap();
    let b = p.add_string_constant("xyz".to_string()).unwrap();
    let c = p.add_string_constant("abc".to_string()).unwrap();
    assert_eq!(a, 0);
    assert_eq!(b, 1);
    assert_eq!(c, a);
    assert_eq!(p.strings.len(), 2);
}

#[test]
fn rendering_matches_decimal_text() {
    assert_eq!(reko::render::int_to_line(0), "0");
    assert_eq!(reko::render::int_to_line(-123), "-123");
    assert_eq!(reko::render::int_to_line(9876543210), "9876543210");
    assert_eq!(reko::render::bool_to_line(true), "true");
    assert_eq!(reko::render::bool_to_line(false), "false");
}
