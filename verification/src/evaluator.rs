//! The bytecode model and the virtual machine.
//!
//! A program is a set of functions, each a flat sequence of 64-bit
//! words: one opcode word, optionally followed by one immediate word.
//! The machine owns a data stack, a return stack, a bind stack and an
//! array of variable cells, all of 64-bit words.  String constants and
//! variable cells are addressed by index: a data-stack word that stands
//! for a string or a variable holds its index in the program's string
//! table or in the cell array.
//!
//! The semantics is the spec function [`step`]: one instruction's
//! effect on a [`VmView`], total over every machine state, so no state
//! has undefined behaviour.  [`evaluate`] is proved to produce exactly
//! the outcome of iterating [`step`], initializer first, entry
//! function second.

use vstd::prelude::*;

use crate::render::{bool_str, bool_to_line, int_str, int_to_line};
use vstd::pervasive::VecAdditionalExecFns;

verus! {

/// One bytecode function: a flat sequence of 64-bit words.
#[derive(Debug)]
pub struct Function {
    pub code: crate::compiler::Code,
}

impl View for Function {
    type V = Seq<u64>;

    open spec fn view(&self) -> Seq<u64> {
        self.code@
    }
}

impl Function {
    /// A function with no code yet.
    pub fn new() -> (r: Self)
        ensures
            r@ == Seq::<u64>::empty(),
    {
        let r = Self { code: Vec::new() };
        proof {
            assert(r@ =~= Seq::<u64>::empty());
        }
        r
    }
}

/// Mathematical view of a [`Program`].
#[verifier::ext_equal]
pub struct ProgView {
    /// Index of the function execution starts in after the initializer.
    pub entry: int,
    /// Number of variable cells the machine allocates.
    pub var_size: int,
    /// The code of each function.
    pub funcs: Seq<Seq<u64>>,
    /// The interned string constants.
    pub strings: Seq<Seq<char>>,
}

/// A complete bytecode program.
#[derive(Debug)]
pub struct Program {
    pub entry_index: usize,
    pub variable_size: usize,
    pub functions: Vec<Function>,
    pub strings: Vec<String>,
}

impl View for Program {
    type V = ProgView;

    open spec fn view(&self) -> ProgView {
        ProgView {
            entry: self.entry_index as int,
            var_size: self.variable_size as int,
            funcs: self.functions@.map_values(|f: Function| f@),
            strings: self.strings@.map_values(|s: String| s@),
        }
    }
}

/// The index `add_string_constant` hands out for `s` against table
/// `tbl`: the first entry with equal contents, if there is one.
pub open spec fn str_index_of(tbl: Seq<Seq<char>>, s: Seq<char>) -> Option<int>
    decreases tbl.len(),
{
    if tbl.len() == 0 {
        Option::None
    } else if tbl[0] == s {
        Option::Some(0)
    } else {
        match str_index_of(tbl.drop_first(), s) {
            Option::Some(i) => Option::Some(i + 1),
            Option::None => Option::None,
        }
    }
}

/// The table and index that interning `s` into `tbl` produces: the
/// existing entry's index if the contents are already there, else the
/// table grown by one.
pub open spec fn add_string_spec(tbl: Seq<Seq<char>>, s: Seq<char>) -> (Seq<Seq<char>>, int) {
    match str_index_of(tbl, s) {
        Option::Some(i) => (tbl, i),
        Option::None => (tbl.push(s), tbl.len() as int),
    }
}

/// What a found index means: the entry matches and no earlier one does.
pub proof fn lemma_str_index_of_found(tbl: Seq<Seq<char>>, s: Seq<char>)
    ensures
        match str_index_of(tbl, s) {
            Option::Some(i) => 0 <= i < tbl.len() && tbl[i] == s && forall|j: int|
                0 <= j < i ==> tbl[j] != s,
            Option::None => forall|j: int| 0 <= j < tbl.len() ==> tbl[j] != s,
        },
    decreases tbl.len(),
{
    if tbl.len() > 0 && tbl[0] != s {
        let tl = tbl.drop_first();
        lemma_str_index_of_found(tl, s);
        match str_index_of(tl, s) {
            Option::Some(i) => {
                assert(tl[i] == tbl[i + 1]);
                assert forall|j: int| 0 <= j < i + 1 implies tbl[j] != s by {
                    if j > 0 {
                        assert(tl[j - 1] == tbl[j]);
                    }
                }
            },
            Option::None => {
                assert forall|j: int| 0 <= j < tbl.len() implies tbl[j] != s by {
                    if j > 0 {
                        assert(tl[j - 1] == tbl[j]);
                    }
                }
            },
        }
    }
}

/// The first matching entry is the one `str_index_of` returns.
pub proof fn lemma_str_index_of_first(tbl: Seq<Seq<char>>, s: Seq<char>, i: int)
    requires
        0 <= i < tbl.len(),
        tbl[i] == s,
        forall|j: int| 0 <= j < i ==> tbl[j] != s,
    ensures
        str_index_of(tbl, s) == Option::Some(i),
    decreases tbl.len(),
{
    if i > 0 {
        assert(tbl.drop_first()[i - 1] == s);
        assert forall|j: int| 0 <= j < i - 1 implies tbl.drop_first()[j] != s by {
            assert(tbl.drop_first()[j] == tbl[j + 1]);
        }
        lemma_str_index_of_first(tbl.drop_first(), s, i - 1);
    }
}

/// Interning is idempotent: a second call with equal contents returns
/// the same index and leaves the table as it is, and the table grows by
/// one exactly when the contents were new.
pub proof fn lemma_add_string_idempotent(tbl: Seq<Seq<char>>, s: Seq<char>)
    ensures
        ({
            let (t1, i1) = add_string_spec(tbl, s);
            let (t2, i2) = add_string_spec(t1, s);
            &&& t2 == t1
            &&& i2 == i1
            &&& 0 <= i1 < t1.len()
            &&& t1[i1] == s
            &&& t1.len() == tbl.len() + (if str_index_of(tbl, s) is Some {
                0int
            } else {
                1int
            })
        }),
{
    lemma_str_index_of_found(tbl, s);
    match str_index_of(tbl, s) {
        Option::Some(i) => {
            lemma_str_index_of_first(tbl, s, i);
        },
        Option::None => {
            let t1 = tbl.push(s);
            assert(t1[tbl.len() as int] == s);
            assert forall|j: int| 0 <= j < tbl.len() implies t1[j] != s by {
                assert(t1[j] == tbl[j]);
            }
            lemma_str_index_of_first(t1, s, tbl.len() as int);
        },
    }
}

impl Program {
    /// An empty program: no functions, no strings, no variables, entry 0.
    pub fn new() -> (r: Self)
        ensures
            r@ == (ProgView {
                entry: 0,
                var_size: 0,
                funcs: Seq::empty(),
                strings: Seq::empty(),
            }),
    {
        let r = Self {
            entry_index: 0,
            variable_size: 0,
            functions: Vec::new(),
            strings: Vec::new(),
        };
        proof {
            assert(r@.funcs =~= Seq::<Seq<u64>>::empty());
            assert(r@.strings =~= Seq::<Seq<char>>::empty());
            assert(r@ =~= (ProgView {
                entry: 0,
                var_size: 0,
                funcs: Seq::empty(),
                strings: Seq::empty(),
            }));
        }
        r
    }

    /// Sets the function index execution starts in after the initializer.
    pub fn set_entry_index(&mut self, entry_index: usize)
        ensures
            final(self)@ == (ProgView { entry: entry_index as int, ..old(self)@ }),
    {
        self.entry_index = entry_index;
        proof {
            assert(final(self)@ =~= (ProgView { entry: entry_index as int, ..old(self)@ }));
        }
    }

    /// Interns a string constant and returns its table index: the index
    /// of an existing entry with equal contents, or the index of a new
    /// entry appended at the end.
    pub fn add_string_constant(&mut self, string: String) -> (r: Result<usize, String>)
        ensures
            final(self)@ == (ProgView {
                strings: add_string_spec(old(self)@.strings, string@).0,
                ..old(self)@
            }),
            r matches Ok(i) && i as int == add_string_spec(old(self)@.strings, string@).1,
    {
        let ghost tbl = self@.strings;
        let n = self.strings.len();
        let mut i: usize = 0;
        while i < n
            invariant
                n == self.strings.len(),
                i <= n,
                tbl == self@.strings,
                forall|j: int| 0 <= j < i ==> tbl[j] != string@,
                self == old(self),
            decreases n - i,
        {
            let cand: &String = &self.strings[i];
            if *cand == string {
                proof {
                    assert(tbl[i as int] == string@);
                    lemma_str_index_of_first(tbl, string@, i as int);
                }
                return Ok(i);
            }
            proof {
                assert(tbl[i as int] == self.strings@[i as int]@);
            }
            i = i + 1;
        }
        proof {
            lemma_str_index_of_found(tbl, string@);
            if str_index_of(tbl, string@) is Some {
                let k = str_index_of(tbl, string@)->Some_0;
                assert(tbl[k] == string@);
                assert(false);
            }
        }
        self.strings.push(string);
        proof {
            assert(final(self)@.strings =~= add_string_spec(tbl, string@).0);
            assert(final(self)@ =~= (ProgView {
                strings: add_string_spec(old(self)@.strings, string@).0,
                ..old(self)@
            }));
        }
        Ok(n)
    }
}

// Opcode words.  Numbering is stable: 0 is reserved, and decoding reads
// the low byte of the opcode word.
pub const OP_NO_OP: u64 = 0;

pub const OP_PUSH_BOOL: u64 = 1;

pub const OP_PUSH_INT: u64 = 2;

pub const OP_PUSH_STR: u64 = 3;

pub const OP_DUP: u64 = 4;

pub const OP_OVER: u64 = 5;

pub const OP_DROP: u64 = 6;

pub const OP_SWAP: u64 = 7;

pub const OP_PRINT_BOOL: u64 = 8;

pub const OP_PRINT_INT: u64 = 9;

pub const OP_PRINT_STR: u64 = 10;

pub const OP_CALL: u64 = 11;

pub const OP_RETURN: u64 = 12;

pub const OP_ADD: u64 = 13;

pub const OP_SUBTRACT: u64 = 14;

pub const OP_MULTIPLY: u64 = 15;

pub const OP_DIVIDE: u64 = 16;

pub const OP_AND: u64 = 17;

pub const OP_OR: u64 = 18;

pub const OP_NOT: u64 = 19;

pub const OP_EQ: u64 = 20;

pub const OP_NEQ: u64 = 21;

pub const OP_LT: u64 = 22;

pub const OP_GT: u64 = 23;

pub const OP_ASSIGN: u64 = 24;

pub const OP_LOAD: u64 = 25;

pub const OP_JUMP: u64 = 26;

pub const OP_JUMP_TRUE: u64 = 27;

pub const OP_JUMP_FALSE: u64 = 28;

pub const OP_BIND: u64 = 29;

pub const OP_UNBIND: u64 = 30;

pub const OP_PUSH_BIND: u64 = 31;

pub const OP_PUSH_VAR: u64 = 32;

pub const OP_MAKE_VAR: u64 = 33;

pub const OP_LOAD_STR: u64 = 34;

/// The instruction set of the machine.
///
/// Key to the comments: `()` is an immediate word in the code, `[]` is
/// the data stack, `{}` is the bind stack; `-a` is peeked, not popped.
#[derive(Clone, Copy, Debug, PartialEq, Eq, Structural)]
pub enum Instruction {
    /// Reserved; executing it is a fatal error.
    NoOp,
    /// (a) -> [a]
    PushBool,
    /// (a) -> [a]
    PushInt,
    /// (string table index k) -> [k]
    PushStr,
    /// [-a] -> [a, a]
    Dup,
    /// [-a, -b] -> [a, b, a]
    Over,
    /// [a] -> []
    Drop,
    /// [a, b] -> [b, a]
    Swap,
    /// [a] -> [], prints a line
    PrintBool,
    /// [a] -> [], prints a line
    PrintInt,
    /// [k] -> [], prints a line
    PrintStr,
    /// (fid); pushes the return address and caller on the return stack
    Call,
    /// pops the return stack, or ends the entry function
    Return,
    /// [a, b] -> [a + b], wrapping
    Add,
    /// [a, b] -> [a - b], wrapping
    Subtract,
    /// [a, b] -> [a * b], wrapping
    Multiply,
    /// [a, b] -> [a / b], truncated and wrapping; b = 0 is fatal
    Divide,
    /// [a, b] -> [a && b], on words read as booleans
    And,
    /// [a, b] -> [a || b]
    Or,
    /// [a] -> [!a]
    Not,
    /// [a, b] -> [a == b]
    Eq,
    /// [a, b] -> [a != b]
    Neq,
    /// [a, b] -> [a < b]
    Lt,
    /// [a, b] -> [a > b]
    Gt,
    /// [value, cell] -> []; stores into the variable cell
    Assign,
    /// [cell] -> [value]; loads from the variable cell
    Load,
    /// (relative jump)
    Jump,
    /// (relative jump) [a] -> []
    JumpTrue,
    /// (relative jump) [a] -> []
    JumpFalse,
    /// (n) moves the top n data words to the bind stack
    Bind,
    /// (n) drops the top n bind words
    Unbind,
    /// (i) [] -> [bind[i]]
    PushBind,
    /// (slot) [] -> [slot]
    PushVar,
    /// (slot) [a] -> []; stores into the slot
    MakeVar,
    /// Declared but not implemented; executing it is a fatal error.
    LoadStr,
}

/// The opcode word an instruction is encoded as.
pub open spec fn opcode_of(i: Instruction) -> u64 {
    match i {
        Instruction::NoOp => OP_NO_OP,
        Instruction::PushBool => OP_PUSH_BOOL,
        Instruction::PushInt => OP_PUSH_INT,
        Instruction::PushStr => OP_PUSH_STR,
        Instruction::Dup => OP_DUP,
        Instruction::Over => OP_OVER,
        Instruction::Drop => OP_DROP,
        Instruction::Swap => OP_SWAP,
        Instruction::PrintBool => OP_PRINT_BOOL,
        Instruction::PrintInt => OP_PRINT_INT,
        Instruction::PrintStr => OP_PRINT_STR,
        Instruction::Call => OP_CALL,
        Instruction::Return => OP_RETURN,
        Instruction::Add => OP_ADD,
        Instruction::Subtract => OP_SUBTRACT,
        Instruction::Multiply => OP_MULTIPLY,
        Instruction::Divide => OP_DIVIDE,
        Instruction::And => OP_AND,
        Instruction::Or => OP_OR,
        Instruction::Not => OP_NOT,
        Instruction::Eq => OP_EQ,
        Instruction::Neq => OP_NEQ,
        Instruction::Lt => OP_LT,
        Instruction::Gt => OP_GT,
        Instruction::Assign => OP_ASSIGN,
        Instruction::Load => OP_LOAD,
        Instruction::Jump => OP_JUMP,
        Instruction::JumpTrue => OP_JUMP_TRUE,
        Instruction::JumpFalse => OP_JUMP_FALSE,
        Instruction::Bind => OP_BIND,
        Instruction::Unbind => OP_UNBIND,
        Instruction::PushBind => OP_PUSH_BIND,
        Instruction::PushVar => OP_PUSH_VAR,
        Instruction::MakeVar => OP_MAKE_VAR,
        Instruction::LoadStr => OP_LOAD_STR,
    }
}

/// Encodes an instruction as its opcode word.
pub fn opcode(i: Instruction) -> (r: u64)
    ensures
        r == opcode_of(i),
{
    match i {
        Instruction::NoOp => OP_NO_OP,
        Instruction::PushBool => OP_PUSH_BOOL,
        Instruction::PushInt => OP_PUSH_INT,
        Instruction::PushStr => OP_PUSH_STR,
        Instruction::Dup => OP_DUP,
        Instruction::Over => OP_OVER,
        Instruction::Drop => OP_DROP,
        Instruction::Swap => OP_SWAP,
        Instruction::PrintBool => OP_PRINT_BOOL,
        Instruction::PrintInt => OP_PRINT_INT,
        Instruction::PrintStr => OP_PRINT_STR,
        Instruction::Call => OP_CALL,
        Instruction::Return => OP_RETURN,
        Instruction::Add => OP_ADD,
        Instruction::Subtract => OP_SUBTRACT,
        Instruction::Multiply => OP_MULTIPLY,
        Instruction::Divide => OP_DIVIDE,
        Instruction::And => OP_AND,
        Instruction::Or => OP_OR,
        Instruction::Not => OP_NOT,
        Instruction::Eq => OP_EQ,
        Instruction::Neq => OP_NEQ,
        Instruction::Lt => OP_LT,
        Instruction::Gt => OP_GT,
        Instruction::Assign => OP_ASSIGN,
        Instruction::Load => OP_LOAD,
        Instruction::Jump => OP_JUMP,
        Instruction::JumpTrue => OP_JUMP_TRUE,
        Instruction::JumpFalse => OP_JUMP_FALSE,
        Instruction::Bind => OP_BIND,
        Instruction::Unbind => OP_UNBIND,
        Instruction::PushBind => OP_PUSH_BIND,
        Instruction::PushVar => OP_PUSH_VAR,
        Instruction::MakeVar => OP_MAKE_VAR,
        Instruction::LoadStr => OP_LOAD_STR,
    }
}

/// The instruction an opcode word decodes to, dispatching on its low
/// byte; `None` when the byte names no instruction.
pub open spec fn decode_op(w: u64) -> Option<Instruction> {
    let b = w % 256;
    if b == OP_NO_OP {
        Option::Some(Instruction::NoOp)
    } else if b == OP_PUSH_BOOL {
        Option::Some(Instruction::PushBool)
    } else if b == OP_PUSH_INT {
        Option::Some(Instruction::PushInt)
    } else if b == OP_PUSH_STR {
        Option::Some(Instruction::PushStr)
    } else if b == OP_DUP {
        Option::Some(Instruction::Dup)
    } else if b == OP_OVER {
        Option::Some(Instruction::Over)
    } else if b == OP_DROP {
        Option::Some(Instruction::Drop)
    } else if b == OP_SWAP {
        Option::Some(Instruction::Swap)
    } else if b == OP_PRINT_BOOL {
        Option::Some(Instruction::PrintBool)
    } else if b == OP_PRINT_INT {
        Option::Some(Instruction::PrintInt)
    } else if b == OP_PRINT_STR {
        Option::Some(Instruction::PrintStr)
    } else if b == OP_CALL {
        Option::Some(Instruction::Call)
    } else if b == OP_RETURN {
        Option::Some(Instruction::Return)
    } else if b == OP_ADD {
        Option::Some(Instruction::Add)
    } else if b == OP_SUBTRACT {
        Option::Some(Instruction::Subtract)
    } else if b == OP_MULTIPLY {
        Option::Some(Instruction::Multiply)
    } else if b == OP_DIVIDE {
        Option::Some(Instruction::Divide)
    } else if b == OP_AND {
        Option::Some(Instruction::And)
    } else if b == OP_OR {
        Option::Some(Instruction::Or)
    } else if b == OP_NOT {
        Option::Some(Instruction::Not)
    } else if b == OP_EQ {
        Option::Some(Instruction::Eq)
    } else if b == OP_NEQ {
        Option::Some(Instruction::Neq)
    } else if b == OP_LT {
        Option::Some(Instruction::Lt)
    } else if b == OP_GT {
        Option::Some(Instruction::Gt)
    } else if b == OP_ASSIGN {
        Option::Some(Instruction::Assign)
    } else if b == OP_LOAD {
        Option::Some(Instruction::Load)
    } else if b == OP_JUMP {
        Option::Some(Instruction::Jump)
    } else if b == OP_JUMP_TRUE {
        Option::Some(Instruction::JumpTrue)
    } else if b == OP_JUMP_FALSE {
        Option::Some(Instruction::JumpFalse)
    } else if b == OP_BIND {
        Option::Some(Instruction::Bind)
    } else if b == OP_UNBIND {
        Option::Some(Instruction::Unbind)
    } else if b == OP_PUSH_BIND {
        Option::Some(Instruction::PushBind)
    } else if b == OP_PUSH_VAR {
        Option::Some(Instruction::PushVar)
    } else if b == OP_MAKE_VAR {
        Option::Some(Instruction::MakeVar)
    } else if b == OP_LOAD_STR {
        Option::Some(Instruction::LoadStr)
    } else {
        Option::None
    }
}

/// Decodes the low byte of an opcode word.
pub fn decode(w: u64) -> (r: Option<Instruction>)
    ensures
        r == decode_op(w),
{
    let b = w % 256;
    if b == OP_NO_OP {
        Some(Instruction::NoOp)
    } else if b == OP_PUSH_BOOL {
        Some(Instruction::PushBool)
    } else if b == OP_PUSH_INT {
        Some(Instruction::PushInt)
    } else if b == OP_PUSH_STR {
        Some(Instruction::PushStr)
    } else if b == OP_DUP {
        Some(Instruction::Dup)
    } else if b == OP_OVER {
        Some(Instruction::Over)
    } else if b == OP_DROP {
        Some(Instruction::Drop)
    } else if b == OP_SWAP {
        Some(Instruction::Swap)
    } else if b == OP_PRINT_BOOL {
        Some(Instruction::PrintBool)
    } else if b == OP_PRINT_INT {
        Some(Instruction::PrintInt)
    } else if b == OP_PRINT_STR {
        Some(Instruction::PrintStr)
    } else if b == OP_CALL {
        Some(Instruction::Call)
    } else if b == OP_RETURN {
        Some(Instruction::Return)
    } else if b == OP_ADD {
        Some(Instruction::Add)
    } else if b == OP_SUBTRACT {
        Some(Instruction::Subtract)
    } else if b == OP_MULTIPLY {
        Some(Instruction::Multiply)
    } else if b == OP_DIVIDE {
        Some(Instruction::Divide)
    } else if b == OP_AND {
        Some(Instruction::And)
    } else if b == OP_OR {
        Some(Instruction::Or)
    } else if b == OP_NOT {
        Some(Instruction::Not)
    } else if b == OP_EQ {
        Some(Instruction::Eq)
    } else if b == OP_NEQ {
        Some(Instruction::Neq)
    } else if b == OP_LT {
        Some(Instruction::Lt)
    } else if b == OP_GT {
        Some(Instruction::Gt)
    } else if b == OP_ASSIGN {
        Some(Instruction::Assign)
    } else if b == OP_LOAD {
        Some(Instruction::Load)
    } else if b == OP_JUMP {
        Some(Instruction::Jump)
    } else if b == OP_JUMP_TRUE {
        Some(Instruction::JumpTrue)
    } else if b == OP_JUMP_FALSE {
        Some(Instruction::JumpFalse)
    } else if b == OP_BIND {
        Some(Instruction::Bind)
    } else if b == OP_UNBIND {
        Some(Instruction::Unbind)
    } else if b == OP_PUSH_BIND {
        Some(Instruction::PushBind)
    } else if b == OP_PUSH_VAR {
        Some(Instruction::PushVar)
    } else if b == OP_MAKE_VAR {
        Some(Instruction::MakeVar)
    } else if b == OP_LOAD_STR {
        Some(Instruction::LoadStr)
    } else {
        None
    }
}

/// The errors that halt the machine.
///
/// `StepLimit` is reported when execution has not returned from the
/// entry function within the step budget of [`evaluate`].
#[derive(Clone, Copy, Debug, PartialEq, Eq, Structural)]
pub enum VmError {
    StackUnderflow,
    DivisionByZero,
    UnknownOpcode,
    UnsupportedInstruction,
    TruncatedInstruction,
    SlotOutOfRange,
    StringOutOfRange,
    BindOutOfRange,
    FunctionOutOfRange,
    StepLimit,
}

/// Mathematical view of the machine's mutable state.
#[verifier::ext_equal]
pub struct VmView {
    /// Index of the function being executed.
    pub cur: int,
    /// Instruction pointer: a word position in that function's code.
    pub ip: int,
    /// The data stack, top last.
    pub data: Seq<i64>,
    /// The return stack: alternating return address and caller index.
    pub ret: Seq<int>,
    /// The bind stack, top last.
    pub bind: Seq<i64>,
    /// The variable cells.
    pub vars: Seq<i64>,
    /// The lines printed so far.
    pub out: Seq<Seq<char>>,
}

/// The outcome of one dispatch at the current instruction pointer.
pub enum Step {
    /// An instruction executed; the machine continues.
    Next(VmView),
    /// The instruction pointer reached the end of the current code.
    EndOfCode(VmView),
    /// A `Return` executed with an empty return stack.
    MainReturn(VmView),
    /// A fatal error.
    Fail(VmError, VmView),
}

/// The signed value whose two's-complement bit pattern is `w`.
pub open spec fn u64_to_i64(w: u64) -> i64 {
    if w <= i64::MAX as u64 {
        w as i64
    } else {
        (w as int - 0x1_0000_0000_0000_0000) as i64
    }
}

/// The bit pattern of `v` as an unsigned word.
pub open spec fn i64_to_u64(v: i64) -> u64 {
    if v >= 0 {
        v as u64
    } else {
        (v as int + 0x1_0000_0000_0000_0000) as u64
    }
}

/// Truncated division, wrapping at `i64::MIN / -1`.
pub open spec fn div_wrap(a: i64, b: i64) -> i64 {
    match a.checked_div(b) {
        Option::Some(q) => q,
        Option::None => i64::MIN,
    }
}

/// A word read as a boolean result: 1 for true, 0 for false.
pub open spec fn b2w(b: bool) -> i64 {
    if b {
        1
    } else {
        0
    }
}

/// The state with `v` pushed on the data stack.
pub open spec fn push_word(s: VmView, v: i64) -> VmView {
    VmView { data: s.data.push(v), ..s }
}

/// The immediate word at the instruction pointer, and the state past it.
pub open spec fn imm_of(code: Seq<u64>, s: VmView) -> Option<(u64, VmView)> {
    if 0 <= s.ip < code.len() {
        Option::Some((code[s.ip], VmView { ip: s.ip + 1, ..s }))
    } else {
        Option::None
    }
}

/// The top data word and the state with it popped.
pub open spec fn pop_word(s: VmView) -> Option<(i64, VmView)> {
    if s.data.len() >= 1 {
        Option::Some((s.data.last(), VmView { data: s.data.drop_last(), ..s }))
    } else {
        Option::None
    }
}

/// The state after a relative jump from `s.ip`; a target outside the
/// code sends the pointer to the end, where execution runs off the code.
pub open spec fn jump_to(code: Seq<u64>, s: VmView, rel: i64) -> VmView {
    let t = s.ip + rel as int;
    if 0 <= t <= code.len() {
        VmView { ip: t, ..s }
    } else {
        VmView { ip: code.len() as int, ..s }
    }
}

/// The effect of instruction `op` in function code `code`, starting
/// from the state just past the opcode word.
pub open spec fn step_op(p: ProgView, code: Seq<u64>, s: VmView, op: Instruction) -> Step {
    match op {
        Instruction::NoOp => Step::Fail(VmError::UnsupportedInstruction, s),
        Instruction::PushBool => match imm_of(code, s) {
            Option::None => Step::Fail(VmError::TruncatedInstruction, s),
            Option::Some((w, s2)) => Step::Next(push_word(s2, u64_to_i64(w))),
        },
        Instruction::PushInt => match imm_of(code, s) {
            Option::None => Step::Fail(VmError::TruncatedInstruction, s),
            Option::Some((w, s2)) => Step::Next(push_word(s2, u64_to_i64(w))),
        },
        Instruction::PushStr => match imm_of(code, s) {
            Option::None => Step::Fail(VmError::TruncatedInstruction, s),
            Option::Some((w, s2)) => if w <= i64::MAX as u64 && (w as int) < p.strings.len() {
                Step::Next(push_word(s2, w as i64))
            } else {
                Step::Fail(VmError::StringOutOfRange, s2)
            },
        },
        Instruction::Dup => if s.data.len() >= 1 {
            Step::Next(push_word(s, s.data.last()))
        } else {
            Step::Fail(VmError::StackUnderflow, s)
        },
        Instruction::Over => if s.data.len() >= 2 {
            Step::Next(push_word(s, s.data[s.data.len() - 2]))
        } else {
            Step::Fail(VmError::StackUnderflow, s)
        },
        Instruction::Drop => match pop_word(s) {
            Option::None => Step::Fail(VmError::StackUnderflow, s),
            Option::Some((_, s2)) => Step::Next(s2),
        },
        Instruction::Swap => match pop_word(s) {
            Option::None => Step::Fail(VmError::StackUnderflow, s),
            Option::Some((a, s2)) => match pop_word(s2) {
                Option::None => Step::Fail(VmError::StackUnderflow, s2),
                Option::Some((b, s3)) => Step::Next(push_word(push_word(s3, a), b)),
            },
        },
        Instruction::PrintBool => match pop_word(s) {
            Option::None => Step::Fail(VmError::StackUnderflow, s),
            Option::Some((v, s2)) => Step::Next(
                VmView { out: s2.out.push(bool_str(v != 0)), ..s2 },
            ),
        },
        Instruction::PrintInt => match pop_word(s) {
            Option::None => Step::Fail(VmError::StackUnderflow, s),
            Option::Some((v, s2)) => Step::Next(VmView { out: s2.out.push(int_str(v as int)), ..s2 }),
        },
        Instruction::PrintStr => match pop_word(s) {
            Option::None => Step::Fail(VmError::StackUnderflow, s),
            Option::Some((v, s2)) => if 0 <= v < p.strings.len() {
                Step::Next(VmView { out: s2.out.push(p.strings[v as int]), ..s2 })
            } else {
                Step::Fail(VmError::StringOutOfRange, s2)
            },
        },
        Instruction::Call => match imm_of(code, s) {
            Option::None => Step::Fail(VmError::TruncatedInstruction, s),
            Option::Some((w, s2)) => if w <= usize::MAX as u64 {
                Step::Next(
                    VmView { cur: w as int, ip: 0, ret: s2.ret.push(s2.ip).push(s2.cur), ..s2 },
                )
            } else {
                Step::Fail(VmError::FunctionOutOfRange, s2)
            },
        },
        Instruction::Return => if s.ret.len() < 2 {
            Step::MainReturn(s)
        } else {
            Step::Next(
                VmView {
                    cur: s.ret.last(),
                    ip: s.ret[s.ret.len() - 2],
                    ret: s.ret.take(s.ret.len() - 2),
                    ..s
                },
            )
        },
        Instruction::Add => match pop_word(s) {
            Option::None => Step::Fail(VmError::StackUnderflow, s),
            Option::Some((b, s2)) => match pop_word(s2) {
                Option::None => Step::Fail(VmError::StackUnderflow, s2),
                Option::Some((a, s3)) => Step::Next(
                    push_word(s3, vstd::wrapping::i64_specs::wrapping_add(a, b)),
                ),
            },
        },
        Instruction::Subtract => match pop_word(s) {
            Option::None => Step::Fail(VmError::StackUnderflow, s),
            Option::Some((b, s2)) => match pop_word(s2) {
                Option::None => Step::Fail(VmError::StackUnderflow, s2),
                Option::Some((a, s3)) => Step::Next(
                    push_word(s3, vstd::wrapping::i64_specs::wrapping_sub(a, b)),
                ),
            },
        },
        Instruction::Multiply => match pop_word(s) {
            Option::None => Step::Fail(VmError::StackUnderflow, s),
            Option::Some((b, s2)) => match pop_word(s2) {
                Option::None => Step::Fail(VmError::StackUnderflow, s2),
                Option::Some((a, s3)) => Step::Next(
                    push_word(s3, vstd::wrapping::i64_specs::wrapping_mul(a, b)),
                ),
            },
        },
        Instruction::Divide => match pop_word(s) {
            Option::None => Step::Fail(VmError::StackUnderflow, s),
            Option::Some((b, s2)) => match pop_word(s2) {
                Option::None => Step::Fail(VmError::StackUnderflow, s2),
                Option::Some((a, s3)) => if b == 0 {
                    Step::Fail(VmError::DivisionByZero, s3)
                } else {
                    Step::Next(push_word(s3, div_wrap(a, b)))
                },
            },
        },
        Instruction::And => match pop_word(s) {
            Option::None => Step::Fail(VmError::StackUnderflow, s),
            Option::Some((b, s2)) => match pop_word(s2) {
                Option::None => Step::Fail(VmError::StackUnderflow, s2),
                Option::Some((a, s3)) => Step::Next(push_word(s3, b2w(a != 0 && b != 0))),
            },
        },
        Instruction::Or => match pop_word(s) {
            Option::None => Step::Fail(VmError::StackUnderflow, s),
            Option::Some((b, s2)) => match pop_word(s2) {
                Option::None => Step::Fail(VmError::StackUnderflow, s2),
                Option::Some((a, s3)) => Step::Next(push_word(s3, b2w(a != 0 || b != 0))),
            },
        },
        Instruction::Not => match pop_word(s) {
            Option::None => Step::Fail(VmError::StackUnderflow, s),
            Option::Some((v, s2)) => Step::Next(push_word(s2, b2w(v == 0))),
        },
        Instruction::Eq => match pop_word(s) {
            Option::None => Step::Fail(VmError::StackUnderflow, s),
            Option::Some((b, s2)) => match pop_word(s2) {
                Option::None => Step::Fail(VmError::StackUnderflow, s2),
                Option::Some((a, s3)) => Step::Next(push_word(s3, b2w(a == b))),
            },
        },
        Instruction::Neq => match pop_word(s) {
            Option::None => Step::Fail(VmError::StackUnderflow, s),
            Option::Some((b, s2)) => match pop_word(s2) {
                Option::None => Step::Fail(VmError::StackUnderflow, s2),
                Option::Some((a, s3)) => Step::Next(push_word(s3, b2w(a != b))),
            },
        },
        Instruction::Lt => match pop_word(s) {
            Option::None => Step::Fail(VmError::StackUnderflow, s),
            Option::Some((b, s2)) => match pop_word(s2) {
                Option::None => Step::Fail(VmError::StackUnderflow, s2),
                Option::Some((a, s3)) => Step::Next(push_word(s3, b2w(a < b))),
            },
        },
        Instruction::Gt => match pop_word(s) {
            Option::None => Step::Fail(VmError::StackUnderflow, s),
            Option::Some((b, s2)) => match pop_word(s2) {
                Option::None => Step::Fail(VmError::StackUnderflow, s2),
                Option::Some((a, s3)) => Step::Next(push_word(s3, b2w(a > b))),
            },
        },
        Instruction::Assign => match pop_word(s) {
            Option::None => Step::Fail(VmError::StackUnderflow, s),
            Option::Some((ptr, s2)) => match pop_word(s2) {
                Option::None => Step::Fail(VmError::StackUnderflow, s2),
                Option::Some((v, s3)) => if 0 <= ptr < s3.vars.len() {
                    Step::Next(VmView { vars: s3.vars.update(ptr as int, v), ..s3 })
                } else {
                    Step::Fail(VmError::SlotOutOfRange, s3)
                },
            },
        },
        Instruction::Load => match pop_word(s) {
            Option::None => Step::Fail(VmError::StackUnderflow, s),
            Option::Some((ptr, s2)) => if 0 <= ptr < s2.vars.len() {
                Step::Next(push_word(s2, s2.vars[ptr as int]))
            } else {
                Step::Fail(VmError::SlotOutOfRange, s2)
            },
        },
        Instruction::Jump => match imm_of(code, s) {
            Option::None => Step::Fail(VmError::TruncatedInstruction, s),
            Option::Some((w, s2)) => Step::Next(jump_to(code, s2, u64_to_i64(w))),
        },
        Instruction::JumpTrue => match imm_of(code, s) {
            Option::None => Step::Fail(VmError::TruncatedInstruction, s),
            Option::Some((w, s2)) => match pop_word(s2) {
                Option::None => Step::Fail(VmError::StackUnderflow, s2),
                Option::Some((v, s3)) => if v != 0 {
                    Step::Next(jump_to(code, s3, u64_to_i64(w)))
                } else {
                    Step::Next(s3)
                },
            },
        },
        Instruction::JumpFalse => match imm_of(code, s) {
            Option::None => Step::Fail(VmError::TruncatedInstruction, s),
            Option::Some((w, s2)) => match pop_word(s2) {
                Option::None => Step::Fail(VmError::StackUnderflow, s2),
                Option::Some((v, s3)) => if v == 0 {
                    Step::Next(jump_to(code, s3, u64_to_i64(w)))
                } else {
                    Step::Next(s3)
                },
            },
        },
        Instruction::Bind => match imm_of(code, s) {
            Option::None => Step::Fail(VmError::TruncatedInstruction, s),
            Option::Some((w, s2)) => if w as int <= s2.data.len() {
                Step::Next(
                    VmView {
                        data: s2.data.take(s2.data.len() - w as int),
                        bind: s2.bind + s2.data.subrange(s2.data.len() - w as int, s2.data.len() as int),
                        ..s2
                    },
                )
            } else {
                Step::Fail(VmError::StackUnderflow, s2)
            },
        },
        Instruction::Unbind => match imm_of(code, s) {
            Option::None => Step::Fail(VmError::TruncatedInstruction, s),
            Option::Some((w, s2)) => if w as int <= s2.bind.len() {
                Step::Next(VmView { bind: s2.bind.take(s2.bind.len() - w as int), ..s2 })
            } else {
                Step::Fail(VmError::StackUnderflow, s2)
            },
        },
        Instruction::PushBind => match imm_of(code, s) {
            Option::None => Step::Fail(VmError::TruncatedInstruction, s),
            Option::Some((w, s2)) => if (w as int) < s2.bind.len() {
                Step::Next(push_word(s2, s2.bind[w as int]))
            } else {
                Step::Fail(VmError::BindOutOfRange, s2)
            },
        },
        Instruction::PushVar => match imm_of(code, s) {
            Option::None => Step::Fail(VmError::TruncatedInstruction, s),
            Option::Some((w, s2)) => if w <= i64::MAX as u64 && (w as int) < s2.vars.len() {
                Step::Next(push_word(s2, w as i64))
            } else {
                Step::Fail(VmError::SlotOutOfRange, s2)
            },
        },
        Instruction::MakeVar => match imm_of(code, s) {
            Option::None => Step::Fail(VmError::TruncatedInstruction, s),
            Option::Some((w, s2)) => match pop_word(s2) {
                Option::None => Step::Fail(VmError::StackUnderflow, s2),
                Option::Some((v, s3)) => if (w as int) < s3.vars.len() {
                    Step::Next(VmView { vars: s3.vars.update(w as int, v), ..s3 })
                } else {
                    Step::Fail(VmError::SlotOutOfRange, s3)
                },
            },
        },
        Instruction::LoadStr => Step::Fail(VmError::UnsupportedInstruction, s),
    }
}

/// The signed value whose bit pattern is `w`, computed.
pub fn word_to_i64(w: u64) -> (r: i64)
    ensures
        r == u64_to_i64(w),
{
    if w <= i64::MAX as u64 {
        w as i64
    } else {
        ((w - 0x8000_0000_0000_0000u64) as i64) + i64::MIN
    }
}

/// The bit pattern of `v` as an unsigned word, computed.
pub fn i64_to_word(v: i64) -> (r: u64)
    ensures
        r == i64_to_u64(v),
{
    if v >= 0 {
        v as u64
    } else {
        ((v - i64::MIN) as u64) + 0x8000_0000_0000_0000u64
    }
}

/// The two conversions are inverse to each other.
pub proof fn lemma_word_i64_inverse(w: u64, v: i64)
    ensures
        i64_to_u64(u64_to_i64(w)) == w,
        u64_to_i64(i64_to_u64(v)) == v,
{
}

/// One dispatch of the machine: total over every state, so every
/// reachable configuration has a defined outcome.
pub open spec fn step(p: ProgView, s: VmView) -> Step {
    if !(0 <= s.cur < p.funcs.len()) {
        Step::Fail(VmError::FunctionOutOfRange, s)
    } else {
        let code = p.funcs[s.cur];
        if !(0 <= s.ip < code.len()) {
            Step::EndOfCode(s)
        } else {
            let w = code[s.ip];
            let s1 = VmView { ip: s.ip + 1, ..s };
            match decode_op(w) {
                Option::None => Step::Fail(VmError::UnknownOpcode, s1),
                Option::Some(op) => step_op(p, code, s1, op),
            }
        }
    }
}

/// The views of the printed lines.
pub open spec fn lines_view(s: Seq<String>) -> Seq<Seq<char>> {
    s.map_values(|x: String| x@)
}

/// The machine state execution starts in: the initializer function,
/// empty stacks, zeroed variable cells, nothing printed.
pub open spec fn init_vm(p: ProgView) -> VmView {
    VmView {
        cur: 0,
        ip: 0,
        data: Seq::empty(),
        ret: Seq::empty(),
        bind: Seq::empty(),
        vars: Seq::new(p.var_size as nat, |i: int| 0i64),
        out: Seq::empty(),
    }
}

/// A machine state together with the phase it runs in: the initializer
/// (function 0, run to the end of its code) or the entry function.
#[verifier::ext_equal]
pub struct RunState {
    pub in_init: bool,
    pub vm: VmView,
}

/// The outcome after some number of dispatches.
pub enum RunRes {
    Going(RunState),
    Done(VmView),
    Fail(VmError, VmView),
}

/// One transition of the whole run: a dispatch, plus the phase logic.
/// Running off the initializer's code enters the entry function; in the
/// entry phase, running off the code or returning from the outermost
/// frame ends the program.  A `Return` from the outermost frame during
/// the initializer continues the initializer, as the machine only
/// watches the instruction pointer there.
pub open spec fn run_trans(p: ProgView, rs: RunState) -> RunRes {
    match step(p, rs.vm) {
        Step::Next(s) => RunRes::Going(RunState { in_init: rs.in_init, vm: s }),
        Step::EndOfCode(s) => if rs.in_init {
            RunRes::Going(RunState { in_init: false, vm: VmView { cur: p.entry, ip: 0, ..s } })
        } else {
            RunRes::Done(s)
        },
        Step::MainReturn(s) => if rs.in_init {
            RunRes::Going(RunState { in_init: true, vm: s })
        } else {
            RunRes::Done(s)
        },
        Step::Fail(e, s) => RunRes::Fail(e, s),
    }
}

/// The run's state after `n` transitions from the initial state.
pub open spec fn run_n(p: ProgView, n: nat) -> RunRes
    decreases n,
{
    if n == 0 {
        RunRes::Going(RunState { in_init: true, vm: init_vm(p) })
    } else {
        match run_n(p, (n - 1) as nat) {
            RunRes::Going(rs) => run_trans(p, rs),
            other => other,
        }
    }
}

/// The machine.  It owns the program it runs and collects the printed
/// lines; `evaluate` is its only entry point.
struct Evaluator {
    program: Program,
    current_function: usize,
    ip: usize,
    data_stack: Vec<i64>,
    return_stack: Vec<usize>,
    bind_stack: Vec<i64>,
    variables: Vec<i64>,
    output: Vec<String>,
}

impl Evaluator {
    spec fn vm_view(&self) -> VmView {
        VmView {
            cur: self.current_function as int,
            ip: self.ip as int,
            data: self.data_stack@,
            ret: self.return_stack@.map_values(|x: usize| x as int),
            bind: self.bind_stack@,
            vars: self.variables@,
            out: lines_view(self.output@),
        }
    }

    fn new(program: Program) -> (r: Self)
        ensures
            r.program == program,
            r.vm_view() == init_vm(program@),
    {
        let variable_size = program.variable_size;
        let mut variables: Vec<i64> = Vec::new();
        let mut i: usize = 0;
        while i < variable_size
            invariant
                i <= variable_size,
                variables@.len() == i as int,
                forall|j: int| 0 <= j < i ==> variables@[j] == 0i64,
            decreases variable_size - i,
        {
            variables.push(0);
            i = i + 1;
        }
        let r = Self {
            program,
            current_function: 0,
            ip: 0,
            data_stack: Vec::new(),
            return_stack: Vec::new(),
            bind_stack: Vec::new(),
            variables,
            output: Vec::new(),
        };
        proof {
            assert(r.vm_view().vars =~= init_vm(program@).vars);
            assert(r.vm_view().ret =~= init_vm(program@).ret);
            assert(r.vm_view().out =~= init_vm(program@).out);
            assert(r.vm_view() =~= init_vm(program@));
        }
        r
    }

    fn prepare_for_program_evaluation(&mut self)
        ensures
            final(self).program == old(self).program,
            final(self).vm_view() == (VmView {
                cur: old(self).program@.entry,
                ip: 0,
                ..old(self).vm_view()
            }),
    {
        self.current_function = self.program.entry_index;
        self.ip = 0;
        proof {
            assert(final(self).vm_view() =~= (VmView {
                cur: old(self).program@.entry,
                ip: 0,
                ..old(self).vm_view()
            }));
        }
    }

    fn into_output(self) -> (r: Vec<String>)
        ensures
            lines_view(r@) == self.vm_view().out,
    {
        self.output
    }

    fn push_data(&mut self, v: i64)
        ensures
            final(self).program == old(self).program,
            final(self).vm_view() == push_word(old(self).vm_view(), v),
    {
        self.data_stack.push(v);
        proof {
            assert(final(self).vm_view() =~= push_word(old(self).vm_view(), v));
        }
    }

    fn pop_data(&mut self) -> (r: Option<i64>)
        ensures
            final(self).program == old(self).program,
            match r {
                Option::Some(v) => pop_word(old(self).vm_view()) == Option::Some(
                    (v, final(self).vm_view()),
                ),
                Option::None => final(self).vm_view() == old(self).vm_view() && pop_word(
                    old(self).vm_view(),
                ) is None,
            },
    {
        let r = self.data_stack.pop();
        proof {
            if r is Some {
                assert(final(self).vm_view() =~= (VmView {
                    data: old(self).vm_view().data.drop_last(),
                    ..old(self).vm_view()
                }));
            }
        }
        r
    }

    fn push_line(&mut self, line: String)
        ensures
            final(self).program == old(self).program,
            final(self).vm_view() == (VmView {
                out: old(self).vm_view().out.push(line@),
                ..old(self).vm_view()
            }),
    {
        self.output.push(line);
        proof {
            assert(lines_view(final(self).output@) =~= lines_view(old(self).output@).push(line@));
            assert(final(self).vm_view() =~= (VmView {
                out: old(self).vm_view().out.push(line@),
                ..old(self).vm_view()
            }));
        }
    }

    fn imm(&mut self) -> (r: Result<u64, VmError>)
        requires
            0 <= old(self).vm_view().cur < old(self).program@.funcs.len(),
        ensures
            final(self).program == old(self).program,
            ({
                let code = old(self).program@.funcs[old(self).vm_view().cur];
                match imm_of(code, old(self).vm_view()) {
                    Option::Some((w, s2)) => r == Result::<u64, VmError>::Ok(w)
                        && final(self).vm_view() == s2,
                    Option::None => r == Result::<u64, VmError>::Err(VmError::TruncatedInstruction)
                        && *final(self) == *old(self),
                }
            }),
    {
        let f = &self.program.functions[self.current_function];
        if self.ip >= f.code.len() {
            return Err(VmError::TruncatedInstruction);
        }
        let w = f.code[self.ip];
        self.ip = self.ip + 1;
        proof {
            let code = old(self).program@.funcs[old(self).vm_view().cur];
            assert(final(self).vm_view() =~= (VmView {
                ip: old(self).vm_view().ip + 1,
                ..old(self).vm_view()
            }));
            assert(imm_of(code, old(self).vm_view()) == Option::Some((w, final(self).vm_view())));
        }
        Ok(w)
    }

    /// Performs a relative jump from the current instruction pointer.
    fn apply_jump(&mut self, rel: i64)
        requires
            0 <= old(self).vm_view().cur < old(self).program@.funcs.len(),
            old(self).vm_view().ip <= old(self).program@.funcs[old(self).vm_view().cur].len(),
        ensures
            final(self).program == old(self).program,
            final(self).vm_view() == jump_to(
                old(self).program@.funcs[old(self).vm_view().cur],
                old(self).vm_view(),
                rel,
            ),
    {
        let len = self.program.functions[self.current_function].code.len();
        if rel >= 0 {
            let mag = rel as u64;
            match (self.ip as u64).checked_add(mag) {
                Some(t) => {
                    if t <= len as u64 {
                        self.ip = t as usize;
                    } else {
                        self.ip = len;
                    }
                },
                None => {
                    self.ip = len;
                },
            }
        } else {
            let mag: u64 = ((-1 - rel) as u64) + 1;
            if mag > self.ip as u64 {
                self.ip = len;
            } else {
                self.ip = self.ip - mag as usize;
            }
        }
        proof {
            assert(final(self).vm_view() =~= jump_to(
                old(self).program@.funcs[old(self).vm_view().cur],
                old(self).vm_view(),
                rel,
            ));
        }
    }


    /// Executes one of `Dup`, `Over`, `Drop`, `Swap`.
    fn exec_stack(&mut self, op: Instruction, Ghost(code): Ghost<Seq<u64>>) -> (r: Result<
        bool,
        VmError,
    >)
        requires
            op is Dup || op is Over || op is Drop || op is Swap,
        ensures
            final(self).program == old(self).program,
            match step_op(old(self).program@, code, old(self).vm_view(), op) {
                Step::Next(s) => r == Result::<bool, VmError>::Ok(false) && final(self).vm_view()
                    == s,
                Step::MainReturn(s) => r == Result::<bool, VmError>::Ok(true)
                    && final(self).vm_view() == s,
                Step::Fail(e, s) => r == Result::<bool, VmError>::Err(e) && final(self).vm_view()
                    == s,
                Step::EndOfCode(_) => false,
            },
    {
        match op {
            Instruction::Dup => {
                if self.data_stack.len() >= 1 {
                    let v = self.data_stack[self.data_stack.len() - 1];
                    self.push_data(v);
                    Ok(false)
                } else {
                    Err(VmError::StackUnderflow)
                }
            },
            Instruction::Over => {
                if self.data_stack.len() >= 2 {
                    let v = self.data_stack[self.data_stack.len() - 2];
                    self.push_data(v);
                    Ok(false)
                } else {
                    Err(VmError::StackUnderflow)
                }
            },
            Instruction::Drop => {
                match self.pop_data() {
                    Some(_) => Ok(false),
                    None => Err(VmError::StackUnderflow),
                }
            },
            _ => {
                let a = match self.pop_data() {
                    Some(v) => v,
                    None => {
                        return Err(VmError::StackUnderflow);
                    },
                };
                let b = match self.pop_data() {
                    Some(v) => v,
                    None => {
                        return Err(VmError::StackUnderflow);
                    },
                };
                self.push_data(a);
                self.push_data(b);
                Ok(false)
            },
        }
    }

    /// Executes one of the print instructions.
    fn exec_print(&mut self, op: Instruction, Ghost(code): Ghost<Seq<u64>>) -> (r: Result<
        bool,
        VmError,
    >)
        requires
            op is PrintBool || op is PrintInt || op is PrintStr,
        ensures
            final(self).program == old(self).program,
            match step_op(old(self).program@, code, old(self).vm_view(), op) {
                Step::Next(s) => r == Result::<bool, VmError>::Ok(false) && final(self).vm_view()
                    == s,
                Step::MainReturn(s) => r == Result::<bool, VmError>::Ok(true)
                    && final(self).vm_view() == s,
                Step::Fail(e, s) => r == Result::<bool, VmError>::Err(e) && final(self).vm_view()
                    == s,
                Step::EndOfCode(_) => false,
            },
    {
        let v = match self.pop_data() {
            Some(v) => v,
            None => {
                return Err(VmError::StackUnderflow);
            },
        };
        match op {
            Instruction::PrintBool => {
                let line = bool_to_line(v != 0);
                self.push_line(line);
                Ok(false)
            },
            Instruction::PrintInt => {
                let line = int_to_line(v);
                self.push_line(line);
                Ok(false)
            },
            _ => {
                if v >= 0 && (v as u64) < self.program.strings.len() as u64 {
                    let line = self.program.strings[v as usize].clone();
                    self.push_line(line);
                    Ok(false)
                } else {
                    Err(VmError::StringOutOfRange)
                }
            },
        }
    }

    /// Executes a binary or unary operator on data-stack words.
    fn exec_arith(&mut self, op: Instruction, Ghost(code): Ghost<Seq<u64>>) -> (r: Result<
        bool,
        VmError,
    >)
        requires
            op is Add || op is Subtract || op is Multiply || op is Divide || op is And || op is Or
                || op is Not || op is Eq || op is Neq || op is Lt || op is Gt,
        ensures
            final(self).program == old(self).program,
            match step_op(old(self).program@, code, old(self).vm_view(), op) {
                Step::Next(s) => r == Result::<bool, VmError>::Ok(false) && final(self).vm_view()
                    == s,
                Step::MainReturn(s) => r == Result::<bool, VmError>::Ok(true)
                    && final(self).vm_view() == s,
                Step::Fail(e, s) => r == Result::<bool, VmError>::Err(e) && final(self).vm_view()
                    == s,
                Step::EndOfCode(_) => false,
            },
    {
        let b = match self.pop_data() {
            Some(v) => v,
            None => {
                return Err(VmError::StackUnderflow);
            },
        };
        if let Instruction::Not = op {
            self.push_data(if b == 0 { 1 } else { 0 });
            return Ok(false);
        }
        let a = match self.pop_data() {
            Some(v) => v,
            None => {
                return Err(VmError::StackUnderflow);
            },
        };
        match op {
            Instruction::Add => self.push_data(a.wrapping_add(b)),
            Instruction::Subtract => self.push_data(a.wrapping_sub(b)),
            Instruction::Multiply => self.push_data(a.wrapping_mul(b)),
            Instruction::Divide => {
                if b == 0 {
                    return Err(VmError::DivisionByZero);
                }
                let q = match a.checked_div(b) {
                    Some(q) => q,
                    None => i64::MIN,
                };
                self.push_data(q);
            },
            Instruction::And => self.push_data(if a != 0 && b != 0 { 1 } else { 0 }),
            Instruction::Or => self.push_data(if a != 0 || b != 0 { 1 } else { 0 }),
            Instruction::Eq => self.push_data(if a == b { 1 } else { 0 }),
            Instruction::Neq => self.push_data(if a != b { 1 } else { 0 }),
            Instruction::Lt => self.push_data(if a < b { 1 } else { 0 }),
            _ => self.push_data(if a > b { 1 } else { 0 }),
        }
        Ok(false)
    }

    /// Executes `Assign` or `Load` on a variable cell.
    fn exec_mem(&mut self, op: Instruction, Ghost(code): Ghost<Seq<u64>>) -> (r: Result<
        bool,
        VmError,
    >)
        requires
            op is Assign || op is Load,
        ensures
            final(self).program == old(self).program,
            match step_op(old(self).program@, code, old(self).vm_view(), op) {
                Step::Next(s) => r == Result::<bool, VmError>::Ok(false) && final(self).vm_view()
                    == s,
                Step::MainReturn(s) => r == Result::<bool, VmError>::Ok(true)
                    && final(self).vm_view() == s,
                Step::Fail(e, s) => r == Result::<bool, VmError>::Err(e) && final(self).vm_view()
                    == s,
                Step::EndOfCode(_) => false,
            },
    {
        let ptr = match self.pop_data() {
            Some(v) => v,
            None => {
                return Err(VmError::StackUnderflow);
            },
        };
        if let Instruction::Load = op {
            if ptr >= 0 && (ptr as u64) < self.variables.len() as u64 {
                let v = self.variables[ptr as usize];
                self.push_data(v);
                return Ok(false);
            } else {
                return Err(VmError::SlotOutOfRange);
            }
        }
        let v = match self.pop_data() {
            Some(v) => v,
            None => {
                return Err(VmError::StackUnderflow);
            },
        };
        if ptr >= 0 && (ptr as u64) < self.variables.len() as u64 {
            let ghost s3 = self.vm_view();
            self.variables.set(ptr as usize, v);
            proof {
                assert(self.vm_view() =~= (VmView { vars: s3.vars.update(ptr as int, v), ..s3 }));
            }
            Ok(false)
        } else {
            Err(VmError::SlotOutOfRange)
        }
    }

    /// Executes a literal push: `PushBool`, `PushInt` or `PushStr`.
    fn exec_lit(&mut self, op: Instruction, Ghost(code): Ghost<Seq<u64>>) -> (r: Result<
        bool,
        VmError,
    >)
        requires
            op is PushBool || op is PushInt || op is PushStr,
            0 <= old(self).vm_view().cur < old(self).program@.funcs.len(),
            code == old(self).program@.funcs[old(self).vm_view().cur],
        ensures
            final(self).program == old(self).program,
            match step_op(old(self).program@, code, old(self).vm_view(), op) {
                Step::Next(s) => r == Result::<bool, VmError>::Ok(false) && final(self).vm_view()
                    == s,
                Step::MainReturn(s) => r == Result::<bool, VmError>::Ok(true)
                    && final(self).vm_view() == s,
                Step::Fail(e, s) => r == Result::<bool, VmError>::Err(e) && final(self).vm_view()
                    == s,
                Step::EndOfCode(_) => false,
            },
    {
        let imm = match self.imm() {
            Ok(x) => x,
            Err(e) => {
                return Err(e);
            },
        };
        if let Instruction::PushStr = op {
            if imm <= i64::MAX as u64 && imm < self.program.strings.len() as u64 {
                self.push_data(imm as i64);
                Ok(false)
            } else {
                Err(VmError::StringOutOfRange)
            }
        } else {
            self.push_data(word_to_i64(imm));
            Ok(false)
        }
    }

    /// Executes a control transfer: `Call`, `Return` or a jump.
    fn exec_ctrl(&mut self, op: Instruction, Ghost(code): Ghost<Seq<u64>>) -> (r: Result<
        bool,
        VmError,
    >)
        requires
            op is Call || op is Return || op is Jump || op is JumpTrue || op is JumpFalse,
            0 <= old(self).vm_view().cur < old(self).program@.funcs.len(),
            code == old(self).program@.funcs[old(self).vm_view().cur],
        ensures
            final(self).program == old(self).program,
            match step_op(old(self).program@, code, old(self).vm_view(), op) {
                Step::Next(s) => r == Result::<bool, VmError>::Ok(false) && final(self).vm_view()
                    == s,
                Step::MainReturn(s) => r == Result::<bool, VmError>::Ok(true)
                    && final(self).vm_view() == s,
                Step::Fail(e, s) => r == Result::<bool, VmError>::Err(e) && final(self).vm_view()
                    == s,
                Step::EndOfCode(_) => false,
            },
    {
        if let Instruction::Return = op {
            if self.return_stack.len() < 2 {
                return Ok(true);
            }
            let ghost s2 = self.vm_view();
            let f = match self.return_stack.pop() {
                Some(x) => x,
                None => {
                    proof {
                        assert(false);
                    }
                    return Err(VmError::StackUnderflow);
                },
            };
            let ra = match self.return_stack.pop() {
                Some(x) => x,
                None => {
                    proof {
                        assert(false);
                    }
                    return Err(VmError::StackUnderflow);
                },
            };
            self.current_function = f;
            self.ip = ra;
            proof {
                assert(self.vm_view() =~= (VmView {
                    cur: s2.ret.last(),
                    ip: s2.ret[s2.ret.len() - 2],
                    ret: s2.ret.take(s2.ret.len() - 2),
                    ..s2
                }));
            }
            return Ok(false);
        }
        let imm = match self.imm() {
            Ok(x) => x,
            Err(e) => {
                return Err(e);
            },
        };
        match op {
            Instruction::Call => {
                if imm <= usize::MAX as u64 {
                    let ghost s2 = self.vm_view();
                    self.return_stack.push(self.ip);
                    self.return_stack.push(self.current_function);
                    self.current_function = imm as usize;
                    self.ip = 0;
                    proof {
                        assert(self.vm_view() =~= (VmView {
                            cur: imm as int,
                            ip: 0,
                            ret: s2.ret.push(s2.ip).push(s2.cur),
                            ..s2
                        }));
                    }
                    Ok(false)
                } else {
                    Err(VmError::FunctionOutOfRange)
                }
            },
            Instruction::Jump => {
                self.apply_jump(word_to_i64(imm));
                Ok(false)
            },
            Instruction::JumpTrue => {
                let v = match self.pop_data() {
                    Some(v) => v,
                    None => {
                        return Err(VmError::StackUnderflow);
                    },
                };
                if v != 0 {
                    self.apply_jump(word_to_i64(imm));
                }
                Ok(false)
            },
            _ => {
                let v = match self.pop_data() {
                    Some(v) => v,
                    None => {
                        return Err(VmError::StackUnderflow);
                    },
                };
                if v == 0 {
                    self.apply_jump(word_to_i64(imm));
                }
                Ok(false)
            },
        }
    }

    /// Executes `Bind`: moves the top `n` data words to the bind stack.
    fn exec_bind(&mut self, Ghost(code): Ghost<Seq<u64>>) -> (r: Result<bool, VmError>)
        requires
            0 <= old(self).vm_view().cur < old(self).program@.funcs.len(),
            code == old(self).program@.funcs[old(self).vm_view().cur],
        ensures
            final(self).program == old(self).program,
            match step_op(old(self).program@, code, old(self).vm_view(), Instruction::Bind) {
                Step::Next(s) => r == Result::<bool, VmError>::Ok(false) && final(self).vm_view()
                    == s,
                Step::MainReturn(s) => r == Result::<bool, VmError>::Ok(true)
                    && final(self).vm_view() == s,
                Step::Fail(e, s) => r == Result::<bool, VmError>::Err(e) && final(self).vm_view()
                    == s,
                Step::EndOfCode(_) => false,
            },
    {
        let imm = match self.imm() {
            Ok(x) => x,
            Err(e) => {
                return Err(e);
            },
        };
        if imm <= self.data_stack.len() as u64 {
            let ghost s2 = self.vm_view();
            let n = imm as usize;
            let dlen = self.data_stack.len();
            let start = dlen - n;
            let mut i: usize = 0;
            while i < n
                invariant
                    i <= n,
                    n <= dlen,
                    start == dlen - n,
                    dlen == self.data_stack.len(),
                    self.program == old(self).program,
                    self.vm_view() == (VmView {
                        bind: s2.bind + s2.data.subrange(start as int, (start + i) as int),
                        ..s2
                    }),
                decreases n - i,
            {
                let v = self.data_stack[start + i];
                self.bind_stack.push(v);
                proof {
                    assert(self.vm_view() =~= (VmView {
                        bind: s2.bind + s2.data.subrange(start as int, (start + i + 1) as int),
                        ..s2
                    }));
                }
                i = i + 1;
            }
            self.data_stack.truncate(start);
            proof {
                assert(self.vm_view() =~= (VmView {
                    data: s2.data.take(s2.data.len() - imm as int),
                    bind: s2.bind + s2.data.subrange(s2.data.len() - imm as int, s2.data.len() as int),
                    ..s2
                }));
            }
            Ok(false)
        } else {
            Err(VmError::StackUnderflow)
        }
    }

    /// Executes `Unbind`, `PushBind`, `PushVar` or `MakeVar`.
    fn exec_slot(&mut self, op: Instruction, Ghost(code): Ghost<Seq<u64>>) -> (r: Result<
        bool,
        VmError,
    >)
        requires
            op is Unbind || op is PushBind || op is PushVar || op is MakeVar,
            0 <= old(self).vm_view().cur < old(self).program@.funcs.len(),
            code == old(self).program@.funcs[old(self).vm_view().cur],
        ensures
            final(self).program == old(self).program,
            match step_op(old(self).program@, code, old(self).vm_view(), op) {
                Step::Next(s) => r == Result::<bool, VmError>::Ok(false) && final(self).vm_view()
                    == s,
                Step::MainReturn(s) => r == Result::<bool, VmError>::Ok(true)
                    && final(self).vm_view() == s,
                Step::Fail(e, s) => r == Result::<bool, VmError>::Err(e) && final(self).vm_view()
                    == s,
                Step::EndOfCode(_) => false,
            },
    {
        let imm = match self.imm() {
            Ok(x) => x,
            Err(e) => {
                return Err(e);
            },
        };
        match op {
            Instruction::Unbind => {
                if imm <= self.bind_stack.len() as u64 {
                    let ghost s2 = self.vm_view();
                    let n = imm as usize;
                    let keep = self.bind_stack.len() - n;
                    self.bind_stack.truncate(keep);
                    proof {
                        assert(self.vm_view() =~= (VmView {
                            bind: s2.bind.take(s2.bind.len() - imm as int),
                            ..s2
                        }));
                    }
                    Ok(false)
                } else {
                    Err(VmError::StackUnderflow)
                }
            },
            Instruction::PushBind => {
                if imm < self.bind_stack.len() as u64 {
                    let v = self.bind_stack[imm as usize];
                    self.push_data(v);
                    Ok(false)
                } else {
                    Err(VmError::BindOutOfRange)
                }
            },
            Instruction::PushVar => {
                if imm <= i64::MAX as u64 && imm < self.variables.len() as u64 {
                    self.push_data(imm as i64);
                    Ok(false)
                } else {
                    Err(VmError::SlotOutOfRange)
                }
            },
            _ => {
                let v = match self.pop_data() {
                    Some(v) => v,
                    None => {
                        return Err(VmError::StackUnderflow);
                    },
                };
                if imm < self.variables.len() as u64 {
                    let ghost s3 = self.vm_view();
                    self.variables.set(imm as usize, v);
                    proof {
                        assert(self.vm_view() =~= (VmView {
                            vars: s3.vars.update(imm as int, v),
                            ..s3
                        }));
                    }
                    Ok(false)
                } else {
                    Err(VmError::SlotOutOfRange)
                }
            },
        }
    }

    /// Decodes and executes the instruction at the current pointer.
    /// `Ok(true)` reports a `Return` from the outermost frame.
    fn evaluate_instruction(&mut self) -> (r: Result<bool, VmError>)
        requires
            0 <= old(self).vm_view().cur < old(self).program@.funcs.len(),
            0 <= old(self).vm_view().ip < old(self).program@.funcs[old(self).vm_view().cur].len(),
        ensures
            final(self).program == old(self).program,
            match step(old(self).program@, old(self).vm_view()) {
                Step::Next(s) => r == Result::<bool, VmError>::Ok(false) && final(self).vm_view()
                    == s,
                Step::MainReturn(s) => r == Result::<bool, VmError>::Ok(true)
                    && final(self).vm_view() == s,
                Step::Fail(e, s) => r == Result::<bool, VmError>::Err(e) && final(self).vm_view()
                    == s,
                Step::EndOfCode(_) => false,
            },
    {
        let ghost p = self.program@;
        let ghost s0 = self.vm_view();
        let ghost code = p.funcs[s0.cur];
        let cf = self.current_function;
        let codelen = self.program.functions[cf].code.len();
        proof {
            assert(code.len() == codelen);
        }
        let w = self.program.functions[cf].code[self.ip];
        self.ip = self.ip + 1;
        let ghost s1 = self.vm_view();
        proof {
            assert(s1 =~= (VmView { ip: s0.ip + 1, ..s0 }));
        }
        let instr = match decode(w) {
            Some(i) => i,
            None => {
                return Err(VmError::UnknownOpcode);
            },
        };
        proof {
            assert(step(p, s0) == step_op(p, code, s1, instr));
        }
        match instr {
            Instruction::NoOp => Err(VmError::UnsupportedInstruction),
            Instruction::LoadStr => Err(VmError::UnsupportedInstruction),
            Instruction::PushBool => self.exec_lit(instr, Ghost(code)),
            Instruction::PushInt => self.exec_lit(instr, Ghost(code)),
            Instruction::PushStr => self.exec_lit(instr, Ghost(code)),
            Instruction::Dup => self.exec_stack(instr, Ghost(code)),
            Instruction::Over => self.exec_stack(instr, Ghost(code)),
            Instruction::Drop => self.exec_stack(instr, Ghost(code)),
            Instruction::Swap => self.exec_stack(instr, Ghost(code)),
            Instruction::PrintBool => self.exec_print(instr, Ghost(code)),
            Instruction::PrintInt => self.exec_print(instr, Ghost(code)),
            Instruction::PrintStr => self.exec_print(instr, Ghost(code)),
            Instruction::Call => self.exec_ctrl(instr, Ghost(code)),
            Instruction::Return => self.exec_ctrl(instr, Ghost(code)),
            Instruction::Jump => self.exec_ctrl(instr, Ghost(code)),
            Instruction::JumpTrue => self.exec_ctrl(instr, Ghost(code)),
            Instruction::JumpFalse => self.exec_ctrl(instr, Ghost(code)),
            Instruction::Add => self.exec_arith(instr, Ghost(code)),
            Instruction::Subtract => self.exec_arith(instr, Ghost(code)),
            Instruction::Multiply => self.exec_arith(instr, Ghost(code)),
            Instruction::Divide => self.exec_arith(instr, Ghost(code)),
            Instruction::And => self.exec_arith(instr, Ghost(code)),
            Instruction::Or => self.exec_arith(instr, Ghost(code)),
            Instruction::Not => self.exec_arith(instr, Ghost(code)),
            Instruction::Eq => self.exec_arith(instr, Ghost(code)),
            Instruction::Neq => self.exec_arith(instr, Ghost(code)),
            Instruction::Lt => self.exec_arith(instr, Ghost(code)),
            Instruction::Gt => self.exec_arith(instr, Ghost(code)),
            Instruction::Assign => self.exec_mem(instr, Ghost(code)),
            Instruction::Load => self.exec_mem(instr, Ghost(code)),
            Instruction::Bind => self.exec_bind(Ghost(code)),
            Instruction::Unbind => self.exec_slot(instr, Ghost(code)),
            Instruction::PushBind => self.exec_slot(instr, Ghost(code)),
            Instruction::PushVar => self.exec_slot(instr, Ghost(code)),
            Instruction::MakeVar => self.exec_slot(instr, Ghost(code)),
        }
    }
}

/// Runs a program: the initializer function to the end of its code,
/// then the entry function until it returns from its outermost frame.
/// The returned lines are everything the program printed, in order.
///
/// The result is exactly the outcome of iterating [`run_trans`] from
/// the initial state: `Ok` with the final state's output on normal
/// termination, the fatal error and the output up to it otherwise.  A
/// program still running after `u64::MAX` transitions is reported as
/// `Err(VmError::StepLimit)`.
#[verifier::loop_isolation(false)]
pub fn evaluate(program: Program) -> (r: (Vec<String>, Result<(), VmError>))
    ensures
        exists|n: nat|
            #![trigger run_n(program@, n)]
            match run_n(program@, n) {
                RunRes::Done(vm) => r.1 == Result::<(), VmError>::Ok(()) && lines_view(r.0@)
                    == vm.out,
                RunRes::Fail(e, vm) => r.1 == Result::<(), VmError>::Err(e) && lines_view(r.0@)
                    == vm.out,
                RunRes::Going(rs) => n == u64::MAX as nat && r.1 == Result::<(), VmError>::Err(
                    VmError::StepLimit,
                ) && lines_view(r.0@) == rs.vm.out,
            },
{
    let ghost p = program@;
    let mut ev = Evaluator::new(program);
    let mut in_init: bool = true;
    let mut fuel: u64 = u64::MAX;
    let ghost mut n: nat = 0;
    proof {
        assert(run_n(p, 0) == RunRes::Going(RunState { in_init: true, vm: ev.vm_view() }));
    }
    loop
        invariant
            ev.program@ == p,
            n + fuel == u64::MAX as nat,
            run_n(p, n) == RunRes::Going(RunState { in_init, vm: ev.vm_view() }),
        decreases fuel,
    {
        if fuel == 0 {
            return (ev.into_output(), Err(VmError::StepLimit));
        }
        fuel = fuel - 1;
        let ghost rs = RunState { in_init, vm: ev.vm_view() };
        if ev.current_function >= ev.program.functions.len() {
            proof {
                n = n + 1;
                assert(run_n(p, n) == RunRes::Fail(VmError::FunctionOutOfRange, rs.vm));
            }
            return (ev.into_output(), Err(VmError::FunctionOutOfRange));
        }
        let codelen = ev.program.functions[ev.current_function].code.len();
        if ev.ip >= codelen {
            // ran off the current function's code
            if in_init {
                ev.prepare_for_program_evaluation();
                in_init = false;
                proof {
                    n = n + 1;
                    assert(run_n(p, n) == RunRes::Going(RunState { in_init: false, vm: ev.vm_view() }));
                }
            } else {
                proof {
                    n = n + 1;
                    assert(run_n(p, n) == RunRes::Done(rs.vm));
                }
                return (ev.into_output(), Ok(()));
            }
        } else {
            match ev.evaluate_instruction() {
                Ok(returning) => {
                    if returning && !in_init {
                        proof {
                            n = n + 1;
                            assert(run_n(p, n) == RunRes::Done(ev.vm_view()));
                        }
                        return (ev.into_output(), Ok(()));
                    }
                    proof {
                        n = n + 1;
                        assert(run_n(p, n) == RunRes::Going(RunState { in_init, vm: ev.vm_view() }));
                    }
                },
                Err(e) => {
                    proof {
                        n = n + 1;
                        assert(run_n(p, n) == RunRes::Fail(e, ev.vm_view()));
                    }
                    return (ev.into_output(), Err(e));
                },
            }
        }
    }
}

/// A `Bind(n)` followed directly by `Unbind(n)` leaves the bind stack
/// as it was; the pair only removes the bound words from the data
/// stack.
pub proof fn lemma_bind_unbind(p: ProgView, s: VmView, n: u64)
    requires
        0 <= s.cur < p.funcs.len(),
        0 <= s.ip,
        s.ip + 4 <= p.funcs[s.cur].len(),
        p.funcs[s.cur][s.ip] == OP_BIND,
        p.funcs[s.cur][s.ip + 1] == n,
        p.funcs[s.cur][s.ip + 2] == OP_UNBIND,
        p.funcs[s.cur][s.ip + 3] == n,
        n as int <= s.data.len(),
    ensures
        step(p, s) matches Step::Next(s1) && step(p, s1) matches Step::Next(s2) && {
            &&& s2.bind == s.bind
            &&& s2.data == s.data.take(s.data.len() - n as int)
            &&& s2.vars == s.vars
            &&& s2.out == s.out
            &&& s2.ret == s.ret
            &&& s2.cur == s.cur
            &&& s2.ip == s.ip + 4
        },
{
    let code = p.funcs[s.cur];
    let s1 = match step(p, s) {
        Step::Next(x) => x,
        _ => s,
    };
    assert(s1.bind =~= s.bind + s.data.subrange(s.data.len() - n as int, s.data.len() as int));
    let s2 = match step(p, s1) {
        Step::Next(x) => x,
        _ => s,
    };
    assert(s2.bind =~= s.bind);
    assert(s2.data =~= s.data.take(s.data.len() - n as int));
}

} // verus!
