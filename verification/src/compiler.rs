//! Lowering: typed IR chunks to a bytecode [`Program`].
//!
//! One bytecode function is emitted per `Def`; all top-level `var`
//! initializers are appended to function 0, the global initializer,
//! which every program starts with.  Jumps for `if` and `while` are
//! emitted with a placeholder displacement and patched once the target
//! is known; a displacement is relative to the word after the jump's
//! immediate.
//!
//! The pass is specified by [`sp_compile`], a spec-level rendering of
//! the same walk, and [`compile`] is proved to produce exactly its
//! result.

use vstd::prelude::*;

use crate::evaluator::{
    add_string_spec, i64_to_u64, i64_to_word, opcode, opcode_of, Function, Instruction, ProgView,
    Program, OP_BIND, OP_CALL, OP_JUMP, OP_JUMP_FALSE, OP_MAKE_VAR, OP_PUSH_BIND, OP_PUSH_BOOL,
    OP_PUSH_INT, OP_PUSH_STR, OP_PUSH_VAR, OP_RETURN, OP_UNBIND,
};
use crate::typer::{views_of_typed, views_of_typed_chunks, TypedChunks, TypedIR, TypedIRKind, TypedKindView};
use vstd::pervasive::VecAdditionalExecFns;

verus! {

/// The code buffer of one bytecode function.
pub type Code = Vec<u64>;

/// The errors lowering can report.  All of them point at typed IR that
/// a successful checking pass cannot produce.
#[derive(Clone, Copy, Debug, PartialEq, Eq, Structural)]
pub enum CompileError {
    UnexpectedEnd,
    UnexpectedElif,
    UnexpectedElse,
    UnexpectedThen,
    UnexpectedDo,
    UnexpectedMakeVar,
    UnexpectedChunkStart,
    EmptyChunk,
    UnknownFunction,
    PrintPtrUnsupported,
    MissingJumpTarget,
    PatchOutOfRange,
    TooManyVariables,
    Internal,
}

/// Mathematical view of the lowering state: the program built so far,
/// the name-to-index map of emitted functions, and the stack of
/// function indices being emitted into (top is the current one).
#[verifier::ext_equal]
pub struct CompView {
    pub prog: ProgView,
    pub fmap: Seq<(Seq<char>, int)>,
    pub fstack: Seq<int>,
}

/// Well-formedness: there is a current function and every index on the
/// emission stack names an existing function.
pub open spec fn comp_wf(c: CompView) -> bool {
    &&& c.fstack.len() >= 1
    &&& forall|i: int| 0 <= i < c.fstack.len() ==> 0 <= #[trigger] c.fstack[i] < c.prog.funcs.len()
}

/// The function currently being emitted into.
pub open spec fn sp_cur(c: CompView) -> int {
    c.fstack.last()
}

/// The code of the current function.
pub open spec fn sp_code(c: CompView) -> Seq<u64> {
    c.prog.funcs[sp_cur(c)]
}

/// `c` with one word appended to the current function.
pub open spec fn sp_emit1(c: CompView, w: u64) -> CompView {
    CompView {
        prog: ProgView {
            funcs: c.prog.funcs.update(sp_cur(c), sp_code(c).push(w)),
            ..c.prog
        },
        ..c
    }
}

/// `c` with an opcode word and an immediate word appended.
pub open spec fn sp_emit2(c: CompView, w0: u64, w1: u64) -> CompView {
    CompView {
        prog: ProgView {
            funcs: c.prog.funcs.update(sp_cur(c), sp_code(c).push(w0).push(w1)),
            ..c.prog
        },
        ..c
    }
}

/// `x` reduced to a 64-bit word, two's complement.
pub open spec fn wrap_u64(x: int) -> u64 {
    (x % 0x1_0000_0000_0000_0000) as u64
}

/// Writes at `ji` the displacement from the word after `ji` to the
/// current end of code; fails when `ji` is no position in the code.
pub open spec fn sp_patch(c: CompView, ji: int) -> Result<CompView, CompileError> {
    if 0 <= ji < sp_code(c).len() {
        Result::Ok(
            CompView {
                prog: ProgView {
                    funcs: c.prog.funcs.update(
                        sp_cur(c),
                        sp_code(c).update(ji, (sp_code(c).len() - ji - 1) as u64),
                    ),
                    ..c.prog
                },
                ..c
            },
        )
    } else {
        Result::Err(CompileError::PatchOutOfRange)
    }
}

/// Patches every recorded exit, in order.
pub open spec fn sp_patch_all(c: CompView, exits: Seq<int>, k: int) -> Result<
    CompView,
    CompileError,
>
    decreases exits.len() - k,
{
    if k < 0 || k >= exits.len() {
        Result::Ok(c)
    } else {
        match sp_patch(c, exits[k]) {
            Result::Ok(c1) => sp_patch_all(c1, exits, k + 1),
            Result::Err(e) => Result::Err(e),
        }
    }
}

/// The function index registered under `name`, latest registration
/// first, as a name map with overwriting insertion gives it.
pub open spec fn fn_id_of(fmap: Seq<(Seq<char>, int)>, name: Seq<char>) -> Option<int>
    decreases fmap.len(),
{
    if fmap.len() == 0 {
        Option::None
    } else if fmap.last().0 == name {
        Option::Some(fmap.last().1)
    } else {
        fn_id_of(fmap.drop_last(), name)
    }
}

/// A sequence of indices, as mathematical integers.
pub open spec fn ints_of_usizes(s: Seq<usize>) -> Seq<int> {
    s.map_values(|x: usize| x as int)
}

/// The name of the entry function.
pub open spec fn main_name() -> Seq<char> {
    "main"@
}

/// Registers a new, empty function under `name` and makes it current.
/// A function named `main` becomes the program's entry.
pub open spec fn sp_add_function(c: CompView, name: Seq<char>) -> CompView {
    let fid = c.prog.funcs.len() as int;
    CompView {
        prog: ProgView {
            funcs: c.prog.funcs.push(Seq::empty()),
            entry: if name == main_name() {
                fid
            } else {
                c.prog.entry
            },
            ..c.prog
        },
        fmap: c.fmap.push((name, fid)),
        fstack: c.fstack.push(fid),
    }
}

/// The lowering state a run starts with: only the empty global
/// initializer exists, and it is current.
pub open spec fn sp_init_comp() -> CompView {
    CompView {
        prog: ProgView {
            entry: 0,
            var_size: 0,
            funcs: seq![Seq::empty()],
            strings: Seq::empty(),
        },
        fmap: Seq::empty(),
        fstack: seq![0int],
    }
}

/// The result of lowering a part of one chunk: the new state and the
/// index past what was consumed.
pub enum CompRes {
    Next(CompView, int),
    Abort(CompileError),
}

/// Lowers the single item at `idx` (with everything a block item
/// contains, up to its `End`).
pub open spec fn sp_compile_expr(c: CompView, chunk: Seq<TypedKindView>, idx: int) -> CompRes
    decreases chunk.len() - idx, 0int,
{
    if !(0 <= idx < chunk.len()) {
        CompRes::Abort(CompileError::Internal)
    } else {
        match chunk[idx] {
            TypedKindView::PushBool(b) => CompRes::Next(
                sp_emit2(c, OP_PUSH_BOOL, if b {
                    1
                } else {
                    0
                }),
                idx + 1,
            ),
            TypedKindView::PushInt(v) => CompRes::Next(sp_emit2(c, OP_PUSH_INT, i64_to_u64(v)), idx + 1),
            TypedKindView::PushStr(s) => {
                let (tbl, k) = add_string_spec(c.prog.strings, s);
                let c1 = CompView { prog: ProgView { strings: tbl, ..c.prog }, ..c };
                CompRes::Next(sp_emit2(c1, OP_PUSH_STR, k as u64), idx + 1)
            },
            TypedKindView::End => CompRes::Abort(CompileError::UnexpectedEnd),
            TypedKindView::If => sp_compile_if(c, chunk, idx + 1, Option::Some(0int), Seq::empty()),
            TypedKindView::Elif => CompRes::Abort(CompileError::UnexpectedElif),
            TypedKindView::Else => CompRes::Abort(CompileError::UnexpectedElse),
            TypedKindView::While => sp_compile_while(
                c,
                chunk,
                idx + 1,
                sp_code(c).len() as int,
                0int,
            ),
            TypedKindView::Then => CompRes::Abort(CompileError::UnexpectedThen),
            TypedKindView::Do => CompRes::Abort(CompileError::UnexpectedDo),
            TypedKindView::Def(name) => sp_compile_function(c, name, chunk, idx + 1),
            TypedKindView::Var => sp_compile_var(c, chunk, idx + 1),
            TypedKindView::Dup => CompRes::Next(sp_emit1(c, opcode_of(Instruction::Dup)), idx + 1),
            TypedKindView::Over => CompRes::Next(sp_emit1(c, opcode_of(Instruction::Over)), idx + 1),
            TypedKindView::Drop => CompRes::Next(sp_emit1(c, opcode_of(Instruction::Drop)), idx + 1),
            TypedKindView::Swap => CompRes::Next(sp_emit1(c, opcode_of(Instruction::Swap)), idx + 1),
            TypedKindView::PrintBool => CompRes::Next(
                sp_emit1(c, opcode_of(Instruction::PrintBool)),
                idx + 1,
            ),
            TypedKindView::PrintInt => CompRes::Next(
                sp_emit1(c, opcode_of(Instruction::PrintInt)),
                idx + 1,
            ),
            TypedKindView::PrintStr => CompRes::Next(
                sp_emit1(c, opcode_of(Instruction::PrintStr)),
                idx + 1,
            ),
            TypedKindView::PrintPtr => CompRes::Abort(CompileError::PrintPtrUnsupported),
            TypedKindView::And => CompRes::Next(sp_emit1(c, opcode_of(Instruction::And)), idx + 1),
            TypedKindView::Or => CompRes::Next(sp_emit1(c, opcode_of(Instruction::Or)), idx + 1),
            TypedKindView::Not => CompRes::Next(sp_emit1(c, opcode_of(Instruction::Not)), idx + 1),
            TypedKindView::Add => CompRes::Next(sp_emit1(c, opcode_of(Instruction::Add)), idx + 1),
            TypedKindView::Subtract => CompRes::Next(
                sp_emit1(c, opcode_of(Instruction::Subtract)),
                idx + 1,
            ),
            TypedKindView::Multiply => CompRes::Next(
                sp_emit1(c, opcode_of(Instruction::Multiply)),
                idx + 1,
            ),
            TypedKindView::Divide => CompRes::Next(
                sp_emit1(c, opcode_of(Instruction::Divide)),
                idx + 1,
            ),
            TypedKindView::Eq => CompRes::Next(sp_emit1(c, opcode_of(Instruction::Eq)), idx + 1),
            TypedKindView::Neq => CompRes::Next(sp_emit1(c, opcode_of(Instruction::Neq)), idx + 1),
            TypedKindView::Lt => CompRes::Next(sp_emit1(c, opcode_of(Instruction::Lt)), idx + 1),
            TypedKindView::Gt => CompRes::Next(sp_emit1(c, opcode_of(Instruction::Gt)), idx + 1),
            TypedKindView::Assign => CompRes::Next(
                sp_emit1(c, opcode_of(Instruction::Assign)),
                idx + 1,
            ),
            TypedKindView::Load => CompRes::Next(sp_emit1(c, opcode_of(Instruction::Load)), idx + 1),
            TypedKindView::LoadStr => CompRes::Next(
                sp_emit1(c, opcode_of(Instruction::LoadStr)),
                idx + 1,
            ),
            TypedKindView::Call(name) => match fn_id_of(c.fmap, name) {
                Option::Some(fid) => CompRes::Next(sp_emit2(c, OP_CALL, fid as u64), idx + 1),
                Option::None => CompRes::Abort(CompileError::UnknownFunction),
            },
            TypedKindView::Bind(n) => CompRes::Next(sp_emit2(c, OP_BIND, n as u64), idx + 1),
            TypedKindView::Unbind(n) => CompRes::Next(sp_emit2(c, OP_UNBIND, n as u64), idx + 1),
            TypedKindView::PushBind(n) => CompRes::Next(sp_emit2(c, OP_PUSH_BIND, n as u64), idx + 1),
            TypedKindView::PushVar(n) => CompRes::Next(sp_emit2(c, OP_PUSH_VAR, n as u64), idx + 1),
            TypedKindView::MakeVar(_) => CompRes::Abort(CompileError::UnexpectedMakeVar),
        }
    }
}

/// Lowers a function body: items until an `End` is consumed or the
/// chunk runs out.
pub open spec fn sp_compile_body(c: CompView, chunk: Seq<TypedKindView>, idx: int) -> CompRes
    decreases chunk.len() - idx, 1int,
{
    if !(0 <= idx < chunk.len()) {
        CompRes::Next(c, idx)
    } else if chunk[idx] is End {
        CompRes::Next(c, idx + 1)
    } else {
        match sp_compile_expr(c, chunk, idx) {
            CompRes::Next(c1, j) => if idx < j <= chunk.len() {
                sp_compile_body(c1, chunk, j)
            } else {
                CompRes::Abort(CompileError::Internal)
            },
            CompRes::Abort(e) => CompRes::Abort(e),
        }
    }
}

/// Lowers a `Def`: registers the function, lowers its body into it,
/// terminates it with `Return`, and returns to the enclosing function.
pub open spec fn sp_compile_function(
    c: CompView,
    name: Seq<char>,
    chunk: Seq<TypedKindView>,
    idx: int,
) -> CompRes
    decreases chunk.len() - idx, 2int,
{
    let c1 = sp_add_function(c, name);
    match sp_compile_body(c1, chunk, idx) {
        CompRes::Next(c2, j) => {
            let c3 = sp_emit1(c2, OP_RETURN);
            CompRes::Next(CompView { fstack: c3.fstack.drop_last(), ..c3 }, j)
        },
        CompRes::Abort(e) => CompRes::Abort(e),
    }
}

/// Lowers a `var` chunk's remainder: initializer expressions and
/// `MakeVar`s, to the end of the chunk.  Each `MakeVar` may raise the
/// program's variable-cell count.
pub open spec fn sp_compile_var(c: CompView, chunk: Seq<TypedKindView>, idx: int) -> CompRes
    decreases chunk.len() - idx, 2int,
{
    if !(0 <= idx < chunk.len()) {
        CompRes::Next(c, idx)
    } else {
        match chunk[idx] {
            TypedKindView::MakeVar(slot) => if slot == usize::MAX {
                CompRes::Abort(CompileError::TooManyVariables)
            } else {
                let c1 = CompView {
                    prog: ProgView {
                        var_size: if slot as int >= c.prog.var_size {
                            slot as int + 1
                        } else {
                            c.prog.var_size
                        },
                        ..c.prog
                    },
                    ..c
                };
                sp_compile_var(sp_emit2(c1, OP_MAKE_VAR, slot as u64), chunk, idx + 1)
            },
            _ => match sp_compile_expr(c, chunk, idx) {
                CompRes::Next(c1, j) => if idx < j <= chunk.len() {
                    sp_compile_var(c1, chunk, j)
                } else {
                    CompRes::Abort(CompileError::Internal)
                },
                CompRes::Abort(e) => CompRes::Abort(e),
            },
        }
    }
}

/// Lowers an `if` block.  `ji` is the immediate slot of the pending
/// `JumpFalse` (if any), `exits` the slots of the jumps to the block's
/// end; both are patched as the arms close.
pub open spec fn sp_compile_if(
    c: CompView,
    chunk: Seq<TypedKindView>,
    idx: int,
    ji: Option<int>,
    exits: Seq<int>,
) -> CompRes
    decreases chunk.len() - idx, 2int,
{
    if !(0 <= idx < chunk.len()) {
        CompRes::Next(c, idx)
    } else {
        match chunk[idx] {
            TypedKindView::End => {
                let patched = match ji {
                    Option::Some(j) => sp_patch(c, j),
                    Option::None => Result::Ok(c),
                };
                match patched {
                    Result::Ok(c1) => match sp_patch_all(c1, exits, 0) {
                        Result::Ok(c2) => CompRes::Next(c2, idx + 1),
                        Result::Err(e) => CompRes::Abort(e),
                    },
                    Result::Err(e) => CompRes::Abort(e),
                }
            },
            TypedKindView::Elif => {
                match ji {
                    Option::Some(j) => {
                        let c1 = sp_emit2(c, OP_JUMP, wrap_u64(-1));
                        let exits1 = exits.push(sp_code(c1).len() - 1);
                        match sp_patch(c1, j) {
                            Result::Ok(c2) => sp_compile_if(c2, chunk, idx + 1, ji, exits1),
                            Result::Err(e) => CompRes::Abort(e),
                        }
                    },
                    Option::None => CompRes::Abort(CompileError::MissingJumpTarget),
                }
            },
            TypedKindView::Else => {
                match ji {
                    Option::Some(j) => {
                        let c1 = sp_emit2(c, OP_JUMP, wrap_u64(-1));
                        let exits1 = exits.push(sp_code(c1).len() - 1);
                        match sp_patch(c1, j) {
                            Result::Ok(c2) => sp_compile_if(
                                c2,
                                chunk,
                                idx + 1,
                                Option::None,
                                exits1,
                            ),
                            Result::Err(e) => CompRes::Abort(e),
                        }
                    },
                    Option::None => CompRes::Abort(CompileError::MissingJumpTarget),
                }
            },
            TypedKindView::Then => {
                let c1 = sp_emit2(c, OP_JUMP_FALSE, wrap_u64(-1));
                sp_compile_if(c1, chunk, idx + 1, Option::Some(sp_code(c1).len() - 1), exits)
            },
            _ => match sp_compile_expr(c, chunk, idx) {
                CompRes::Next(c1, j) => if idx < j <= chunk.len() {
                    sp_compile_if(c1, chunk, j, ji, exits)
                } else {
                    CompRes::Abort(CompileError::Internal)
                },
                CompRes::Abort(e) => CompRes::Abort(e),
            },
        }
    }
}

/// Lowers a `while` block.  `head` is the code position of the loop
/// head; `do_slot` the immediate slot of the pending `JumpFalse`.
pub open spec fn sp_compile_while(
    c: CompView,
    chunk: Seq<TypedKindView>,
    idx: int,
    head: int,
    do_slot: int,
) -> CompRes
    decreases chunk.len() - idx, 2int,
{
    if !(0 <= idx < chunk.len()) {
        CompRes::Next(c, idx)
    } else {
        match chunk[idx] {
            TypedKindView::End => {
                let back = wrap_u64(head - (sp_code(c).len() + 2));
                let c1 = sp_emit2(c, OP_JUMP, back);
                match sp_patch(c1, do_slot) {
                    Result::Ok(c2) => CompRes::Next(c2, idx + 1),
                    Result::Err(e) => CompRes::Abort(e),
                }
            },
            TypedKindView::Do => {
                let c1 = sp_emit2(c, OP_JUMP_FALSE, wrap_u64(-1));
                sp_compile_while(c1, chunk, idx + 1, head, sp_code(c1).len() - 1)
            },
            _ => match sp_compile_expr(c, chunk, idx) {
                CompRes::Next(c1, j) => if idx < j <= chunk.len() {
                    sp_compile_while(c1, chunk, j, head, do_slot)
                } else {
                    CompRes::Abort(CompileError::Internal)
                },
                CompRes::Abort(e) => CompRes::Abort(e),
            },
        }
    }
}

/// Lowers one typed chunk: a `Def` or a `var` declaration.
pub open spec fn sp_compile_chunk(c: CompView, chunk: Seq<TypedKindView>) -> Result<
    CompView,
    CompileError,
>
    decreases chunk.len(), 3int,
{
    if chunk.len() == 0 {
        Result::Err(CompileError::EmptyChunk)
    } else {
        match chunk[0] {
            TypedKindView::Def(name) => match sp_compile_function(c, name, chunk, 1) {
                CompRes::Next(c1, _) => Result::Ok(c1),
                CompRes::Abort(e) => Result::Err(e),
            },
            TypedKindView::Var => match sp_compile_var(c, chunk, 1) {
                CompRes::Next(c1, _) => Result::Ok(c1),
                CompRes::Abort(e) => Result::Err(e),
            },
            _ => Result::Err(CompileError::UnexpectedChunkStart),
        }
    }
}

/// Lowers the chunks from `i` on.
pub open spec fn sp_compile_chunks(c: CompView, chunks: Seq<Seq<TypedKindView>>, i: int) -> Result<
    CompView,
    CompileError,
>
    decreases chunks.len() - i,
{
    if !(0 <= i < chunks.len()) {
        Result::Ok(c)
    } else {
        match sp_compile_chunk(c, chunks[i]) {
            Result::Ok(c1) => sp_compile_chunks(c1, chunks, i + 1),
            Result::Err(e) => Result::Err(e),
        }
    }
}

/// The program that lowering the given typed chunks produces.
pub open spec fn sp_compile(chunks: Seq<Seq<TypedKindView>>) -> Result<ProgView, CompileError> {
    match sp_compile_chunks(sp_init_comp(), chunks, 0) {
        Result::Ok(c) => Result::Ok(c.prog),
        Result::Err(e) => Result::Err(e),
    }
}

/// The lowering state.
struct Compiler {
    program: Program,
    function_map: Vec<(String, usize)>,
    function_stack: Vec<usize>,
}

impl Compiler {
    spec fn comp_view(&self) -> CompView {
        CompView {
            prog: self.program@,
            fmap: self.function_map@.map_values(|p: (String, usize)| (p.0@, p.1 as int)),
            fstack: self.function_stack@.map_values(|x: usize| x as int),
        }
    }

    fn new() -> (r: Self)
        ensures
            r.comp_view() == sp_init_comp(),
            comp_wf(r.comp_view()),
    {
        let mut program = Program::new();
        program.functions.push(Function::new());
        let mut function_stack: Vec<usize> = Vec::new();
        function_stack.push(0);
        let r = Self { program, function_map: Vec::new(), function_stack };
        proof {
            assert(r.comp_view().prog.funcs =~= seq![Seq::<u64>::empty()]);
            assert(r.comp_view().fstack =~= seq![0int]);
            assert(r.comp_view().fmap =~= Seq::<(Seq<char>, int)>::empty());
            assert(r.comp_view() =~= sp_init_comp());
        }
        r
    }

    /// The function currently being emitted into.
    fn current_function_id(&self) -> (r: usize)
        requires
            comp_wf(self.comp_view()),
        ensures
            r as int == sp_cur(self.comp_view()),
            r < self.program.functions@.len(),
    {
        self.function_stack[self.function_stack.len() - 1]
    }

    /// The index registered for `name`, if any.
    fn get_function_id(&self, name: &String) -> (r: Option<usize>)
        ensures
            match fn_id_of(self.comp_view().fmap, name@) {
                Option::Some(fid) => r matches Some(id) && id as int == fid,
                Option::None => r is None,
            },
    {
        let ghost fmap = self.comp_view().fmap;
        let mut i: usize = self.function_map.len();
        proof {
            assert(fmap.take(i as int) =~= fmap);
        }
        while i > 0
            invariant
                i <= self.function_map.len(),
                fmap == self.comp_view().fmap,
                fmap.len() == self.function_map.len(),
                fn_id_of(fmap.take(i as int), name@) == fn_id_of(fmap, name@),
            decreases i,
        {
            i = i - 1;
            let entry = &self.function_map[i];
            proof {
                assert(fmap.take(i as int + 1).last() == fmap[i as int]);
                assert(fmap.take(i as int + 1).drop_last() =~= fmap.take(i as int));
            }
            if entry.0.eq(name) {
                return Some(entry.1);
            }
        }
        proof {
            assert(fmap.take(0) =~= Seq::<(Seq<char>, int)>::empty());
        }
        None
    }

    /// Appends one word to the current function's code.
    fn push_code(&mut self, w: u64)
        requires
            comp_wf(old(self).comp_view()),
        ensures
            final(self).comp_view() == sp_emit1(old(self).comp_view(), w),
            comp_wf(final(self).comp_view()),
    {
        let id = self.current_function_id();
        self.program.functions[id].code.push(w);
        proof {
            assert(self.comp_view() =~= sp_emit1(old(self).comp_view(), w));
        }
    }

    /// Appends an opcode word and its immediate.
    fn push_code2(&mut self, w0: u64, w1: u64)
        requires
            comp_wf(old(self).comp_view()),
        ensures
            final(self).comp_view() == sp_emit2(old(self).comp_view(), w0, w1),
            comp_wf(final(self).comp_view()),
    {
        self.push_code(w0);
        self.push_code(w1);
        proof {
            assert(self.comp_view() =~= sp_emit2(old(self).comp_view(), w0, w1));
        }
    }

    /// Registers a new empty function under `name` and makes it current.
    fn add_function(&mut self, name: String)
        requires
            comp_wf(old(self).comp_view()),
        ensures
            final(self).comp_view() == sp_add_function(old(self).comp_view(), name@),
            comp_wf(final(self).comp_view()),
    {
        let function_id = self.program.functions.len();
        self.program.functions.push(Function::new());
        let is_main = {
            let m = String::from_str("main");
            name.eq(&m)
        };
        if is_main {
            self.program.set_entry_index(function_id);
        }
        self.function_map.push((name, function_id));
        self.function_stack.push(function_id);
        proof {
            assert(self.comp_view() =~= sp_add_function(old(self).comp_view(), name@));
        }
    }

    fn emit_push_bool(&mut self, value: bool)
        requires
            comp_wf(old(self).comp_view()),
        ensures
            final(self).comp_view() == sp_emit2(old(self).comp_view(), OP_PUSH_BOOL, if value { 1u64 } else { 0u64 }),
            comp_wf(final(self).comp_view()),
    {
        self.push_code2(OP_PUSH_BOOL, if value { 1 } else { 0 });
    }

    fn emit_push_int(&mut self, value: i64)
        requires
            comp_wf(old(self).comp_view()),
        ensures
            final(self).comp_view() == sp_emit2(old(self).comp_view(), OP_PUSH_INT, i64_to_u64(value)),
            comp_wf(final(self).comp_view()),
    {
        let w = i64_to_word(value);
        self.push_code2(OP_PUSH_INT, w);
    }

    fn emit_push_str(&mut self, value: String)
        requires
            comp_wf(old(self).comp_view()),
        ensures
            ({
                let (tbl, k) = add_string_spec(old(self).comp_view().prog.strings, value@);
                let c1 = CompView {
                    prog: ProgView { strings: tbl, ..old(self).comp_view().prog },
                    ..old(self).comp_view()
                };
                final(self).comp_view() == sp_emit2(c1, OP_PUSH_STR, k as u64)
            }),
            comp_wf(final(self).comp_view()),
    {
        let index = match self.program.add_string_constant(value) {
            Ok(i) => i,
            Err(_) => {
                proof {
                    assert(false);
                }
                0
            },
        };
        proof {
            assert(comp_wf(self.comp_view()));
        }
        self.push_code2(OP_PUSH_STR, index as u64);
    }

    fn emit_instruction(&mut self, instruction: Instruction)
        requires
            comp_wf(old(self).comp_view()),
        ensures
            final(self).comp_view() == sp_emit1(old(self).comp_view(), opcode_of(instruction)),
            comp_wf(final(self).comp_view()),
    {
        let w = opcode(instruction);
        self.push_code(w);
    }

    fn emit_call(&mut self, function_id: usize)
        requires
            comp_wf(old(self).comp_view()),
        ensures
            final(self).comp_view() == sp_emit2(old(self).comp_view(), OP_CALL, function_id as u64),
            comp_wf(final(self).comp_view()),
    {
        self.push_code2(OP_CALL, function_id as u64);
    }

    /// Writes at `jump_index` the displacement to the current code end.
    fn patch_jump(&mut self, jump_index: usize) -> (r: Result<(), CompileError>)
        requires
            comp_wf(old(self).comp_view()),
        ensures
            match sp_patch(old(self).comp_view(), jump_index as int) {
                Result::Ok(c) => r is Ok && final(self).comp_view() == c && comp_wf(final(self).comp_view()),
                Result::Err(e) => r == Result::<(), CompileError>::Err(e) && final(self).comp_view() == old(self).comp_view()
                    && comp_wf(final(self).comp_view()),
            },
    {
        let id = self.current_function_id();
        let len = self.program.functions[id].code.len();
        if jump_index < len {
            self.program.functions[id].code.set(jump_index, (len - jump_index - 1) as u64);
            proof {
                assert(self.comp_view() =~= match sp_patch(old(self).comp_view(), jump_index as int) {
                    Result::Ok(c) => c,
                    Result::Err(_) => old(self).comp_view(),
                });
            }
            Ok(())
        } else {
            Err(CompileError::PatchOutOfRange)
        }
    }
}

/// The two wrapping operations compute the back-edge displacement
/// `a - b - 2`, reduced to a 64-bit word.
proof fn lemma_wrap_back_edge(a: u64, b: u64)
    ensures
        vstd::wrapping::u64_specs::wrapping_sub(a, vstd::wrapping::u64_specs::wrapping_add(b, 2))
            == wrap_u64(a as int - b as int - 2),
{
    let m = 0x1_0000_0000_0000_0000int;
    let x = a as int - b as int - 2;
    let s = vstd::wrapping::u64_specs::wrapping_sub(
        a,
        vstd::wrapping::u64_specs::wrapping_add(b, 2),
    ) as int;
    assert(s == x || s == x + m || s == x + 2 * m);
    vstd::arithmetic::div_mod::lemma_small_mod(s as nat, m as nat);
    if s == x + m {
        vstd::arithmetic::div_mod::lemma_mod_multiples_vanish(1, x, m);
    } else if s == x + 2 * m {
        vstd::arithmetic::div_mod::lemma_mod_multiples_vanish(2, x, m);
    } else {
        vstd::arithmetic::div_mod::lemma_mod_multiples_vanish(0, x, m);
    }
}

impl Compiler {
    fn emit_jump(&mut self, jump: i64)
        requires
            comp_wf(old(self).comp_view()),
        ensures
            final(self).comp_view() == sp_emit2(old(self).comp_view(), OP_JUMP, i64_to_u64(jump)),
            comp_wf(final(self).comp_view()),
    {
        let w = i64_to_word(jump);
        self.push_code2(OP_JUMP, w);
    }

    fn emit_jump_false(&mut self, jump: i64)
        requires
            comp_wf(old(self).comp_view()),
        ensures
            final(self).comp_view() == sp_emit2(
                old(self).comp_view(),
                OP_JUMP_FALSE,
                i64_to_u64(jump),
            ),
            comp_wf(final(self).comp_view()),
    {
        let w = i64_to_word(jump);
        self.push_code2(OP_JUMP_FALSE, w);
    }

    fn emit_bind(&mut self, nbinds: usize)
        requires
            comp_wf(old(self).comp_view()),
        ensures
            final(self).comp_view() == sp_emit2(old(self).comp_view(), OP_BIND, nbinds as u64),
            comp_wf(final(self).comp_view()),
    {
        self.push_code2(OP_BIND, nbinds as u64);
    }

    fn emit_unbind(&mut self, nbinds: usize)
        requires
            comp_wf(old(self).comp_view()),
        ensures
            final(self).comp_view() == sp_emit2(old(self).comp_view(), OP_UNBIND, nbinds as u64),
            comp_wf(final(self).comp_view()),
    {
        self.push_code2(OP_UNBIND, nbinds as u64);
    }

    fn emit_push_bind(&mut self, index: usize)
        requires
            comp_wf(old(self).comp_view()),
        ensures
            final(self).comp_view() == sp_emit2(old(self).comp_view(), OP_PUSH_BIND, index as u64),
            comp_wf(final(self).comp_view()),
    {
        self.push_code2(OP_PUSH_BIND, index as u64);
    }

    fn emit_push_var(&mut self, index: usize)
        requires
            comp_wf(old(self).comp_view()),
        ensures
            final(self).comp_view() == sp_emit2(old(self).comp_view(), OP_PUSH_VAR, index as u64),
            comp_wf(final(self).comp_view()),
    {
        self.push_code2(OP_PUSH_VAR, index as u64);
    }

    fn emit_make_var(&mut self, index: usize)
        requires
            comp_wf(old(self).comp_view()),
        ensures
            final(self).comp_view() == sp_emit2(old(self).comp_view(), OP_MAKE_VAR, index as u64),
            comp_wf(final(self).comp_view()),
    {
        self.push_code2(OP_MAKE_VAR, index as u64);
    }

    /// Patches the exits recorded for an `if`, in order.
    fn patch_exits(&mut self, exits: &Vec<usize>, k: usize) -> (r: Result<(), CompileError>)
        requires
            comp_wf(old(self).comp_view()),
            k <= exits@.len(),
        ensures
            match sp_patch_all(old(self).comp_view(), ints_of_usizes(exits@), k as int) {
                Result::Ok(c) => r is Ok && final(self).comp_view() == c && comp_wf(
                    final(self).comp_view(),
                ) && final(self).comp_view().fstack == old(self).comp_view().fstack,
                Result::Err(e) => r == Result::<(), CompileError>::Err(e),
            },
        decreases exits@.len() - k,
    {
        if k >= exits.len() {
            return Ok(());
        }
        match self.patch_jump(exits[k]) {
            Ok(()) => self.patch_exits(exits, k + 1),
            Err(e) => Err(e),
        }
    }

    /// Lowers the single typed item at `idx`, with everything a block
    /// item contains.
    #[verifier::rlimit(100)]
    #[verifier::spinoff_prover]
    fn compile_expression(&mut self, chunk: &Vec<TypedIR>, idx: usize) -> (r: Result<
        usize,
        CompileError,
    >)
        requires
            comp_wf(old(self).comp_view()),
            idx < chunk@.len(),
        ensures
            match sp_compile_expr(old(self).comp_view(), views_of_typed(chunk@), idx as int) {
                CompRes::Next(c1, j) => r matches Ok(j2) && j2 as int == j && idx < j2
                    && j2 <= chunk@.len() && final(self).comp_view() == c1 && comp_wf(
                    final(self).comp_view(),
                ) && final(self).comp_view().fstack == old(self).comp_view().fstack,
                CompRes::Abort(e) => r == Result::<usize, CompileError>::Err(e),
            },
        decreases chunk@.len() - idx, 0int,
    {
        let n = chunk.len();
        let item = &chunk[idx];
        match &item.kind {
            TypedIRKind::PushBool(value) => {
                self.emit_push_bool(*value);
                Ok(idx + 1)
            },
            TypedIRKind::PushInt(value) => {
                self.emit_push_int(*value);
                Ok(idx + 1)
            },
            TypedIRKind::PushStr(value) => {
                self.emit_push_str(value.clone());
                Ok(idx + 1)
            },
            TypedIRKind::End => Err(CompileError::UnexpectedEnd),
            TypedIRKind::If => {
                let exits: Vec<usize> = Vec::new();
                proof {
                    assert(ints_of_usizes(exits@) =~= Seq::<int>::empty());
                }
                self.compile_if(chunk, idx + 1, Some(0), exits)
            },
            TypedIRKind::Elif => Err(CompileError::UnexpectedElif),
            TypedIRKind::Else => Err(CompileError::UnexpectedElse),
            TypedIRKind::While => {
                let id = self.current_function_id();
                let head = self.program.functions[id].code.len();
                self.compile_while(chunk, idx + 1, head, 0)
            },
            TypedIRKind::Then => Err(CompileError::UnexpectedThen),
            TypedIRKind::Do => Err(CompileError::UnexpectedDo),
            TypedIRKind::Def(name) => self.compile_function(name.clone(), chunk, idx + 1),
            TypedIRKind::Var => self.compile_variable(chunk, idx + 1),
            TypedIRKind::Dup => {
                self.emit_instruction(Instruction::Dup);
                Ok(idx + 1)
            },
            TypedIRKind::Over => {
                self.emit_instruction(Instruction::Over);
                Ok(idx + 1)
            },
            TypedIRKind::Drop => {
                self.emit_instruction(Instruction::Drop);
                Ok(idx + 1)
            },
            TypedIRKind::Swap => {
                self.emit_instruction(Instruction::Swap);
                Ok(idx + 1)
            },
            TypedIRKind::PrintBool => {
                self.emit_instruction(Instruction::PrintBool);
                Ok(idx + 1)
            },
            TypedIRKind::PrintInt => {
                self.emit_instruction(Instruction::PrintInt);
                Ok(idx + 1)
            },
            TypedIRKind::PrintStr => {
                self.emit_instruction(Instruction::PrintStr);
                Ok(idx + 1)
            },
            TypedIRKind::PrintPtr => Err(CompileError::PrintPtrUnsupported),
            TypedIRKind::And => {
                self.emit_instruction(Instruction::And);
                Ok(idx + 1)
            },
            TypedIRKind::Or => {
                self.emit_instruction(Instruction::Or);
                Ok(idx + 1)
            },
            TypedIRKind::Not => {
                self.emit_instruction(Instruction::Not);
                Ok(idx + 1)
            },
            TypedIRKind::Add => {
                self.emit_instruction(Instruction::Add);
                Ok(idx + 1)
            },
            TypedIRKind::Subtract => {
                self.emit_instruction(Instruction::Subtract);
                Ok(idx + 1)
            },
            TypedIRKind::Multiply => {
                self.emit_instruction(Instruction::Multiply);
                Ok(idx + 1)
            },
            TypedIRKind::Divide => {
                self.emit_instruction(Instruction::Divide);
                Ok(idx + 1)
            },
            TypedIRKind::Eq => {
                self.emit_instruction(Instruction::Eq);
                Ok(idx + 1)
            },
            TypedIRKind::Neq => {
                self.emit_instruction(Instruction::Neq);
                Ok(idx + 1)
            },
            TypedIRKind::Lt => {
                self.emit_instruction(Instruction::Lt);
                Ok(idx + 1)
            },
            TypedIRKind::Gt => {
                self.emit_instruction(Instruction::Gt);
                Ok(idx + 1)
            },
            TypedIRKind::Assign => {
                self.emit_instruction(Instruction::Assign);
                Ok(idx + 1)
            },
            TypedIRKind::Load => {
                self.emit_instruction(Instruction::Load);
                Ok(idx + 1)
            },
            TypedIRKind::LoadStr => {
                self.emit_instruction(Instruction::LoadStr);
                Ok(idx + 1)
            },
            TypedIRKind::Call(name) => {
                match self.get_function_id(name) {
                    Some(function_id) => {
                        self.emit_call(function_id);
                        Ok(idx + 1)
                    },
                    None => Err(CompileError::UnknownFunction),
                }
            },
            TypedIRKind::Bind(nbinds) => {
                self.emit_bind(*nbinds);
                Ok(idx + 1)
            },
            TypedIRKind::Unbind(nbinds) => {
                self.emit_unbind(*nbinds);
                Ok(idx + 1)
            },
            TypedIRKind::PushBind(index) => {
                self.emit_push_bind(*index);
                Ok(idx + 1)
            },
            TypedIRKind::PushVar(index) => {
                self.emit_push_var(*index);
                Ok(idx + 1)
            },
            TypedIRKind::MakeVar(_) => Err(CompileError::UnexpectedMakeVar),
        }
    }

    /// Lowers body items until an `End` is consumed or the chunk ends.
    fn compile_body(&mut self, chunk: &Vec<TypedIR>, idx: usize) -> (r: Result<
        usize,
        CompileError,
    >)
        requires
            comp_wf(old(self).comp_view()),
            idx <= chunk@.len(),
        ensures
            match sp_compile_body(old(self).comp_view(), views_of_typed(chunk@), idx as int) {
                CompRes::Next(c1, j) => r matches Ok(j2) && j2 as int == j && idx <= j2
                    && j2 <= chunk@.len() && final(self).comp_view() == c1 && comp_wf(
                    final(self).comp_view(),
                ) && final(self).comp_view().fstack == old(self).comp_view().fstack,
                CompRes::Abort(e) => r == Result::<usize, CompileError>::Err(e),
            },
        decreases chunk@.len() - idx, 1int,
    {
        if idx >= chunk.len() {
            return Ok(idx);
        }
        if let TypedIRKind::End = &chunk[idx].kind {
            return Ok(idx + 1);
        }
        match self.compile_expression(chunk, idx) {
            Ok(j) => self.compile_body(chunk, j),
            Err(e) => Err(e),
        }
    }

    /// Lowers a function declaration's signature-free remainder: the
    /// body into a freshly registered function, closed with `Return`.
    fn compile_function(&mut self, name: String, chunk: &Vec<TypedIR>, idx: usize) -> (r: Result<
        usize,
        CompileError,
    >)
        requires
            comp_wf(old(self).comp_view()),
            idx <= chunk@.len(),
        ensures
            match sp_compile_function(
                old(self).comp_view(),
                name@,
                views_of_typed(chunk@),
                idx as int,
            ) {
                CompRes::Next(c1, j) => r matches Ok(j2) && j2 as int == j && idx <= j2
                    && j2 <= chunk@.len() && final(self).comp_view() == c1 && comp_wf(
                    final(self).comp_view(),
                ) && final(self).comp_view().fstack == old(self).comp_view().fstack,
                CompRes::Abort(e) => r == Result::<usize, CompileError>::Err(e),
            },
        decreases chunk@.len() - idx, 2int,
    {
        self.add_function(name);
        let j = match self.compile_body(chunk, idx) {
            Ok(j) => j,
            Err(e) => {
                return Err(e);
            },
        };
        self.emit_instruction(Instruction::Return);
        let ghost before_pop = self.comp_view();
        match self.function_stack.pop() {
            Some(_) => {},
            None => {
                proof {
                    assert(false);
                }
                return Err(CompileError::Internal);
            },
        }
        proof {
            assert(self.comp_view() =~= (CompView {
                fstack: before_pop.fstack.drop_last(),
                ..before_pop
            }));
        }
        Ok(j)
    }

    /// Lowers a `var` chunk's remainder to the end of the chunk.
    fn compile_variable(&mut self, chunk: &Vec<TypedIR>, idx: usize) -> (r: Result<
        usize,
        CompileError,
    >)
        requires
            comp_wf(old(self).comp_view()),
            idx <= chunk@.len(),
        ensures
            match sp_compile_var(old(self).comp_view(), views_of_typed(chunk@), idx as int) {
                CompRes::Next(c1, j) => r matches Ok(j2) && j2 as int == j && idx <= j2
                    && j2 <= chunk@.len() && final(self).comp_view() == c1 && comp_wf(
                    final(self).comp_view(),
                ) && final(self).comp_view().fstack == old(self).comp_view().fstack,
                CompRes::Abort(e) => r == Result::<usize, CompileError>::Err(e),
            },
        decreases chunk@.len() - idx, 2int,
    {
        if idx >= chunk.len() {
            return Ok(idx);
        }
        if let TypedIRKind::MakeVar(index) = &chunk[idx].kind {
            let index = *index;
            if index == usize::MAX {
                return Err(CompileError::TooManyVariables);
            }
            if index >= self.program.variable_size {
                self.program.variable_size = index + 1;
            }
            self.emit_make_var(index);
            return self.compile_variable(chunk, idx + 1);
        }
        match self.compile_expression(chunk, idx) {
            Ok(j) => self.compile_variable(chunk, j),
            Err(e) => Err(e),
        }
    }

    /// Lowers an `if` block, patching the pending `JumpFalse` and the
    /// recorded exits as the arms close.
    fn compile_if(
        &mut self,
        chunk: &Vec<TypedIR>,
        idx: usize,
        jump_index: Option<usize>,
        exits: Vec<usize>,
    ) -> (r: Result<usize, CompileError>)
        requires
            comp_wf(old(self).comp_view()),
            idx <= chunk@.len(),
        ensures
            match sp_compile_if(
                old(self).comp_view(),
                views_of_typed(chunk@),
                idx as int,
                match jump_index {
                    Some(j) => Option::Some(j as int),
                    None => Option::None,
                },
                ints_of_usizes(exits@),
            ) {
                CompRes::Next(c1, j) => r matches Ok(j2) && j2 as int == j && idx <= j2
                    && j2 <= chunk@.len() && final(self).comp_view() == c1 && comp_wf(
                    final(self).comp_view(),
                ) && final(self).comp_view().fstack == old(self).comp_view().fstack,
                CompRes::Abort(e) => r == Result::<usize, CompileError>::Err(e),
            },
        decreases chunk@.len() - idx, 2int,
    {
        if idx >= chunk.len() {
            return Ok(idx);
        }
        match &chunk[idx].kind {
            TypedIRKind::End => {
                if let Some(ji) = jump_index {
                    match self.patch_jump(ji) {
                        Ok(()) => {},
                        Err(e) => {
                            return Err(e);
                        },
                    }
                }
                match self.patch_exits(&exits, 0) {
                    Ok(()) => Ok(idx + 1),
                    Err(e) => Err(e),
                }
            },
            TypedIRKind::Elif => {
                match jump_index {
                    Some(ji) => {
                        proof {
                            assert(i64_to_u64(-1i64) == wrap_u64(-1));
                        }
                        self.emit_jump(-1);
                        let id = self.current_function_id();
                        let mut exits = exits;
                        let ghost exits0 = exits@;
                        let slot = self.program.functions[id].code.len() - 1;
                        exits.push(slot);
                        proof {
                            assert(ints_of_usizes(exits@) =~= ints_of_usizes(exits0).push(
                                slot as int,
                            ));
                        }
                        match self.patch_jump(ji) {
                            Ok(()) => self.compile_if(chunk, idx + 1, jump_index, exits),
                            Err(e) => Err(e),
                        }
                    },
                    None => Err(CompileError::MissingJumpTarget),
                }
            },
            TypedIRKind::Else => {
                match jump_index {
                    Some(ji) => {
                        proof {
                            assert(i64_to_u64(-1i64) == wrap_u64(-1));
                        }
                        self.emit_jump(-1);
                        let id = self.current_function_id();
                        let mut exits = exits;
                        let ghost exits0 = exits@;
                        let slot = self.program.functions[id].code.len() - 1;
                        exits.push(slot);
                        proof {
                            assert(ints_of_usizes(exits@) =~= ints_of_usizes(exits0).push(
                                slot as int,
                            ));
                        }
                        match self.patch_jump(ji) {
                            Ok(()) => self.compile_if(chunk, idx + 1, None, exits),
                            Err(e) => Err(e),
                        }
                    },
                    None => Err(CompileError::MissingJumpTarget),
                }
            },
            TypedIRKind::Then => {
                proof {
                    assert(i64_to_u64(-1i64) == wrap_u64(-1));
                }
                self.emit_jump_false(-1);
                let id = self.current_function_id();
                let ji = self.program.functions[id].code.len() - 1;
                self.compile_if(chunk, idx + 1, Some(ji), exits)
            },
            _ => {
                match self.compile_expression(chunk, idx) {
                    Ok(j) => self.compile_if(chunk, j, jump_index, exits),
                    Err(e) => Err(e),
                }
            },
        }
    }

    /// Lowers a `while` block: the back edge to `head` is emitted at
    /// `End`, and the pending `JumpFalse` from `Do` is patched there.
    fn compile_while(
        &mut self,
        chunk: &Vec<TypedIR>,
        idx: usize,
        head: usize,
        do_slot: usize,
    ) -> (r: Result<usize, CompileError>)
        requires
            comp_wf(old(self).comp_view()),
            idx <= chunk@.len(),
        ensures
            match sp_compile_while(
                old(self).comp_view(),
                views_of_typed(chunk@),
                idx as int,
                head as int,
                do_slot as int,
            ) {
                CompRes::Next(c1, j) => r matches Ok(j2) && j2 as int == j && idx <= j2
                    && j2 <= chunk@.len() && final(self).comp_view() == c1 && comp_wf(
                    final(self).comp_view(),
                ) && final(self).comp_view().fstack == old(self).comp_view().fstack,
                CompRes::Abort(e) => r == Result::<usize, CompileError>::Err(e),
            },
        decreases chunk@.len() - idx, 2int,
    {
        if idx >= chunk.len() {
            return Ok(idx);
        }
        match &chunk[idx].kind {
            TypedIRKind::End => {
                let id = self.current_function_id();
                let len = self.program.functions[id].code.len();
                // the +2 skips the back jump's own opcode and immediate
                let back = (head as u64).wrapping_sub((len as u64).wrapping_add(2));
                proof {
                    lemma_wrap_back_edge(head as u64, len as u64);
                }
                self.push_code2(OP_JUMP, back);
                match self.patch_jump(do_slot) {
                    Ok(()) => Ok(idx + 1),
                    Err(e) => Err(e),
                }
            },
            TypedIRKind::Do => {
                proof {
                    assert(i64_to_u64(-1i64) == wrap_u64(-1));
                }
                self.emit_jump_false(-1);
                let id = self.current_function_id();
                let slot = self.program.functions[id].code.len() - 1;
                self.compile_while(chunk, idx + 1, head, slot)
            },
            _ => {
                match self.compile_expression(chunk, idx) {
                    Ok(j) => self.compile_while(chunk, j, head, do_slot),
                    Err(e) => Err(e),
                }
            },
        }
    }

    /// Lowers one typed chunk: a `Def` or a `var` declaration.
    fn compile_chunk(&mut self, chunk: &Vec<TypedIR>) -> (r: Result<(), CompileError>)
        requires
            comp_wf(old(self).comp_view()),
        ensures
            match sp_compile_chunk(old(self).comp_view(), views_of_typed(chunk@)) {
                Result::Ok(c1) => r is Ok && final(self).comp_view() == c1 && comp_wf(
                    final(self).comp_view(),
                ),
                Result::Err(e) => r == Result::<(), CompileError>::Err(e),
            },
    {
        if chunk.len() == 0 {
            return Err(CompileError::EmptyChunk);
        }
        match &chunk[0].kind {
            TypedIRKind::Def(name) => {
                match self.compile_function(name.clone(), chunk, 1) {
                    Ok(_) => Ok(()),
                    Err(e) => Err(e),
                }
            },
            TypedIRKind::Var => {
                match self.compile_variable(chunk, 1) {
                    Ok(_) => Ok(()),
                    Err(e) => Err(e),
                }
            },
            _ => Err(CompileError::UnexpectedChunkStart),
        }
    }
}

/// Lowers typed chunks to a bytecode program: one function per `Def`,
/// the top-level `var` initializers appended to function 0, strings
/// interned into the program's table, and the entry set to the last
/// function named `main` (0, the initializer, if there is none).
///
/// The result is exactly [`sp_compile`] of the chunks' views.
#[verifier::loop_isolation(false)]
pub fn compile(ir_chunks: TypedChunks) -> (r: Result<Program, CompileError>)
    ensures
        match sp_compile(views_of_typed_chunks(ir_chunks@)) {
            Result::Ok(pv) => r matches Ok(p) && p@ == pv,
            Result::Err(e) => r == Result::<Program, CompileError>::Err(e),
        },
{
    let ghost cviews = views_of_typed_chunks(ir_chunks@);
    let mut compiler = Compiler::new();
    let n = ir_chunks.len();
    let mut i: usize = 0;
    while i < n
        invariant
            i <= n,
            comp_wf(compiler.comp_view()),
            sp_compile_chunks(sp_init_comp(), cviews, 0) == sp_compile_chunks(
                compiler.comp_view(),
                cviews,
                i as int,
            ),
        decreases n - i,
    {
        proof {
            assert(cviews[i as int] == views_of_typed(ir_chunks@[i as int]@));
        }
        match compiler.compile_chunk(&ir_chunks[i]) {
            Ok(()) => {},
            Err(e) => {
                return Err(e);
            },
        }
        i = i + 1;
    }
    let Compiler { program, .. } = compiler;
    Ok(program)
}

/// Whether a typed chunk declares no function named `main`.
pub open spec fn declares_no_main(chunk: Seq<TypedKindView>) -> bool {
    forall|i: int| 0 <= i < chunk.len() ==> chunk[i] != TypedKindView::Def(main_name())
}

/// Patching never moves the entry.
proof fn lemma_patch_all_entry(c: CompView, exits: Seq<int>, k: int)
    ensures
        match sp_patch_all(c, exits, k) {
            Result::Ok(c1) => c1.prog.entry == c.prog.entry,
            Result::Err(_) => true,
        },
    decreases exits.len() - k,
{
    if 0 <= k < exits.len() {
        match sp_patch(c, exits[k]) {
            Result::Ok(c1) => {
                lemma_patch_all_entry(c1, exits, k + 1);
            },
            Result::Err(_) => {},
        }
    }
}

/// Lowering an item of a chunk without a `main` keeps the entry.
proof fn lemma_expr_entry(c: CompView, chunk: Seq<TypedKindView>, idx: int)
    requires
        declares_no_main(chunk),
    ensures
        match sp_compile_expr(c, chunk, idx) {
            CompRes::Next(c1, _) => c1.prog.entry == c.prog.entry,
            CompRes::Abort(_) => true,
        },
    decreases chunk.len() - idx, 0int,
{
    if 0 <= idx < chunk.len() {
        match chunk[idx] {
            TypedKindView::If => {
                lemma_if_entry(c, chunk, idx + 1, Option::Some(0int), Seq::empty());
            },
            TypedKindView::While => {
                lemma_while_entry(c, chunk, idx + 1, sp_code(c).len() as int, 0int);
            },
            TypedKindView::Def(name) => {
                assert(chunk[idx] != TypedKindView::Def(main_name()));
                lemma_function_entry(c, name, chunk, idx + 1);
            },
            TypedKindView::Var => {
                lemma_var_entry(c, chunk, idx + 1);
            },
            _ => {},
        }
    }
}

/// Lowering a body without a `main` keeps the entry.
proof fn lemma_body_entry(c: CompView, chunk: Seq<TypedKindView>, idx: int)
    requires
        declares_no_main(chunk),
    ensures
        match sp_compile_body(c, chunk, idx) {
            CompRes::Next(c1, _) => c1.prog.entry == c.prog.entry,
            CompRes::Abort(_) => true,
        },
    decreases chunk.len() - idx, 1int,
{
    if 0 <= idx < chunk.len() && !(chunk[idx] is End) {
        match sp_compile_expr(c, chunk, idx) {
            CompRes::Next(c1, j) => {
                lemma_expr_entry(c, chunk, idx);
                if idx < j <= chunk.len() {
                    lemma_body_entry(c1, chunk, j);
                }
            },
            CompRes::Abort(_) => {},
        }
    }
}

/// Registering and lowering a function not named `main` keeps the
/// entry.
proof fn lemma_function_entry(c: CompView, name: Seq<char>, chunk: Seq<TypedKindView>, idx: int)
    requires
        declares_no_main(chunk),
        name != main_name(),
    ensures
        match sp_compile_function(c, name, chunk, idx) {
            CompRes::Next(c1, _) => c1.prog.entry == c.prog.entry,
            CompRes::Abort(_) => true,
        },
    decreases chunk.len() - idx, 2int,
{
    let c1 = sp_add_function(c, name);
    lemma_body_entry(c1, chunk, idx);
}

/// Lowering a variable chunk keeps the entry.
proof fn lemma_var_entry(c: CompView, chunk: Seq<TypedKindView>, idx: int)
    requires
        declares_no_main(chunk),
    ensures
        match sp_compile_var(c, chunk, idx) {
            CompRes::Next(c1, _) => c1.prog.entry == c.prog.entry,
            CompRes::Abort(_) => true,
        },
    decreases chunk.len() - idx, 2int,
{
    if 0 <= idx < chunk.len() {
        match chunk[idx] {
            TypedKindView::MakeVar(slot) => {
                if slot != usize::MAX {
                    let c1 = CompView {
                        prog: ProgView {
                            var_size: if slot as int >= c.prog.var_size {
                                slot as int + 1
                            } else {
                                c.prog.var_size
                            },
                            ..c.prog
                        },
                        ..c
                    };
                    lemma_var_entry(sp_emit2(c1, OP_MAKE_VAR, slot as u64), chunk, idx + 1);
                }
            },
            _ => {
                match sp_compile_expr(c, chunk, idx) {
                    CompRes::Next(c1, j) => {
                        lemma_expr_entry(c, chunk, idx);
                        if idx < j <= chunk.len() {
                            lemma_var_entry(c1, chunk, j);
                        }
                    },
                    CompRes::Abort(_) => {},
                }
            },
        }
    }
}

/// Lowering an `if` block keeps the entry.
proof fn lemma_if_entry(
    c: CompView,
    chunk: Seq<TypedKindView>,
    idx: int,
    ji: Option<int>,
    exits: Seq<int>,
)
    requires
        declares_no_main(chunk),
    ensures
        match sp_compile_if(c, chunk, idx, ji, exits) {
            CompRes::Next(c1, _) => c1.prog.entry == c.prog.entry,
            CompRes::Abort(_) => true,
        },
    decreases chunk.len() - idx, 2int,
{
    if 0 <= idx < chunk.len() {
        match chunk[idx] {
            TypedKindView::End => {
                let patched = match ji {
                    Option::Some(j) => sp_patch(c, j),
                    Option::None => Result::Ok(c),
                };
                match patched {
                    Result::Ok(c1) => {
                        lemma_patch_all_entry(c1, exits, 0);
                    },
                    Result::Err(_) => {},
                }
            },
            TypedKindView::Elif => {
                if ji is Some {
                    let c1 = sp_emit2(c, OP_JUMP, wrap_u64(-1));
                    match sp_patch(c1, ji->Some_0) {
                        Result::Ok(c2) => {
                            lemma_if_entry(c2, chunk, idx + 1, ji, exits.push(sp_code(c1).len() - 1));
                        },
                        Result::Err(_) => {},
                    }
                }
            },
            TypedKindView::Else => {
                if ji is Some {
                    let c1 = sp_emit2(c, OP_JUMP, wrap_u64(-1));
                    match sp_patch(c1, ji->Some_0) {
                        Result::Ok(c2) => {
                            lemma_if_entry(
                                c2,
                                chunk,
                                idx + 1,
                                Option::None,
                                exits.push(sp_code(c1).len() - 1),
                            );
                        },
                        Result::Err(_) => {},
                    }
                }
            },
            TypedKindView::Then => {
                let c1 = sp_emit2(c, OP_JUMP_FALSE, wrap_u64(-1));
                lemma_if_entry(c1, chunk, idx + 1, Option::Some(sp_code(c1).len() - 1), exits);
            },
            _ => {
                match sp_compile_expr(c, chunk, idx) {
                    CompRes::Next(c1, j) => {
                        lemma_expr_entry(c, chunk, idx);
                        if idx < j <= chunk.len() {
                            lemma_if_entry(c1, chunk, j, ji, exits);
                        }
                    },
                    CompRes::Abort(_) => {},
                }
            },
        }
    }
}

/// Lowering a `while` block keeps the entry.
proof fn lemma_while_entry(
    c: CompView,
    chunk: Seq<TypedKindView>,
    idx: int,
    head: int,
    do_slot: int,
)
    requires
        declares_no_main(chunk),
    ensures
        match sp_compile_while(c, chunk, idx, head, do_slot) {
            CompRes::Next(c1, _) => c1.prog.entry == c.prog.entry,
            CompRes::Abort(_) => true,
        },
    decreases chunk.len() - idx, 2int,
{
    if 0 <= idx < chunk.len() {
        match chunk[idx] {
            TypedKindView::End => {},
            TypedKindView::Do => {
                let c1 = sp_emit2(c, OP_JUMP_FALSE, wrap_u64(-1));
                lemma_while_entry(c1, chunk, idx + 1, head, sp_code(c1).len() - 1);
            },
            _ => {
                match sp_compile_expr(c, chunk, idx) {
                    CompRes::Next(c1, j) => {
                        lemma_expr_entry(c, chunk, idx);
                        if idx < j <= chunk.len() {
                            lemma_while_entry(c1, chunk, j, head, do_slot);
                        }
                    },
                    CompRes::Abort(_) => {},
                }
            },
        }
    }
}

/// A program whose chunks declare no function named `main` keeps
/// function 0, the global initializer, as its entry.
pub proof fn lemma_entry_defaults_to_initializer(chunks: Seq<Seq<TypedKindView>>)
    requires
        forall|i: int| 0 <= i < chunks.len() ==> declares_no_main(#[trigger] chunks[i]),
    ensures
        match sp_compile(chunks) {
            Result::Ok(p) => p.entry == 0,
            Result::Err(_) => true,
        },
{
    lemma_chunks_entry(sp_init_comp(), chunks, 0);
}

/// Lowering chunks without a `main` keeps the entry.
proof fn lemma_chunks_entry(c: CompView, chunks: Seq<Seq<TypedKindView>>, i: int)
    requires
        forall|k: int| 0 <= k < chunks.len() ==> declares_no_main(#[trigger] chunks[k]),
    ensures
        match sp_compile_chunks(c, chunks, i) {
            Result::Ok(c1) => c1.prog.entry == c.prog.entry,
            Result::Err(_) => true,
        },
    decreases chunks.len() - i,
{
    if 0 <= i < chunks.len() {
        let chunk = chunks[i];
        if chunk.len() > 0 {
            match chunk[0] {
                TypedKindView::Def(name) => {
                    assert(chunk[0] != TypedKindView::Def(main_name()));
                    lemma_function_entry(c, name, chunk, 1);
                },
                TypedKindView::Var => {
                    lemma_var_entry(c, chunk, 1);
                },
                _ => {},
            }
            match sp_compile_chunk(c, chunk) {
                Result::Ok(c1) => {
                    lemma_chunks_entry(c1, chunks, i + 1);
                },
                Result::Err(_) => {},
            }
        }
    }
}

} // verus!
