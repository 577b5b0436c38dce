//! The stack-discipline type checker: untyped IR chunks in, typed IR
//! chunks out.
//!
//! The checker walks each chunk with a stack of per-scope type stacks
//! that shadows the runtime data stack, a bind stack of types, and
//! tables of structs, function signatures and variables.  It elaborates
//! the polymorphic `Print` into a concrete print instruction, expands
//! struct-typed parameters into their field types, resolves variables
//! to dense slot indices, and enforces that all arms of an `if` and the
//! body of a `while` agree on the stack's shape.
//!
//! The pass is specified by [`sp_typecheck`], a spec-level rendering of
//! the same walk, and [`typecheck`] is proved to produce exactly its
//! result.

use vstd::prelude::*;

use crate::ir::{
    copy_sig, copy_sigs, sig_eq, sigs_eq, views_of_ir, views_of_sigs, BaseTy, IRChunks, IRKind,
    IrKindView, TypeSigView, TypeSignature, IR,
};

verus! {

/// One item of typed IR, the contract between checker and lowering.
#[derive(Debug)]
pub struct TypedIR {
    pub kind: TypedIRKind,
}

/// The kinds of typed IR items the lowering consumes.
#[derive(Debug)]
pub enum TypedIRKind {
    // Literals
    PushBool(bool),
    PushInt(i64),
    PushStr(String),
    // Keywords
    End,
    If,
    Elif,
    Else,
    While,
    Then,
    Do,
    Def(String),
    Var,
    // Operators
    Dup,
    Over,
    Drop,
    Swap,
    PrintBool,
    PrintInt,
    PrintStr,
    PrintPtr,
    And,
    Or,
    Not,
    Add,
    Subtract,
    Multiply,
    Divide,
    Eq,
    Neq,
    Lt,
    Gt,
    Assign,
    Load,
    LoadStr,
    Call(String),
    Bind(usize),
    Unbind(usize),
    PushBind(usize),
    PushVar(usize),
    MakeVar(usize),
}

/// Mathematical view of a [`TypedIRKind`].
pub enum TypedKindView {
    PushBool(bool),
    PushInt(i64),
    PushStr(Seq<char>),
    End,
    If,
    Elif,
    Else,
    While,
    Then,
    Do,
    Def(Seq<char>),
    Var,
    Dup,
    Over,
    Drop,
    Swap,
    PrintBool,
    PrintInt,
    PrintStr,
    PrintPtr,
    And,
    Or,
    Not,
    Add,
    Subtract,
    Multiply,
    Divide,
    Eq,
    Neq,
    Lt,
    Gt,
    Assign,
    Load,
    LoadStr,
    Call(Seq<char>),
    Bind(usize),
    Unbind(usize),
    PushBind(usize),
    PushVar(usize),
    MakeVar(usize),
}

impl View for TypedIRKind {
    type V = TypedKindView;

    open spec fn view(&self) -> TypedKindView {
        match self {
            TypedIRKind::PushBool(b) => TypedKindView::PushBool(*b),
            TypedIRKind::PushInt(v) => TypedKindView::PushInt(*v),
            TypedIRKind::PushStr(s) => TypedKindView::PushStr(s@),
            TypedIRKind::End => TypedKindView::End,
            TypedIRKind::If => TypedKindView::If,
            TypedIRKind::Elif => TypedKindView::Elif,
            TypedIRKind::Else => TypedKindView::Else,
            TypedIRKind::While => TypedKindView::While,
            TypedIRKind::Then => TypedKindView::Then,
            TypedIRKind::Do => TypedKindView::Do,
            TypedIRKind::Def(n) => TypedKindView::Def(n@),
            TypedIRKind::Var => TypedKindView::Var,
            TypedIRKind::Dup => TypedKindView::Dup,
            TypedIRKind::Over => TypedKindView::Over,
            TypedIRKind::Drop => TypedKindView::Drop,
            TypedIRKind::Swap => TypedKindView::Swap,
            TypedIRKind::PrintBool => TypedKindView::PrintBool,
            TypedIRKind::PrintInt => TypedKindView::PrintInt,
            TypedIRKind::PrintStr => TypedKindView::PrintStr,
            TypedIRKind::PrintPtr => TypedKindView::PrintPtr,
            TypedIRKind::And => TypedKindView::And,
            TypedIRKind::Or => TypedKindView::Or,
            TypedIRKind::Not => TypedKindView::Not,
            TypedIRKind::Add => TypedKindView::Add,
            TypedIRKind::Subtract => TypedKindView::Subtract,
            TypedIRKind::Multiply => TypedKindView::Multiply,
            TypedIRKind::Divide => TypedKindView::Divide,
            TypedIRKind::Eq => TypedKindView::Eq,
            TypedIRKind::Neq => TypedKindView::Neq,
            TypedIRKind::Lt => TypedKindView::Lt,
            TypedIRKind::Gt => TypedKindView::Gt,
            TypedIRKind::Assign => TypedKindView::Assign,
            TypedIRKind::Load => TypedKindView::Load,
            TypedIRKind::LoadStr => TypedKindView::LoadStr,
            TypedIRKind::Call(n) => TypedKindView::Call(n@),
            TypedIRKind::Bind(n) => TypedKindView::Bind(*n),
            TypedIRKind::Unbind(n) => TypedKindView::Unbind(*n),
            TypedIRKind::PushBind(n) => TypedKindView::PushBind(*n),
            TypedIRKind::PushVar(n) => TypedKindView::PushVar(*n),
            TypedIRKind::MakeVar(n) => TypedKindView::MakeVar(*n),
        }
    }
}

impl View for TypedIR {
    type V = TypedKindView;

    open spec fn view(&self) -> TypedKindView {
        self.kind@
    }
}

/// One typed declaration chunk.
pub type TypedChunk = Vec<TypedIR>;

/// The checker's whole output.
pub type TypedChunks = Vec<TypedChunk>;

/// The views of a typed chunk.
pub open spec fn views_of_typed(s: Seq<TypedIR>) -> Seq<TypedKindView> {
    s.map_values(|x: TypedIR| x@)
}

/// The views of a sequence of typed chunks.
pub open spec fn views_of_typed_chunks(s: Seq<TypedChunk>) -> Seq<Seq<TypedKindView>> {
    s.map_values(|c: TypedChunk| views_of_typed(c@))
}

/// The error kinds the checker can report.  Checking stops at the
/// first violation.
#[derive(Clone, Copy, Debug, PartialEq, Eq, Structural)]
pub enum TypeError {
    /// Stack underflow or arity mismatch at a typed operation.
    Shape,
    /// An operand of the wrong type, mismatched `Eq`/`Neq` operands, a
    /// non-pointer target of `Assign`/`Load`, or a function body whose
    /// final stack differs from its declared returns.
    TypeMismatch,
    /// Arms of an `if`, or a loop body, leave the type stack in
    /// non-equal states.
    BranchMismatch,
    /// A call to an undeclared function, variable or struct.
    UnboundIdentifier,
    /// A keyword seen at a position where it cannot stand.
    UnexpectedToken,
    /// The variable table is full.
    VariableLimit,
    /// Never produced; it guards the specification's recursion.
    Internal,
}

/// A function signature: flattened parameter and return types.
#[verifier::ext_equal]
pub struct FnTypeView {
    pub params: Seq<TypeSigView>,
    pub rets: Seq<TypeSigView>,
}

/// Mathematical view of the checker's state.
#[verifier::ext_equal]
pub struct TyperView {
    /// Declared structs: name and flattened field types, later
    /// declarations shadowing earlier ones.
    pub structs: Seq<(Seq<char>, Seq<TypeSigView>)>,
    /// Declared functions: name and signature.
    pub functions: Seq<(Seq<char>, FnTypeView)>,
    /// Declared variables: name, type and slot index.
    pub variables: Seq<(Seq<char>, TypeSigView, usize)>,
    /// The next variable slot to hand out.
    pub next_var: usize,
    /// The stack of per-scope type stacks; the last is current.
    pub stacks: Seq<Seq<TypeSigView>>,
    /// The bind stack of types.
    pub binds: Seq<TypeSigView>,
}

/// The fields a struct named `name` was declared with, if any.
pub open spec fn st_of(tbl: Seq<(Seq<char>, Seq<TypeSigView>)>, name: Seq<char>) -> Option<
    Seq<TypeSigView>,
>
    decreases tbl.len(),
{
    if tbl.len() == 0 {
        Option::None
    } else if tbl.last().0 == name {
        Option::Some(tbl.last().1)
    } else {
        st_of(tbl.drop_last(), name)
    }
}

/// The signature a function named `name` was declared with, if any.
pub open spec fn fn_of(tbl: Seq<(Seq<char>, FnTypeView)>, name: Seq<char>) -> Option<FnTypeView>
    decreases tbl.len(),
{
    if tbl.len() == 0 {
        Option::None
    } else if tbl.last().0 == name {
        Option::Some(tbl.last().1)
    } else {
        fn_of(tbl.drop_last(), name)
    }
}

/// The type and slot of a variable named `name`, if any.
pub open spec fn var_of(tbl: Seq<(Seq<char>, TypeSigView, usize)>, name: Seq<char>) -> Option<
    (TypeSigView, usize),
>
    decreases tbl.len(),
{
    if tbl.len() == 0 {
        Option::None
    } else if tbl.last().0 == name {
        Option::Some((tbl.last().1, tbl.last().2))
    } else {
        var_of(tbl.drop_last(), name)
    }
}

/// The current (innermost) type stack.
pub open spec fn sp_top(t: TyperView) -> Seq<TypeSigView> {
    t.stacks.last()
}

/// `t` with the current type stack replaced.
pub open spec fn sp_set_top(t: TyperView, s: Seq<TypeSigView>) -> TyperView {
    TyperView { stacks: t.stacks.update(t.stacks.len() - 1, s), ..t }
}

/// `t` with one type pushed on the current stack.
pub open spec fn sp_push1(t: TyperView, v: TypeSigView) -> TyperView {
    sp_set_top(t, sp_top(t).push(v))
}

/// The top of the current stack and `t` with it popped.
pub open spec fn sp_pop1(t: TyperView) -> Option<(TypeSigView, TyperView)> {
    if sp_top(t).len() >= 1 {
        Option::Some((sp_top(t).last(), sp_set_top(t, sp_top(t).drop_last())))
    } else {
        Option::None
    }
}

/// The checker state a run starts with: empty tables, no stacks.
pub open spec fn sp_init_typer() -> TyperView {
    TyperView {
        structs: Seq::empty(),
        functions: Seq::empty(),
        variables: Seq::empty(),
        next_var: 0,
        stacks: Seq::empty(),
        binds: Seq::empty(),
    }
}

/// The result of checking a part of one chunk: the new state, the
/// typed IR emitted, and the index past what was consumed.
pub enum CheckRes {
    Next(TyperView, Seq<TypedKindView>, int),
    Abort(TypeError),
}

/// The result of parsing a function signature.
pub enum SigRes {
    Next(FnTypeView, int),
    Abort(TypeError),
}

/// The plain views of the primitive types.
pub open spec fn bool_v() -> TypeSigView {
    TypeSigView { ptr_depth: 0, base: BaseTy::Bool }
}

pub open spec fn int_v() -> TypeSigView {
    TypeSigView { ptr_depth: 0, base: BaseTy::Int }
}

pub open spec fn str_v() -> TypeSigView {
    TypeSigView { ptr_depth: 0, base: BaseTy::Str }
}

/// Checks the single item at `idx` (with everything a block item
/// contains, up to its `End`).
pub open spec fn sp_check_expr(t: TyperView, chunk: Seq<IrKindView>, idx: int) -> CheckRes
    decreases chunk.len() - idx, 0int,
{
    if !(0 <= idx < chunk.len()) || t.stacks.len() < 1 {
        CheckRes::Abort(TypeError::Internal)
    } else {
        match chunk[idx] {
            IrKindView::PushBool(b) => CheckRes::Next(
                sp_push1(t, bool_v()),
                seq![TypedKindView::PushBool(b)],
                idx + 1,
            ),
            IrKindView::PushInt(v) => CheckRes::Next(
                sp_push1(t, int_v()),
                seq![TypedKindView::PushInt(v)],
                idx + 1,
            ),
            IrKindView::PushStr(s) => CheckRes::Next(
                sp_push1(t, str_v()),
                seq![TypedKindView::PushStr(s)],
                idx + 1,
            ),
            IrKindView::End => CheckRes::Abort(TypeError::UnexpectedToken),
            IrKindView::If => {
                match sp_check_if(t, chunk, idx + 1, sp_top(t), Option::None) {
                    CheckRes::Next(t1, seg, j) => CheckRes::Next(
                        t1,
                        seq![TypedKindView::If] + seg,
                        j,
                    ),
                    CheckRes::Abort(e) => CheckRes::Abort(e),
                }
            },
            IrKindView::Elif => CheckRes::Abort(TypeError::UnexpectedToken),
            IrKindView::Else => CheckRes::Abort(TypeError::UnexpectedToken),
            IrKindView::While => {
                match sp_check_while(t, chunk, idx + 1, sp_top(t)) {
                    CheckRes::Next(t1, seg, j) => CheckRes::Next(
                        t1,
                        seq![TypedKindView::While] + seg,
                        j,
                    ),
                    CheckRes::Abort(e) => CheckRes::Abort(e),
                }
            },
            IrKindView::Then => CheckRes::Abort(TypeError::UnexpectedToken),
            IrKindView::Do => CheckRes::Abort(TypeError::UnexpectedToken),
            IrKindView::Def(name) => sp_check_function(t, name, chunk, idx + 1),
            IrKindView::FunctionArgument(_) => CheckRes::Abort(TypeError::UnexpectedToken),
            IrKindView::DashDash => CheckRes::Abort(TypeError::UnexpectedToken),
            IrKindView::Var(name) => sp_check_var(t, name, chunk, idx + 1),
            IrKindView::Struct(name) => sp_check_struct(t, name, chunk, idx + 1, Seq::empty()),
            IrKindView::StructField(_) => CheckRes::Abort(TypeError::UnexpectedToken),
            IrKindView::Dup => sp_check_shuffle(t, IrKindView::Dup, idx),
            IrKindView::Over => sp_check_shuffle(t, IrKindView::Over, idx),
            IrKindView::Drop => sp_check_shuffle(t, IrKindView::Drop, idx),
            IrKindView::Swap => sp_check_shuffle(t, IrKindView::Swap, idx),
            IrKindView::Print => sp_check_print(t, idx),
            IrKindView::Add => sp_check_int_op(t, TypedKindView::Add, idx),
            IrKindView::Subtract => sp_check_int_op(t, TypedKindView::Subtract, idx),
            IrKindView::Multiply => sp_check_int_op(t, TypedKindView::Multiply, idx),
            IrKindView::Divide => sp_check_int_op(t, TypedKindView::Divide, idx),
            IrKindView::And => sp_check_bool_op(t, TypedKindView::And, idx),
            IrKindView::Or => sp_check_bool_op(t, TypedKindView::Or, idx),
            IrKindView::Not => sp_check_not(t, idx),
            IrKindView::Eq => sp_check_eq_op(t, TypedKindView::Eq, idx),
            IrKindView::Neq => sp_check_eq_op(t, TypedKindView::Neq, idx),
            IrKindView::Lt => sp_check_cmp_op(t, TypedKindView::Lt, idx),
            IrKindView::Gt => sp_check_cmp_op(t, TypedKindView::Gt, idx),
            IrKindView::Assign => sp_check_assign(t, idx),
            IrKindView::Load => sp_check_load(t, idx),
            IrKindView::Call(name) => sp_check_call(t, name, idx),
            IrKindView::Bind(n) => sp_check_bind_op(t, n, idx),
            IrKindView::Unbind(n) => sp_check_unbind_op(t, n, idx),
            IrKindView::PushBind(i) => sp_check_pushbind_op(t, i, idx),
            IrKindView::PushVar(name) => sp_check_pushvar_op(t, name, idx),
        }
    }
}

/// Checks `Dup`, `Over`, `Drop` or `Swap`.
pub open spec fn sp_check_shuffle(t: TyperView, k: IrKindView, idx: int) -> CheckRes {
    match k {
        IrKindView::Dup => if sp_top(t).len() >= 1 {
            CheckRes::Next(sp_push1(t, sp_top(t).last()), seq![TypedKindView::Dup], idx + 1)
        } else {
            CheckRes::Abort(TypeError::Shape)
        },
        IrKindView::Over => if sp_top(t).len() >= 2 {
            CheckRes::Next(
                sp_push1(t, sp_top(t)[sp_top(t).len() - 2]),
                seq![TypedKindView::Over],
                idx + 1,
            )
        } else {
            CheckRes::Abort(TypeError::Shape)
        },
        IrKindView::Drop => match sp_pop1(t) {
            Option::Some((_, t1)) => CheckRes::Next(t1, seq![TypedKindView::Drop], idx + 1),
            Option::None => CheckRes::Abort(TypeError::Shape),
        },
        _ => match sp_pop1(t) {
            Option::Some((a, t1)) => match sp_pop1(t1) {
                Option::Some((b, t2)) => CheckRes::Next(
                    sp_push1(sp_push1(t2, a), b),
                    seq![TypedKindView::Swap],
                    idx + 1,
                ),
                Option::None => CheckRes::Abort(TypeError::Shape),
            },
            Option::None => CheckRes::Abort(TypeError::Shape),
        },
    }
}

/// Elaborates `Print` by the type at the top of the stack.
pub open spec fn sp_check_print(t: TyperView, idx: int) -> CheckRes {
    match sp_pop1(t) {
        Option::Some((v, t1)) => if v.ptr_depth >= 1 {
            CheckRes::Next(t1, seq![TypedKindView::PrintPtr], idx + 1)
        } else {
            match v.base {
                BaseTy::Bool => CheckRes::Next(t1, seq![TypedKindView::PrintBool], idx + 1),
                BaseTy::Int => CheckRes::Next(t1, seq![TypedKindView::PrintInt], idx + 1),
                BaseTy::Str => CheckRes::Next(t1, seq![TypedKindView::PrintStr], idx + 1),
                BaseTy::Named(_) => CheckRes::Abort(TypeError::TypeMismatch),
            }
        },
        Option::None => CheckRes::Abort(TypeError::Shape),
    }
}

/// Checks `Not`: one `bool` in, one `bool` out.
pub open spec fn sp_check_not(t: TyperView, idx: int) -> CheckRes {
    match sp_pop1(t) {
        Option::Some((a, t1)) => if a != bool_v() {
            CheckRes::Abort(TypeError::TypeMismatch)
        } else {
            CheckRes::Next(sp_push1(t1, bool_v()), seq![TypedKindView::Not], idx + 1)
        },
        Option::None => CheckRes::Abort(TypeError::Shape),
    }
}

/// Checks `Eq` or `Neq`: two equally typed values in, one `bool` out.
pub open spec fn sp_check_eq_op(t: TyperView, out: TypedKindView, idx: int) -> CheckRes {
    match sp_pop1(t) {
        Option::Some((b, t1)) => match sp_pop1(t1) {
            Option::Some((a, t2)) => if a != b {
                CheckRes::Abort(TypeError::TypeMismatch)
            } else {
                CheckRes::Next(sp_push1(t2, bool_v()), seq![out], idx + 1)
            },
            Option::None => CheckRes::Abort(TypeError::Shape),
        },
        Option::None => CheckRes::Abort(TypeError::Shape),
    }
}

/// Checks `Assign`: a pointer on top, the matching value below.
pub open spec fn sp_check_assign(t: TyperView, idx: int) -> CheckRes {
    match sp_pop1(t) {
        Option::Some((b, t1)) => match sp_pop1(t1) {
            Option::Some((a, t2)) => if b.ptr_depth >= 1 {
                if a == b.pointee() {
                    CheckRes::Next(t2, seq![TypedKindView::Assign], idx + 1)
                } else {
                    CheckRes::Abort(TypeError::TypeMismatch)
                }
            } else {
                CheckRes::Abort(TypeError::TypeMismatch)
            },
            Option::None => CheckRes::Abort(TypeError::Shape),
        },
        Option::None => CheckRes::Abort(TypeError::Shape),
    }
}

/// Checks `Load`: a pointer in, its pointee out, with the dedicated
/// `LoadStr` path for string pointees.
pub open spec fn sp_check_load(t: TyperView, idx: int) -> CheckRes {
    match sp_pop1(t) {
        Option::Some((a, t1)) => if a.ptr_depth >= 1 {
            if a.pointee() == str_v() {
                CheckRes::Next(sp_push1(t1, str_v()), seq![TypedKindView::LoadStr], idx + 1)
            } else {
                CheckRes::Next(sp_push1(t1, a.pointee()), seq![TypedKindView::Load], idx + 1)
            }
        } else {
            CheckRes::Abort(TypeError::TypeMismatch)
        },
        Option::None => CheckRes::Abort(TypeError::Shape),
    }
}

/// Checks `Call`: the stack must end with the callee's parameters;
/// they are replaced by its returns.
pub open spec fn sp_check_call(t: TyperView, name: Seq<char>, idx: int) -> CheckRes {
    match fn_of(t.functions, name) {
        Option::None => CheckRes::Abort(TypeError::UnboundIdentifier),
        Option::Some(ft) => {
            let s = sp_top(t);
            let plen = ft.params.len() as int;
            if s.len() >= plen && s.subrange(s.len() - plen, s.len() as int) == ft.params {
                CheckRes::Next(
                    sp_set_top(t, s.take(s.len() - plen) + ft.rets),
                    seq![TypedKindView::Call(name)],
                    idx + 1,
                )
            } else {
                CheckRes::Abort(TypeError::TypeMismatch)
            }
        },
    }
}

/// Checks `Bind(n)`: the top `n` types move to the bind stack.
pub open spec fn sp_check_bind_op(t: TyperView, n: usize, idx: int) -> CheckRes {
    let s = sp_top(t);
    if n as int <= s.len() {
        CheckRes::Next(
            TyperView {
                binds: t.binds + s.subrange(s.len() - n as int, s.len() as int),
                ..sp_set_top(t, s.take(s.len() - n as int))
            },
            seq![TypedKindView::Bind(n)],
            idx + 1,
        )
    } else {
        CheckRes::Abort(TypeError::Shape)
    }
}

/// Checks `Unbind(n)`: the top `n` bind types are dropped.
pub open spec fn sp_check_unbind_op(t: TyperView, n: usize, idx: int) -> CheckRes {
    if n as int <= t.binds.len() {
        CheckRes::Next(
            TyperView { binds: t.binds.take(t.binds.len() - n as int), ..t },
            seq![TypedKindView::Unbind(n)],
            idx + 1,
        )
    } else {
        CheckRes::Abort(TypeError::Shape)
    }
}

/// Checks `PushBind(i)`: pushes the type at bind index `i`.
pub open spec fn sp_check_pushbind_op(t: TyperView, i: usize, idx: int) -> CheckRes {
    if (i as int) < t.binds.len() {
        CheckRes::Next(sp_push1(t, t.binds[i as int]), seq![TypedKindView::PushBind(i)], idx + 1)
    } else {
        CheckRes::Abort(TypeError::Shape)
    }
}

/// Checks `PushVar(name)`: pushes a pointer to the variable's type and
/// resolves the name to its slot.
pub open spec fn sp_check_pushvar_op(t: TyperView, name: Seq<char>, idx: int) -> CheckRes {
    match var_of(t.variables, name) {
        Option::None => CheckRes::Abort(TypeError::UnboundIdentifier),
        Option::Some((ty, slot)) => CheckRes::Next(
            sp_push1(t, ty.ptr_to()),
            seq![TypedKindView::PushVar(slot)],
            idx + 1,
        ),
    }
}

/// Checks a binary integer operator: two `int` in, one `int` out.
pub open spec fn sp_check_int_op(t: TyperView, out: TypedKindView, idx: int) -> CheckRes {
    match sp_pop1(t) {
        Option::Some((b, t1)) => match sp_pop1(t1) {
            Option::Some((a, t2)) => if a != int_v() || b != int_v() {
                CheckRes::Abort(TypeError::TypeMismatch)
            } else {
                CheckRes::Next(sp_push1(t2, int_v()), seq![out], idx + 1)
            },
            Option::None => CheckRes::Abort(TypeError::Shape),
        },
        Option::None => CheckRes::Abort(TypeError::Shape),
    }
}

/// Checks a binary boolean operator: two `bool` in, one `bool` out.
pub open spec fn sp_check_bool_op(t: TyperView, out: TypedKindView, idx: int) -> CheckRes {
    match sp_pop1(t) {
        Option::Some((b, t1)) => match sp_pop1(t1) {
            Option::Some((a, t2)) => if a != bool_v() || b != bool_v() {
                CheckRes::Abort(TypeError::TypeMismatch)
            } else {
                CheckRes::Next(sp_push1(t2, bool_v()), seq![out], idx + 1)
            },
            Option::None => CheckRes::Abort(TypeError::Shape),
        },
        Option::None => CheckRes::Abort(TypeError::Shape),
    }
}

/// Checks an integer comparison: two `int` in, one `bool` out.
pub open spec fn sp_check_cmp_op(t: TyperView, out: TypedKindView, idx: int) -> CheckRes {
    match sp_pop1(t) {
        Option::Some((b, t1)) => match sp_pop1(t1) {
            Option::Some((a, t2)) => if a != int_v() || b != int_v() {
                CheckRes::Abort(TypeError::TypeMismatch)
            } else {
                CheckRes::Next(sp_push1(t2, bool_v()), seq![out], idx + 1)
            },
            Option::None => CheckRes::Abort(TypeError::Shape),
        },
        Option::None => CheckRes::Abort(TypeError::Shape),
    }
}

/// Checks body items until an `End` is consumed or the chunk ends.
pub open spec fn sp_check_body(t: TyperView, chunk: Seq<IrKindView>, idx: int) -> CheckRes
    decreases chunk.len() - idx, 1int,
{
    if !(0 <= idx < chunk.len()) {
        CheckRes::Next(t, Seq::empty(), idx)
    } else if chunk[idx] is End {
        CheckRes::Next(t, Seq::empty(), idx + 1)
    } else {
        match sp_check_expr(t, chunk, idx) {
            CheckRes::Next(t1, seg, j) => if idx < j <= chunk.len() {
                match sp_check_body(t1, chunk, j) {
                    CheckRes::Next(t2, seg2, j2) => CheckRes::Next(t2, seg + seg2, j2),
                    CheckRes::Abort(e) => CheckRes::Abort(e),
                }
            } else {
                CheckRes::Abort(TypeError::Internal)
            },
            CheckRes::Abort(e) => CheckRes::Abort(e),
        }
    }
}

/// Parses a function signature: `FunctionArgument` items, with a
/// `DashDash` separating parameters from returns, up to the `Do`.
/// A struct-typed argument is expanded to its field types.
pub open spec fn sp_parse_sig(
    t: TyperView,
    chunk: Seq<IrKindView>,
    idx: int,
    returns_seen: bool,
    ft: FnTypeView,
) -> SigRes
    decreases chunk.len() - idx, 1int,
{
    if !(0 <= idx < chunk.len()) {
        SigRes::Next(ft, idx)
    } else {
        match chunk[idx] {
            IrKindView::Do => SigRes::Next(ft, idx + 1),
            IrKindView::DashDash => sp_parse_sig(t, chunk, idx + 1, true, ft),
            IrKindView::FunctionArgument(ts) => {
                let expanded = if ts.ptr_depth == 0 && ts.base is Named {
                    match st_of(t.structs, ts.base->Named_0) {
                        Option::Some(fields) => Option::Some(fields),
                        Option::None => Option::None,
                    }
                } else {
                    Option::Some(seq![ts])
                };
                match expanded {
                    Option::None => SigRes::Abort(TypeError::UnboundIdentifier),
                    Option::Some(add) => {
                        let ft1 = if returns_seen {
                            FnTypeView { rets: ft.rets + add, ..ft }
                        } else {
                            FnTypeView { params: ft.params + add, ..ft }
                        };
                        sp_parse_sig(t, chunk, idx + 1, returns_seen, ft1)
                    },
                }
            },
            _ => SigRes::Abort(TypeError::UnexpectedToken),
        }
    }
}

/// Checks a function declaration past its name: the signature, then
/// the body against a fresh stack holding the parameters; at the end
/// the stack must equal the declared returns exactly.  The signature
/// is registered before the body, so recursive calls resolve.
pub open spec fn sp_check_function(
    t: TyperView,
    name: Seq<char>,
    chunk: Seq<IrKindView>,
    idx: int,
) -> CheckRes
    decreases chunk.len() - idx, 2int,
{
    match sp_parse_sig(t, chunk, idx, false, FnTypeView { params: Seq::empty(), rets: Seq::empty() }) {
        SigRes::Abort(e) => CheckRes::Abort(e),
        SigRes::Next(ft, j) => if idx <= j <= chunk.len() {
            let t1 = TyperView {
                stacks: t.stacks.push(ft.params),
                functions: t.functions.push((name, ft)),
                ..t
            };
            match sp_check_body(t1, chunk, j) {
                CheckRes::Abort(e) => CheckRes::Abort(e),
                CheckRes::Next(t2, seg, j2) => {
                    match fn_of(t2.functions, name) {
                        Option::None => CheckRes::Abort(TypeError::Internal),
                        Option::Some(ft2) => if t2.stacks.len() >= 1 && sp_top(t2) == ft2.rets {
                            CheckRes::Next(
                                TyperView { stacks: t2.stacks.drop_last(), ..t2 },
                                seq![TypedKindView::Def(name)] + seg,
                                j2,
                            )
                        } else {
                            CheckRes::Abort(TypeError::TypeMismatch)
                        },
                    }
                },
            }
        } else {
            CheckRes::Abort(TypeError::Internal)
        },
    }
}

/// Checks a variable declaration past its name: the initializer runs
/// against a fresh, empty stack and must leave exactly one value; the
/// variable takes that type and the next dense slot.
pub open spec fn sp_check_var(
    t: TyperView,
    name: Seq<char>,
    chunk: Seq<IrKindView>,
    idx: int,
) -> CheckRes
    decreases chunk.len() - idx, 2int,
{
    let t1 = TyperView { stacks: t.stacks.push(Seq::empty()), ..t };
    match sp_check_body(t1, chunk, idx) {
        CheckRes::Abort(e) => CheckRes::Abort(e),
        CheckRes::Next(t2, seg, j) => if t2.stacks.len() >= 1 && sp_top(t2).len() == 1 {
            if t2.next_var == usize::MAX {
                CheckRes::Abort(TypeError::VariableLimit)
            } else {
                let slot = t2.next_var;
                let t3 = TyperView {
                    variables: t2.variables.push((name, sp_top(t2).last(), slot)),
                    next_var: (t2.next_var + 1) as usize,
                    stacks: t2.stacks.drop_last(),
                    ..t2
                };
                CheckRes::Next(
                    t3,
                    seq![TypedKindView::Var] + seg + seq![TypedKindView::MakeVar(slot)],
                    j,
                )
            }
        } else {
            CheckRes::Abort(TypeError::Shape)
        },
    }
}

/// Checks an `if` block.  `before_if` is the stack at the `if`
/// (condition included); `snapshot` is the stack after the first
/// completed arm, against which every later arm and the end are
/// compared.
pub open spec fn sp_check_if(
    t: TyperView,
    chunk: Seq<IrKindView>,
    idx: int,
    before_if: Seq<TypeSigView>,
    snapshot: Option<Seq<TypeSigView>>,
) -> CheckRes
    decreases chunk.len() - idx, 2int,
{
    if !(0 <= idx < chunk.len()) {
        CheckRes::Next(t, Seq::empty(), idx)
    } else {
        match chunk[idx] {
            IrKindView::Then => {
                match sp_pop1(t) {
                    Option::None => CheckRes::Abort(TypeError::Shape),
                    Option::Some((c, t1)) => if c != bool_v() {
                        CheckRes::Abort(TypeError::TypeMismatch)
                    } else {
                        match sp_check_if(t1, chunk, idx + 1, before_if, snapshot) {
                            CheckRes::Next(t2, seg, j) => CheckRes::Next(
                                t2,
                                seq![TypedKindView::Then] + seg,
                                j,
                            ),
                            CheckRes::Abort(e) => CheckRes::Abort(e),
                        }
                    },
                }
            },
            IrKindView::Elif => {
                let check = match snapshot {
                    Option::Some(s) => sp_top(t) == s,
                    Option::None => true,
                };
                if !check {
                    CheckRes::Abort(TypeError::BranchMismatch)
                } else {
                    let snap1 = match snapshot {
                        Option::Some(s) => Option::Some(s),
                        Option::None => Option::Some(sp_top(t)),
                    };
                    match sp_check_if(t, chunk, idx + 1, before_if, snap1) {
                        CheckRes::Next(t2, seg, j) => CheckRes::Next(
                            t2,
                            seq![TypedKindView::Elif] + seg,
                            j,
                        ),
                        CheckRes::Abort(e) => CheckRes::Abort(e),
                    }
                }
            },
            IrKindView::Else => {
                let check = match snapshot {
                    Option::Some(s) => sp_top(t) == s,
                    Option::None => true,
                };
                if !check {
                    CheckRes::Abort(TypeError::BranchMismatch)
                } else {
                    let snap1 = match snapshot {
                        Option::Some(s) => Option::Some(s),
                        Option::None => Option::Some(sp_top(t)),
                    };
                    match sp_check_if(t, chunk, idx + 1, before_if, snap1) {
                        CheckRes::Next(t2, seg, j) => CheckRes::Next(
                            t2,
                            seq![TypedKindView::Else] + seg,
                            j,
                        ),
                        CheckRes::Abort(e) => CheckRes::Abort(e),
                    }
                }
            },
            IrKindView::End => {
                let check = match snapshot {
                    Option::Some(s) => sp_top(t) == s,
                    Option::None => sp_top(t) == before_if,
                };
                if check {
                    CheckRes::Next(t, seq![TypedKindView::End], idx + 1)
                } else {
                    CheckRes::Abort(TypeError::BranchMismatch)
                }
            },
            _ => {
                match sp_check_expr(t, chunk, idx) {
                    CheckRes::Next(t1, seg, j) => if idx < j <= chunk.len() {
                        match sp_check_if(t1, chunk, j, before_if, snapshot) {
                            CheckRes::Next(t2, seg2, j2) => CheckRes::Next(t2, seg + seg2, j2),
                            CheckRes::Abort(e) => CheckRes::Abort(e),
                        }
                    } else {
                        CheckRes::Abort(TypeError::Internal)
                    },
                    CheckRes::Abort(e) => CheckRes::Abort(e),
                }
            },
        }
    }
}

/// Checks a `while` block.  At the end the stack must equal
/// `before_loop`, the stack at the `while`.
pub open spec fn sp_check_while(
    t: TyperView,
    chunk: Seq<IrKindView>,
    idx: int,
    before_loop: Seq<TypeSigView>,
) -> CheckRes
    decreases chunk.len() - idx, 2int,
{
    if !(0 <= idx < chunk.len()) {
        if t.stacks.len() >= 1 && sp_top(t) == before_loop {
            CheckRes::Next(t, Seq::empty(), idx)
        } else {
            CheckRes::Abort(TypeError::BranchMismatch)
        }
    } else {
        match chunk[idx] {
            IrKindView::End => {
                if t.stacks.len() >= 1 && sp_top(t) == before_loop {
                    CheckRes::Next(t, seq![TypedKindView::End], idx + 1)
                } else {
                    CheckRes::Abort(TypeError::BranchMismatch)
                }
            },
            IrKindView::Do => {
                match sp_pop1(t) {
                    Option::None => CheckRes::Abort(TypeError::Shape),
                    Option::Some((c, t1)) => if c != bool_v() {
                        CheckRes::Abort(TypeError::TypeMismatch)
                    } else {
                        match sp_check_while(t1, chunk, idx + 1, before_loop) {
                            CheckRes::Next(t2, seg, j) => CheckRes::Next(
                                t2,
                                seq![TypedKindView::Do] + seg,
                                j,
                            ),
                            CheckRes::Abort(e) => CheckRes::Abort(e),
                        }
                    },
                }
            },
            _ => {
                match sp_check_expr(t, chunk, idx) {
                    CheckRes::Next(t1, seg, j) => if idx < j <= chunk.len() {
                        match sp_check_while(t1, chunk, j, before_loop) {
                            CheckRes::Next(t2, seg2, j2) => CheckRes::Next(t2, seg + seg2, j2),
                            CheckRes::Abort(e) => CheckRes::Abort(e),
                        }
                    } else {
                        CheckRes::Abort(TypeError::Internal)
                    },
                    CheckRes::Abort(e) => CheckRes::Abort(e),
                }
            },
        }
    }
}

/// Checks a struct declaration past its name: field types are
/// collected and the struct is registered at the `End` (or at the end
/// of the chunk).  Nothing is emitted.
pub open spec fn sp_check_struct(
    t: TyperView,
    name: Seq<char>,
    chunk: Seq<IrKindView>,
    idx: int,
    acc: Seq<TypeSigView>,
) -> CheckRes
    decreases chunk.len() - idx, 1int,
{
    if !(0 <= idx < chunk.len()) {
        CheckRes::Next(
            TyperView { structs: t.structs.push((name, acc)), ..t },
            Seq::empty(),
            idx,
        )
    } else {
        match chunk[idx] {
            IrKindView::End => CheckRes::Next(
                TyperView { structs: t.structs.push((name, acc)), ..t },
                Seq::empty(),
                idx + 1,
            ),
            IrKindView::StructField(ts) => sp_check_struct(t, name, chunk, idx + 1, acc.push(ts)),
            _ => CheckRes::Abort(TypeError::UnexpectedToken),
        }
    }
}

/// Checks the top-level items of one chunk: declarations only.
pub open spec fn sp_check_chunk_items(t: TyperView, chunk: Seq<IrKindView>, idx: int) -> CheckRes
    decreases chunk.len() - idx, 3int,
{
    if !(0 <= idx < chunk.len()) {
        CheckRes::Next(t, Seq::empty(), idx)
    } else {
        let sub = match chunk[idx] {
            IrKindView::Def(name) => sp_check_function(t, name, chunk, idx + 1),
            IrKindView::Var(name) => sp_check_var(t, name, chunk, idx + 1),
            IrKindView::Struct(name) => sp_check_struct(t, name, chunk, idx + 1, Seq::empty()),
            _ => CheckRes::Abort(TypeError::UnexpectedToken),
        };
        match sub {
            CheckRes::Abort(e) => CheckRes::Abort(e),
            CheckRes::Next(t1, seg, j) => if idx < j <= chunk.len() {
                match sp_check_chunk_items(t1, chunk, j) {
                    CheckRes::Next(t2, seg2, j2) => CheckRes::Next(t2, seg + seg2, j2),
                    CheckRes::Abort(e) => CheckRes::Abort(e),
                }
            } else {
                CheckRes::Abort(TypeError::Internal)
            },
        }
    }
}

/// Checks the chunks from `i` on, collecting the non-empty typed
/// chunks.
pub open spec fn sp_typecheck_chunks(
    t: TyperView,
    chunks: Seq<Seq<IrKindView>>,
    i: int,
) -> Result<(TyperView, Seq<Seq<TypedKindView>>), TypeError>
    decreases chunks.len() - i,
{
    if !(0 <= i < chunks.len()) {
        Result::Ok((t, Seq::empty()))
    } else {
        match sp_check_chunk_items(t, chunks[i], 0) {
            CheckRes::Abort(e) => Result::Err(e),
            CheckRes::Next(t1, seg, _) => {
                match sp_typecheck_chunks(t1, chunks, i + 1) {
                    Result::Ok((t2, rest)) => Result::Ok(
                        (
                            t2,
                            if seg.len() == 0 {
                                rest
                            } else {
                                seq![seg] + rest
                            },
                        ),
                    ),
                    Result::Err(e) => Result::Err(e),
                }
            },
        }
    }
}

/// The typed chunks that checking the given chunks produces.
pub open spec fn sp_typecheck(chunks: Seq<Seq<IrKindView>>) -> Result<
    Seq<Seq<TypedKindView>>,
    TypeError,
> {
    match sp_typecheck_chunks(sp_init_typer(), chunks, 0) {
        Result::Ok((_, out)) => Result::Ok(out),
        Result::Err(e) => Result::Err(e),
    }
}

/// The views of a sequence of untyped chunks.
pub open spec fn views_of_ir_chunks(s: Seq<crate::ir::IRChunk>) -> Seq<Seq<IrKindView>> {
    s.map_values(|c: crate::ir::IRChunk| views_of_ir(c@))
}

/// Appends one typed item.
fn emit_typed(generated: &mut Vec<TypedIR>, item: TypedIRKind)
    ensures
        views_of_typed(final(generated)@) == views_of_typed(old(generated)@) + seq![item@],
{
    let ghost v = item@;
    generated.push(TypedIR { kind: item });
    proof {
        assert(views_of_typed(final(generated)@) =~= views_of_typed(old(generated)@) + seq![v]);
    }
}

/// A declared struct: its flattened field types.
struct StructType {
    field_types: Vec<TypeSignature>,
}

impl StructType {
    fn new() -> (r: Self)
        ensures
            r.field_types@.len() == 0,
    {
        Self { field_types: Vec::new() }
    }
}

/// A declared function: parameter and return types.
struct FunctionType {
    parameters: Vec<TypeSignature>,
    returns: Vec<TypeSignature>,
}

impl FunctionType {
    spec fn sig_view(&self) -> FnTypeView {
        FnTypeView {
            params: views_of_sigs(self.parameters@),
            rets: views_of_sigs(self.returns@),
        }
    }

    fn new() -> (r: Self)
        ensures
            r.sig_view() == (FnTypeView { params: Seq::empty(), rets: Seq::empty() }),
    {
        let r = Self { parameters: Vec::new(), returns: Vec::new() };
        proof {
            assert(r.sig_view() =~~= (FnTypeView { params: Seq::empty(), rets: Seq::empty() }));
        }
        r
    }
}

/// A declared variable: its type and slot index.
struct VariableInfo {
    ty: TypeSignature,
    index: usize,
}

impl VariableInfo {
    fn new(ty: TypeSignature, index: usize) -> (r: Self)
        ensures
            r.ty == ty,
            r.index == index,
    {
        Self { ty, index }
    }
}

/// The checker's working state.
struct Typer {
    structs: Vec<(String, StructType)>,
    functions: Vec<(String, FunctionType)>,
    variables: Vec<(String, VariableInfo)>,
    next_variable_index: usize,
    type_stacks: Vec<Vec<TypeSignature>>,
    bind_stack: Vec<TypeSignature>,
}

impl Typer {
    spec fn typer_view(&self) -> TyperView {
        TyperView {
            structs: self.structs@.map_values(
                |p: (String, StructType)| (p.0@, views_of_sigs(p.1.field_types@)),
            ),
            functions: self.functions@.map_values(
                |p: (String, FunctionType)| (p.0@, p.1.sig_view()),
            ),
            variables: self.variables@.map_values(
                |p: (String, VariableInfo)| (p.0@, p.1.ty@, p.1.index),
            ),
            next_var: self.next_variable_index,
            stacks: self.type_stacks@.map_values(|s: Vec<TypeSignature>| views_of_sigs(s@)),
            binds: views_of_sigs(self.bind_stack@),
        }
    }

    fn new() -> (r: Self)
        ensures
            r.typer_view() == sp_init_typer(),
    {
        let r = Self {
            structs: Vec::new(),
            functions: Vec::new(),
            variables: Vec::new(),
            next_variable_index: 0,
            type_stacks: Vec::new(),
            bind_stack: Vec::new(),
        };
        proof {
            assert(r.typer_view() =~~= sp_init_typer());
        }
        r
    }

    /// The number of types on the current stack.
    fn top_len(&self) -> (r: usize)
        requires
            self.typer_view().stacks.len() >= 1,
        ensures
            r as int == sp_top(self.typer_view()).len(),
    {
        let k = self.type_stacks.len();
        self.type_stacks[k - 1].len()
    }

    /// A copy of the type at position `i` of the current stack.
    fn copy_top_at(&self, i: usize) -> (r: TypeSignature)
        requires
            self.typer_view().stacks.len() >= 1,
            i < sp_top(self.typer_view()).len(),
        ensures
            r@ == sp_top(self.typer_view())[i as int],
    {
        let k = self.type_stacks.len();
        copy_sig(&self.type_stacks[k - 1][i])
    }

    /// A copy of the whole current stack.
    fn snapshot_top(&self) -> (r: Vec<TypeSignature>)
        requires
            self.typer_view().stacks.len() >= 1,
        ensures
            views_of_sigs(r@) == sp_top(self.typer_view()),
    {
        let k = self.type_stacks.len();
        copy_sigs(&self.type_stacks[k - 1])
    }

    /// Whether the current stack equals `other`, at view level.
    fn top_equals(&self, other: &Vec<TypeSignature>) -> (r: bool)
        requires
            self.typer_view().stacks.len() >= 1,
        ensures
            r == (sp_top(self.typer_view()) == views_of_sigs(other@)),
    {
        let k = self.type_stacks.len();
        sigs_eq(&self.type_stacks[k - 1], other)
    }

    /// Pushes one type on the current stack.
    fn push_ty(&mut self, t: TypeSignature)
        requires
            old(self).typer_view().stacks.len() >= 1,
        ensures
            final(self).typer_view() == sp_push1(old(self).typer_view(), t@),
    {
        let mut top = match self.type_stacks.pop() {
            Some(v) => v,
            None => {
                proof {
                    assert(false);
                }
                Vec::new()
            },
        };
        top.push(t);
        self.type_stacks.push(top);
        proof {
            assert(final(self).typer_view() =~~= sp_push1(old(self).typer_view(), t@));
        }
    }

    /// Pops one type from the current stack, if there is one.
    fn pop_ty(&mut self) -> (r: Option<TypeSignature>)
        requires
            old(self).typer_view().stacks.len() >= 1,
        ensures
            match r {
                Option::Some(v) => sp_pop1(old(self).typer_view()) == Option::Some(
                    (v@, final(self).typer_view()),
                ),
                Option::None => final(self).typer_view() == old(self).typer_view() && sp_pop1(
                    old(self).typer_view(),
                ) is None,
            },
    {
        let mut top = match self.type_stacks.pop() {
            Some(v) => v,
            None => {
                proof {
                    assert(false);
                }
                Vec::new()
            },
        };
        let r = top.pop();
        self.type_stacks.push(top);
        proof {
            if r is Some {
                assert(final(self).typer_view() =~~= sp_set_top(
                    old(self).typer_view(),
                    sp_top(old(self).typer_view()).drop_last(),
                ));
            } else {
                assert(final(self).typer_view() =~~= old(self).typer_view());
            }
        }
        r
    }

    /// The struct declared under `name`, if any.
    fn get_struct(&self, name: &String) -> (r: Option<&StructType>)
        ensures
            match st_of(self.typer_view().structs, name@) {
                Option::Some(fields) => r matches Some(st) && views_of_sigs(st.field_types@)
                    == fields,
                Option::None => r is None,
            },
    {
        let ghost tbl = self.typer_view().structs;
        let mut i: usize = self.structs.len();
        proof {
            assert(tbl.take(i as int) =~= tbl);
        }
        while i > 0
            invariant
                i <= self.structs.len(),
                tbl == self.typer_view().structs,
                tbl.len() == self.structs.len(),
                st_of(tbl.take(i as int), name@) == st_of(tbl, name@),
            decreases i,
        {
            i = i - 1;
            let entry = &self.structs[i];
            proof {
                assert(tbl.take(i as int + 1).last() == tbl[i as int]);
                assert(tbl.take(i as int + 1).drop_last() =~= tbl.take(i as int));
            }
            if entry.0.eq(name) {
                return Some(&entry.1);
            }
        }
        proof {
            assert(tbl.take(0) =~= Seq::<(Seq<char>, Seq<TypeSigView>)>::empty());
        }
        None
    }

    /// The function declared under `name`, if any.
    fn get_function(&self, name: &String) -> (r: Option<&FunctionType>)
        ensures
            match fn_of(self.typer_view().functions, name@) {
                Option::Some(ftv) => r matches Some(ft) && ft.sig_view() == ftv,
                Option::None => r is None,
            },
    {
        let ghost tbl = self.typer_view().functions;
        let mut i: usize = self.functions.len();
        proof {
            assert(tbl.take(i as int) =~= tbl);
        }
        while i > 0
            invariant
                i <= self.functions.len(),
                tbl == self.typer_view().functions,
                tbl.len() == self.functions.len(),
                fn_of(tbl.take(i as int), name@) == fn_of(tbl, name@),
            decreases i,
        {
            i = i - 1;
            let entry = &self.functions[i];
            proof {
                assert(tbl.take(i as int + 1).last() == tbl[i as int]);
                assert(tbl.take(i as int + 1).drop_last() =~= tbl.take(i as int));
            }
            if entry.0.eq(name) {
                return Some(&entry.1);
            }
        }
        proof {
            assert(tbl.take(0) =~= Seq::<(Seq<char>, FnTypeView)>::empty());
        }
        None
    }

    /// The variable declared under `name`, if any.
    fn get_variable(&self, name: &String) -> (r: Option<&VariableInfo>)
        ensures
            match var_of(self.typer_view().variables, name@) {
                Option::Some((ty, slot)) => r matches Some(v) && v.ty@ == ty && v.index == slot,
                Option::None => r is None,
            },
    {
        let ghost tbl = self.typer_view().variables;
        let mut i: usize = self.variables.len();
        proof {
            assert(tbl.take(i as int) =~= tbl);
        }
        while i > 0
            invariant
                i <= self.variables.len(),
                tbl == self.typer_view().variables,
                tbl.len() == self.variables.len(),
                var_of(tbl.take(i as int), name@) == var_of(tbl, name@),
            decreases i,
        {
            i = i - 1;
            let entry = &self.variables[i];
            proof {
                assert(tbl.take(i as int + 1).last() == tbl[i as int]);
                assert(tbl.take(i as int + 1).drop_last() =~= tbl.take(i as int));
            }
            if entry.0.eq(name) {
                return Some(&entry.1);
            }
        }
        proof {
            assert(tbl.take(0) =~= Seq::<(Seq<char>, TypeSigView, usize)>::empty());
        }
        None
    }

    /// Whether the current stack ends with `params`, at view level.
    fn stack_ends_with(&self, params: &Vec<TypeSignature>) -> (r: bool)
        requires
            self.typer_view().stacks.len() >= 1,
        ensures
            r == ({
                let s = sp_top(self.typer_view());
                let p = views_of_sigs(params@);
                s.len() >= p.len() && s.subrange(s.len() - p.len(), s.len() as int) == p
            }),
    {
        let ghost s = sp_top(self.typer_view());
        let ghost p = views_of_sigs(params@);
        let k = self.type_stacks.len();
        let top = &self.type_stacks[k - 1];
        let n = top.len();
        let m = params.len();
        if n < m {
            return false;
        }
        let mut i: usize = 0;
        while i < m
            invariant
                i <= m,
                m <= n,
                n == top@.len(),
                m == params@.len(),
                s == views_of_sigs(top@),
                s == sp_top(self.typer_view()),
                p == views_of_sigs(params@),
                forall|j: int| 0 <= j < i ==> s[n - m + j] == p[j],
            decreases m - i,
        {
            if !sig_eq(&top[n - m + i], &params[i]) {
                proof {
                    let sub = s.subrange(s.len() - p.len(), s.len() as int);
                    assert(s[n - m + i as int] != p[i as int]);
                    assert(sub[i as int] == s[n - m + i as int]);
                    assert(sub != p) by {
                        assert(sub[i as int] != p[i as int]);
                    }
                }
                return false;
            }
            i = i + 1;
        }
        proof {
            assert(s.subrange(s.len() - p.len(), s.len() as int) =~= p);
        }
        true
    }
}

impl Typer {
    /// Checks a binary integer operator.
    fn check_int_op(
        &mut self,
        generated: &mut Vec<TypedIR>,
        out: TypedIRKind,
        Ghost(idx): Ghost<int>,
    ) -> (r: Result<(), TypeError>)
        requires
            old(self).typer_view().stacks.len() >= 1,
        ensures
            match sp_check_int_op(old(self).typer_view(), out@, idx) {
                CheckRes::Next(t1, seg, _) => r is Ok && final(self).typer_view() == t1 && final(self).typer_view().stacks.len() == old(self).typer_view().stacks.len() && views_of_typed(
                    final(generated)@,
                ) == views_of_typed(old(generated)@) + seg,
                CheckRes::Abort(e) => r == Result::<(), TypeError>::Err(e),
            },
    {
        let b = match self.pop_ty() {
            Some(v) => v,
            None => {
                return Err(TypeError::Shape);
            },
        };
        let a = match self.pop_ty() {
            Some(v) => v,
            None => {
                return Err(TypeError::Shape);
            },
        };
        let int_sig = TypeSignature::Int;
        if !sig_eq(&a, &int_sig) || !sig_eq(&b, &int_sig) {
            return Err(TypeError::TypeMismatch);
        }
        self.push_ty(TypeSignature::Int);
        emit_typed(generated, out);
        Ok(())
    }

    /// Checks a binary boolean operator.
    fn check_bool_op(
        &mut self,
        generated: &mut Vec<TypedIR>,
        out: TypedIRKind,
        Ghost(idx): Ghost<int>,
    ) -> (r: Result<(), TypeError>)
        requires
            old(self).typer_view().stacks.len() >= 1,
        ensures
            match sp_check_bool_op(old(self).typer_view(), out@, idx) {
                CheckRes::Next(t1, seg, _) => r is Ok && final(self).typer_view() == t1 && final(self).typer_view().stacks.len() == old(self).typer_view().stacks.len() && views_of_typed(
                    final(generated)@,
                ) == views_of_typed(old(generated)@) + seg,
                CheckRes::Abort(e) => r == Result::<(), TypeError>::Err(e),
            },
    {
        let b = match self.pop_ty() {
            Some(v) => v,
            None => {
                return Err(TypeError::Shape);
            },
        };
        let a = match self.pop_ty() {
            Some(v) => v,
            None => {
                return Err(TypeError::Shape);
            },
        };
        let bool_sig = TypeSignature::Bool;
        if !sig_eq(&a, &bool_sig) || !sig_eq(&b, &bool_sig) {
            return Err(TypeError::TypeMismatch);
        }
        self.push_ty(TypeSignature::Bool);
        emit_typed(generated, out);
        Ok(())
    }

    /// Checks an integer comparison.
    fn check_cmp_op(
        &mut self,
        generated: &mut Vec<TypedIR>,
        out: TypedIRKind,
        Ghost(idx): Ghost<int>,
    ) -> (r: Result<(), TypeError>)
        requires
            old(self).typer_view().stacks.len() >= 1,
        ensures
            match sp_check_cmp_op(old(self).typer_view(), out@, idx) {
                CheckRes::Next(t1, seg, _) => r is Ok && final(self).typer_view() == t1 && final(self).typer_view().stacks.len() == old(self).typer_view().stacks.len() && views_of_typed(
                    final(generated)@,
                ) == views_of_typed(old(generated)@) + seg,
                CheckRes::Abort(e) => r == Result::<(), TypeError>::Err(e),
            },
    {
        let b = match self.pop_ty() {
            Some(v) => v,
            None => {
                return Err(TypeError::Shape);
            },
        };
        let a = match self.pop_ty() {
            Some(v) => v,
            None => {
                return Err(TypeError::Shape);
            },
        };
        let int_sig = TypeSignature::Int;
        if !sig_eq(&a, &int_sig) || !sig_eq(&b, &int_sig) {
            return Err(TypeError::TypeMismatch);
        }
        self.push_ty(TypeSignature::Bool);
        emit_typed(generated, out);
        Ok(())
    }


    /// Checks `Dup`, `Over`, `Drop` or `Swap`.
    fn check_shuffle(
        &mut self,
        generated: &mut Vec<TypedIR>,
        op: IRKind,
        Ghost(idx): Ghost<int>,
    ) -> (r: Result<(), TypeError>)
        requires
            old(self).typer_view().stacks.len() >= 1,
            op is Dup || op is Over || op is Drop || op is Swap,
        ensures
            match sp_check_shuffle(old(self).typer_view(), op@, idx) {
                CheckRes::Next(t1, seg, _) => r is Ok && final(self).typer_view() == t1
                    && final(self).typer_view().stacks.len() == old(self).typer_view().stacks.len()
                    && views_of_typed(final(generated)@) == views_of_typed(old(generated)@) + seg,
                CheckRes::Abort(e) => r == Result::<(), TypeError>::Err(e),
            },
    {
        match op {
            IRKind::Dup => {
                let l = self.top_len();
                if l >= 1 {
                    let t = self.copy_top_at(l - 1);
                    self.push_ty(t);
                    emit_typed(generated, TypedIRKind::Dup);
                    Ok(())
                } else {
                    Err(TypeError::Shape)
                }
            },
            IRKind::Over => {
                let l = self.top_len();
                if l >= 2 {
                    let t = self.copy_top_at(l - 2);
                    self.push_ty(t);
                    emit_typed(generated, TypedIRKind::Over);
                    Ok(())
                } else {
                    Err(TypeError::Shape)
                }
            },
            IRKind::Drop => {
                match self.pop_ty() {
                    Some(_) => {
                        emit_typed(generated, TypedIRKind::Drop);
                        Ok(())
                    },
                    None => Err(TypeError::Shape),
                }
            },
            _ => {
                let a = match self.pop_ty() {
                    Some(v) => v,
                    None => {
                        return Err(TypeError::Shape);
                    },
                };
                let b = match self.pop_ty() {
                    Some(v) => v,
                    None => {
                        return Err(TypeError::Shape);
                    },
                };
                self.push_ty(a);
                self.push_ty(b);
                emit_typed(generated, TypedIRKind::Swap);
                Ok(())
            },
        }
    }

    /// Elaborates `Print` by the type at the top of the stack.
    fn check_print(&mut self, generated: &mut Vec<TypedIR>, Ghost(idx): Ghost<int>) -> (r: Result<
        (),
        TypeError,
    >)
        requires
            old(self).typer_view().stacks.len() >= 1,
        ensures
            match sp_check_print(old(self).typer_view(), idx) {
                CheckRes::Next(t1, seg, _) => r is Ok && final(self).typer_view() == t1
                    && final(self).typer_view().stacks.len() == old(self).typer_view().stacks.len()
                    && views_of_typed(final(generated)@) == views_of_typed(old(generated)@) + seg,
                CheckRes::Abort(e) => r == Result::<(), TypeError>::Err(e),
            },
    {
        let v = match self.pop_ty() {
            Some(v) => v,
            None => {
                return Err(TypeError::Shape);
            },
        };
        match &v {
            TypeSignature::Bool => {
                emit_typed(generated, TypedIRKind::PrintBool);
                Ok(())
            },
            TypeSignature::Int => {
                emit_typed(generated, TypedIRKind::PrintInt);
                Ok(())
            },
            TypeSignature::Str => {
                emit_typed(generated, TypedIRKind::PrintStr);
                Ok(())
            },
            TypeSignature::Ptr(_) => {
                emit_typed(generated, TypedIRKind::PrintPtr);
                Ok(())
            },
            TypeSignature::Struct(_) => Err(TypeError::TypeMismatch),
        }
    }

    /// Checks `Not`.
    fn check_not(&mut self, generated: &mut Vec<TypedIR>, Ghost(idx): Ghost<int>) -> (r: Result<
        (),
        TypeError,
    >)
        requires
            old(self).typer_view().stacks.len() >= 1,
        ensures
            match sp_check_not(old(self).typer_view(), idx) {
                CheckRes::Next(t1, seg, _) => r is Ok && final(self).typer_view() == t1
                    && final(self).typer_view().stacks.len() == old(self).typer_view().stacks.len()
                    && views_of_typed(final(generated)@) == views_of_typed(old(generated)@) + seg,
                CheckRes::Abort(e) => r == Result::<(), TypeError>::Err(e),
            },
    {
        let v = match self.pop_ty() {
            Some(v) => v,
            None => {
                return Err(TypeError::Shape);
            },
        };
        let bool_sig = TypeSignature::Bool;
        if !sig_eq(&v, &bool_sig) {
            return Err(TypeError::TypeMismatch);
        }
        self.push_ty(TypeSignature::Bool);
        emit_typed(generated, TypedIRKind::Not);
        Ok(())
    }

    /// Checks `Eq` or `Neq`.
    fn check_eq_op(
        &mut self,
        generated: &mut Vec<TypedIR>,
        out: TypedIRKind,
        Ghost(idx): Ghost<int>,
    ) -> (r: Result<(), TypeError>)
        requires
            old(self).typer_view().stacks.len() >= 1,
        ensures
            match sp_check_eq_op(old(self).typer_view(), out@, idx) {
                CheckRes::Next(t1, seg, _) => r is Ok && final(self).typer_view() == t1
                    && final(self).typer_view().stacks.len() == old(self).typer_view().stacks.len()
                    && views_of_typed(final(generated)@) == views_of_typed(old(generated)@) + seg,
                CheckRes::Abort(e) => r == Result::<(), TypeError>::Err(e),
            },
    {
        let b = match self.pop_ty() {
            Some(v) => v,
            None => {
                return Err(TypeError::Shape);
            },
        };
        let a = match self.pop_ty() {
            Some(v) => v,
            None => {
                return Err(TypeError::Shape);
            },
        };
        if !sig_eq(&a, &b) {
            return Err(TypeError::TypeMismatch);
        }
        self.push_ty(TypeSignature::Bool);
        emit_typed(generated, out);
        Ok(())
    }

    /// Checks `Assign`.
    fn check_assign(&mut self, generated: &mut Vec<TypedIR>, Ghost(idx): Ghost<int>) -> (r: Result<
        (),
        TypeError,
    >)
        requires
            old(self).typer_view().stacks.len() >= 1,
        ensures
            match sp_check_assign(old(self).typer_view(), idx) {
                CheckRes::Next(t1, seg, _) => r is Ok && final(self).typer_view() == t1
                    && final(self).typer_view().stacks.len() == old(self).typer_view().stacks.len()
                    && views_of_typed(final(generated)@) == views_of_typed(old(generated)@) + seg,
                CheckRes::Abort(e) => r == Result::<(), TypeError>::Err(e),
            },
    {
        let b = match self.pop_ty() {
            Some(v) => v,
            None => {
                return Err(TypeError::Shape);
            },
        };
        let a = match self.pop_ty() {
            Some(v) => v,
            None => {
                return Err(TypeError::Shape);
            },
        };
        if let TypeSignature::Ptr(inner) = &b {
            if sig_eq(&a, &**inner) {
                emit_typed(generated, TypedIRKind::Assign);
                Ok(())
            } else {
                Err(TypeError::TypeMismatch)
            }
        } else {
            Err(TypeError::TypeMismatch)
        }
    }

    /// Checks `Load`.
    fn check_load(&mut self, generated: &mut Vec<TypedIR>, Ghost(idx): Ghost<int>) -> (r: Result<
        (),
        TypeError,
    >)
        requires
            old(self).typer_view().stacks.len() >= 1,
        ensures
            match sp_check_load(old(self).typer_view(), idx) {
                CheckRes::Next(t1, seg, _) => r is Ok && final(self).typer_view() == t1
                    && final(self).typer_view().stacks.len() == old(self).typer_view().stacks.len()
                    && views_of_typed(final(generated)@) == views_of_typed(old(generated)@) + seg,
                CheckRes::Abort(e) => r == Result::<(), TypeError>::Err(e),
            },
    {
        let a = match self.pop_ty() {
            Some(v) => v,
            None => {
                return Err(TypeError::Shape);
            },
        };
        if let TypeSignature::Ptr(inner) = &a {
            let str_sig = TypeSignature::Str;
            if sig_eq(&**inner, &str_sig) {
                self.push_ty(TypeSignature::Str);
                emit_typed(generated, TypedIRKind::LoadStr);
                Ok(())
            } else {
                let pointee = copy_sig(&**inner);
                self.push_ty(pointee);
                emit_typed(generated, TypedIRKind::Load);
                Ok(())
            }
        } else {
            Err(TypeError::TypeMismatch)
        }
    }

    /// Checks `Call`.
    fn check_call(
        &mut self,
        generated: &mut Vec<TypedIR>,
        name: &String,
        Ghost(idx): Ghost<int>,
    ) -> (r: Result<(), TypeError>)
        requires
            old(self).typer_view().stacks.len() >= 1,
        ensures
            match sp_check_call(old(self).typer_view(), name@, idx) {
                CheckRes::Next(t1, seg, _) => r is Ok && final(self).typer_view() == t1
                    && final(self).typer_view().stacks.len() == old(self).typer_view().stacks.len()
                    && views_of_typed(final(generated)@) == views_of_typed(old(generated)@) + seg,
                CheckRes::Abort(e) => r == Result::<(), TypeError>::Err(e),
            },
    {
        let ghost t0 = self.typer_view();
        let (plen, mut rets_copy) = match self.get_function(name) {
            None => {
                return Err(TypeError::UnboundIdentifier);
            },
            Some(ft) => {
                if !self.stack_ends_with(&ft.parameters) {
                    return Err(TypeError::TypeMismatch);
                }
                (ft.parameters.len(), copy_sigs(&ft.returns))
            },
        };
        let mut top = match self.type_stacks.pop() {
            Some(v) => v,
            None => {
                proof {
                    assert(false);
                }
                Vec::new()
            },
        };
        let newlen = top.len() - plen;
        top.truncate(newlen);
        top.append(&mut rets_copy);
        self.type_stacks.push(top);
        emit_typed(generated, TypedIRKind::Call(name.clone()));
        proof {
            let s = sp_top(t0);
            assert(self.typer_view() =~~= sp_set_top(
                t0,
                s.take(s.len() - plen as int) + fn_of(t0.functions, name@)->Some_0.rets,
            ));
        }
        Ok(())
    }

    /// Checks `Bind(n)`.
    fn check_bind_op(
        &mut self,
        generated: &mut Vec<TypedIR>,
        nbinds: usize,
        Ghost(idx): Ghost<int>,
    ) -> (r: Result<(), TypeError>)
        requires
            old(self).typer_view().stacks.len() >= 1,
        ensures
            match sp_check_bind_op(old(self).typer_view(), nbinds, idx) {
                CheckRes::Next(t1, seg, _) => r is Ok && final(self).typer_view() == t1
                    && final(self).typer_view().stacks.len() == old(self).typer_view().stacks.len()
                    && views_of_typed(final(generated)@) == views_of_typed(old(generated)@) + seg,
                CheckRes::Abort(e) => r == Result::<(), TypeError>::Err(e),
            },
    {
        let ghost t0 = self.typer_view();
        let l = self.top_len();
        if nbinds > l {
            return Err(TypeError::Shape);
        }
        let mut top = match self.type_stacks.pop() {
            Some(v) => v,
            None => {
                proof {
                    assert(false);
                }
                Vec::new()
            },
        };
        let ghost binds0 = views_of_sigs(self.bind_stack@);
        let ghost tv0 = views_of_sigs(top@);
        let ghost tmid = self.typer_view();
        proof {
            assert(tv0 == sp_top(t0));
        }
        let toplen = top.len();
        let start = toplen - nbinds;
        let mut i: usize = 0;
        proof {
            assert(self.typer_view() =~~= (TyperView {
                binds: binds0 + tv0.subrange(start as int, (start + 0) as int),
                ..tmid
            }));
            assert(tmid.stacks =~~= t0.stacks.drop_last());
        }
        while i < nbinds
            invariant
                i <= nbinds,
                toplen == top@.len(),
                tv0 == views_of_sigs(top@),
                start == toplen - nbinds,
                nbinds <= toplen,
                t0.stacks.len() >= 1,
                binds0 == t0.binds,
                tmid.structs == t0.structs,
                tmid.functions == t0.functions,
                tmid.variables == t0.variables,
                tmid.next_var == t0.next_var,
                tmid.binds == t0.binds,
                tmid.stacks == t0.stacks.drop_last(),
                self.typer_view() == (TyperView {
                    binds: binds0 + tv0.subrange(start as int, (start + i) as int),
                    ..tmid
                }),
            decreases nbinds - i,
        {
            let v = copy_sig(&top[start + i]);
            let ghost bprev = views_of_sigs(self.bind_stack@);
            self.bind_stack.push(v);
            proof {
                assert(v@ == tv0[(start + i) as int]);
                assert(bprev == binds0 + tv0.subrange(start as int, (start + i) as int));
                assert(views_of_sigs(self.bind_stack@) =~= bprev.push(v@));
                assert(bprev.push(v@) =~= binds0 + tv0.subrange(
                    start as int,
                    (start + i + 1) as int,
                ));
                assert(self.typer_view() =~~= (TyperView {
                    binds: binds0 + tv0.subrange(start as int, (start + i + 1) as int),
                    ..tmid
                }));
            }
            i = i + 1;
        }
        let ghost tpost = self.typer_view();
        top.truncate(start);
        proof {
            assert(views_of_sigs(top@) =~= tv0.take(start as int));
        }
        self.type_stacks.push(top);
        emit_typed(generated, TypedIRKind::Bind(nbinds));
        proof {
            let target = tv0.take(tv0.len() - nbinds as int);
            assert(self.typer_view().stacks =~= tpost.stacks.push(target));
            assert(tpost.stacks == tmid.stacks);
            assert(self.typer_view().stacks =~~= t0.stacks.update(t0.stacks.len() - 1, target));
            assert(self.typer_view() =~~= (TyperView {
                binds: t0.binds + tv0.subrange(tv0.len() - nbinds as int, tv0.len() as int),
                ..sp_set_top(t0, target)
            }));
        }
        Ok(())
    }

    /// Checks `Unbind(n)`.
    fn check_unbind_op(
        &mut self,
        generated: &mut Vec<TypedIR>,
        nbinds: usize,
        Ghost(idx): Ghost<int>,
    ) -> (r: Result<(), TypeError>)
        requires
            old(self).typer_view().stacks.len() >= 1,
        ensures
            match sp_check_unbind_op(old(self).typer_view(), nbinds, idx) {
                CheckRes::Next(t1, seg, _) => r is Ok && final(self).typer_view() == t1
                    && final(self).typer_view().stacks.len() == old(self).typer_view().stacks.len()
                    && views_of_typed(final(generated)@) == views_of_typed(old(generated)@) + seg,
                CheckRes::Abort(e) => r == Result::<(), TypeError>::Err(e),
            },
    {
        let ghost t0 = self.typer_view();
        if nbinds > self.bind_stack.len() {
            return Err(TypeError::Shape);
        }
        let keep = self.bind_stack.len() - nbinds;
        self.bind_stack.truncate(keep);
        emit_typed(generated, TypedIRKind::Unbind(nbinds));
        proof {
            assert(self.typer_view() =~~= (TyperView {
                binds: t0.binds.take(t0.binds.len() - nbinds as int),
                ..t0
            }));
        }
        Ok(())
    }

    /// Checks `PushBind(i)`.
    fn check_pushbind_op(
        &mut self,
        generated: &mut Vec<TypedIR>,
        id: usize,
        Ghost(idx): Ghost<int>,
    ) -> (r: Result<(), TypeError>)
        requires
            old(self).typer_view().stacks.len() >= 1,
        ensures
            match sp_check_pushbind_op(old(self).typer_view(), id, idx) {
                CheckRes::Next(t1, seg, _) => r is Ok && final(self).typer_view() == t1
                    && final(self).typer_view().stacks.len() == old(self).typer_view().stacks.len()
                    && views_of_typed(final(generated)@) == views_of_typed(old(generated)@) + seg,
                CheckRes::Abort(e) => r == Result::<(), TypeError>::Err(e),
            },
    {
        if id >= self.bind_stack.len() {
            return Err(TypeError::Shape);
        }
        let v = copy_sig(&self.bind_stack[id]);
        self.push_ty(v);
        emit_typed(generated, TypedIRKind::PushBind(id));
        Ok(())
    }

    /// Checks `PushVar(name)`.
    fn check_pushvar_op(
        &mut self,
        generated: &mut Vec<TypedIR>,
        name: &String,
        Ghost(idx): Ghost<int>,
    ) -> (r: Result<(), TypeError>)
        requires
            old(self).typer_view().stacks.len() >= 1,
        ensures
            match sp_check_pushvar_op(old(self).typer_view(), name@, idx) {
                CheckRes::Next(t1, seg, _) => r is Ok && final(self).typer_view() == t1
                    && final(self).typer_view().stacks.len() == old(self).typer_view().stacks.len()
                    && views_of_typed(final(generated)@) == views_of_typed(old(generated)@) + seg,
                CheckRes::Abort(e) => r == Result::<(), TypeError>::Err(e),
            },
    {
        let (slot, ty) = match self.get_variable(name) {
            None => {
                return Err(TypeError::UnboundIdentifier);
            },
            Some(info) => (info.index, copy_sig(&info.ty)),
        };
        self.push_ty(TypeSignature::Ptr(Box::new(ty)));
        emit_typed(generated, TypedIRKind::PushVar(slot));
        Ok(())
    }

    /// Checks the single item at `idx`, with everything a block item
    /// contains.
    #[verifier::rlimit(100)]
    #[verifier::spinoff_prover]
    fn typecheck_expression(
        &mut self,
        generated: &mut Vec<TypedIR>,
        chunk: &Vec<IR>,
        idx: usize,
    ) -> (r: Result<usize, TypeError>)
        requires
            old(self).typer_view().stacks.len() >= 1,
            idx < chunk@.len(),
        ensures
            match sp_check_expr(old(self).typer_view(), views_of_ir(chunk@), idx as int) {
                CheckRes::Next(t1, seg, j) => r matches Ok(j2) && j2 as int == j && idx < j2
                    && j2 <= chunk@.len() && final(self).typer_view() == t1
                    && final(self).typer_view().stacks.len() == old(self).typer_view().stacks.len()
                    && views_of_typed(final(generated)@) == views_of_typed(old(generated)@) + seg,
                CheckRes::Abort(e) => r == Result::<usize, TypeError>::Err(e),
            },
        decreases chunk@.len() - idx, 0int,
    {
        let n = chunk.len();
        let ghost t0 = self.typer_view();
        let ghost a0 = views_of_typed(generated@);
        let item = &chunk[idx];
        match &item.kind {
            IRKind::PushBool(value) => {
                self.push_ty(TypeSignature::Bool);
                emit_typed(generated, TypedIRKind::PushBool(*value));
                Ok(idx + 1)
            },
            IRKind::PushInt(value) => {
                self.push_ty(TypeSignature::Int);
                emit_typed(generated, TypedIRKind::PushInt(*value));
                Ok(idx + 1)
            },
            IRKind::PushStr(value) => {
                self.push_ty(TypeSignature::Str);
                emit_typed(generated, TypedIRKind::PushStr(value.clone()));
                Ok(idx + 1)
            },
            IRKind::End => Err(TypeError::UnexpectedToken),
            IRKind::If => {
                emit_typed(generated, TypedIRKind::If);
                let before_if = self.snapshot_top();
                match self.typecheck_if(generated, chunk, idx + 1, before_if, None) {
                    Ok(j) => {
                        proof {
                            if let CheckRes::Next(_, seg2, _) = sp_check_if(
                                t0,
                                views_of_ir(chunk@),
                                idx + 1,
                                sp_top(t0),
                                Option::None,
                            ) {
                                assert(a0 + seq![TypedKindView::If] + seg2 =~= a0 + (
                                seq![TypedKindView::If] + seg2));
                            }
                        }
                        Ok(j)
                    },
                    Err(e) => Err(e),
                }
            },
            IRKind::Elif => Err(TypeError::UnexpectedToken),
            IRKind::Else => Err(TypeError::UnexpectedToken),
            IRKind::While => {
                emit_typed(generated, TypedIRKind::While);
                let before_loop = self.snapshot_top();
                match self.typecheck_while(generated, chunk, idx + 1, before_loop) {
                    Ok(j) => {
                        proof {
                            if let CheckRes::Next(_, seg2, _) = sp_check_while(
                                t0,
                                views_of_ir(chunk@),
                                idx + 1,
                                sp_top(t0),
                            ) {
                                assert(a0 + seq![TypedKindView::While] + seg2 =~= a0 + (
                                seq![TypedKindView::While] + seg2));
                            }
                        }
                        Ok(j)
                    },
                    Err(e) => Err(e),
                }
            },
            IRKind::Then => Err(TypeError::UnexpectedToken),
            IRKind::Do => Err(TypeError::UnexpectedToken),
            IRKind::Def(name) => self.typecheck_function(generated, name.clone(), chunk, idx + 1),
            IRKind::FunctionArgument(_) => Err(TypeError::UnexpectedToken),
            IRKind::DashDash => Err(TypeError::UnexpectedToken),
            IRKind::Var(name) => self.typecheck_variable(generated, name.clone(), chunk, idx + 1),
            IRKind::Struct(name) => {
                proof {
                    assert(views_of_sigs(Seq::<TypeSignature>::empty()) =~= Seq::<
                        TypeSigView,
                    >::empty());
                }
                self.typecheck_struct(name.clone(), chunk, idx + 1, Vec::new())
            },
            IRKind::StructField(_) => Err(TypeError::UnexpectedToken),
            IRKind::Dup => {
                match self.check_shuffle(generated, IRKind::Dup, Ghost(idx as int)) {
                    Ok(()) => Ok(idx + 1),
                    Err(e) => Err(e),
                }
            },
            IRKind::Over => {
                match self.check_shuffle(generated, IRKind::Over, Ghost(idx as int)) {
                    Ok(()) => Ok(idx + 1),
                    Err(e) => Err(e),
                }
            },
            IRKind::Drop => {
                match self.check_shuffle(generated, IRKind::Drop, Ghost(idx as int)) {
                    Ok(()) => Ok(idx + 1),
                    Err(e) => Err(e),
                }
            },
            IRKind::Swap => {
                match self.check_shuffle(generated, IRKind::Swap, Ghost(idx as int)) {
                    Ok(()) => Ok(idx + 1),
                    Err(e) => Err(e),
                }
            },
            IRKind::Print => {
                match self.check_print(generated, Ghost(idx as int)) {
                    Ok(()) => Ok(idx + 1),
                    Err(e) => Err(e),
                }
            },
            IRKind::Add => {
                match self.check_int_op(generated, TypedIRKind::Add, Ghost(idx as int)) {
                    Ok(()) => Ok(idx + 1),
                    Err(e) => Err(e),
                }
            },
            IRKind::Subtract => {
                match self.check_int_op(generated, TypedIRKind::Subtract, Ghost(idx as int)) {
                    Ok(()) => Ok(idx + 1),
                    Err(e) => Err(e),
                }
            },
            IRKind::Multiply => {
                match self.check_int_op(generated, TypedIRKind::Multiply, Ghost(idx as int)) {
                    Ok(()) => Ok(idx + 1),
                    Err(e) => Err(e),
                }
            },
            IRKind::Divide => {
                match self.check_int_op(generated, TypedIRKind::Divide, Ghost(idx as int)) {
                    Ok(()) => Ok(idx + 1),
                    Err(e) => Err(e),
                }
            },
            IRKind::And => {
                match self.check_bool_op(generated, TypedIRKind::And, Ghost(idx as int)) {
                    Ok(()) => Ok(idx + 1),
                    Err(e) => Err(e),
                }
            },
            IRKind::Or => {
                match self.check_bool_op(generated, TypedIRKind::Or, Ghost(idx as int)) {
                    Ok(()) => Ok(idx + 1),
                    Err(e) => Err(e),
                }
            },
            IRKind::Not => {
                match self.check_not(generated, Ghost(idx as int)) {
                    Ok(()) => Ok(idx + 1),
                    Err(e) => Err(e),
                }
            },
            IRKind::Eq => {
                match self.check_eq_op(generated, TypedIRKind::Eq, Ghost(idx as int)) {
                    Ok(()) => Ok(idx + 1),
                    Err(e) => Err(e),
                }
            },
            IRKind::Neq => {
                match self.check_eq_op(generated, TypedIRKind::Neq, Ghost(idx as int)) {
                    Ok(()) => Ok(idx + 1),
                    Err(e) => Err(e),
                }
            },
            IRKind::Lt => {
                match self.check_cmp_op(generated, TypedIRKind::Lt, Ghost(idx as int)) {
                    Ok(()) => Ok(idx + 1),
                    Err(e) => Err(e),
                }
            },
            IRKind::Gt => {
                match self.check_cmp_op(generated, TypedIRKind::Gt, Ghost(idx as int)) {
                    Ok(()) => Ok(idx + 1),
                    Err(e) => Err(e),
                }
            },
            IRKind::Assign => {
                match self.check_assign(generated, Ghost(idx as int)) {
                    Ok(()) => Ok(idx + 1),
                    Err(e) => Err(e),
                }
            },
            IRKind::Load => {
                match self.check_load(generated, Ghost(idx as int)) {
                    Ok(()) => Ok(idx + 1),
                    Err(e) => Err(e),
                }
            },
            IRKind::Call(name) => {
                match self.check_call(generated, name, Ghost(idx as int)) {
                    Ok(()) => Ok(idx + 1),
                    Err(e) => Err(e),
                }
            },
            IRKind::Bind(nbinds) => {
                match self.check_bind_op(generated, *nbinds, Ghost(idx as int)) {
                    Ok(()) => Ok(idx + 1),
                    Err(e) => Err(e),
                }
            },
            IRKind::Unbind(nbinds) => {
                match self.check_unbind_op(generated, *nbinds, Ghost(idx as int)) {
                    Ok(()) => Ok(idx + 1),
                    Err(e) => Err(e),
                }
            },
            IRKind::PushBind(id) => {
                match self.check_pushbind_op(generated, *id, Ghost(idx as int)) {
                    Ok(()) => Ok(idx + 1),
                    Err(e) => Err(e),
                }
            },
            IRKind::PushVar(name) => {
                match self.check_pushvar_op(generated, name, Ghost(idx as int)) {
                    Ok(()) => Ok(idx + 1),
                    Err(e) => Err(e),
                }
            },
        }
    }

    /// Checks body items until an `End` is consumed or the chunk ends.
    fn typecheck_body(&mut self, generated: &mut Vec<TypedIR>, chunk: &Vec<IR>, idx: usize) -> (r:
        Result<usize, TypeError>)
        requires
            old(self).typer_view().stacks.len() >= 1,
            idx <= chunk@.len(),
        ensures
            match sp_check_body(old(self).typer_view(), views_of_ir(chunk@), idx as int) {
                CheckRes::Next(t1, seg, j) => r matches Ok(j2) && j2 as int == j && idx <= j2
                    && j2 <= chunk@.len() && final(self).typer_view() == t1 && final(self).typer_view().stacks.len() == old(self).typer_view().stacks.len() && views_of_typed(
                    final(generated)@,
                ) == views_of_typed(old(generated)@) + seg,
                CheckRes::Abort(e) => r == Result::<usize, TypeError>::Err(e),
            },
        decreases chunk@.len() - idx, 1int,
    {
        let ghost t0 = self.typer_view();
        let ghost a0 = views_of_typed(generated@);
        if idx >= chunk.len() {
            proof {
                assert(a0 + Seq::<TypedKindView>::empty() =~= a0);
            }
            return Ok(idx);
        }
        if let IRKind::End = &chunk[idx].kind {
            proof {
                assert(a0 + Seq::<TypedKindView>::empty() =~= a0);
            }
            return Ok(idx + 1);
        }
        match self.typecheck_expression(generated, chunk, idx) {
            Ok(j) => {
                match self.typecheck_body(generated, chunk, j) {
                    Ok(j2) => {
                        proof {
                            if let CheckRes::Next(t1, s1, jj) = sp_check_expr(
                                t0,
                                views_of_ir(chunk@),
                                idx as int,
                            ) {
                                if let CheckRes::Next(_, s2, _) = sp_check_body(
                                    t1,
                                    views_of_ir(chunk@),
                                    jj,
                                ) {
                                    assert(a0 + s1 + s2 =~= a0 + (s1 + s2));
                                }
                            }
                        }
                        Ok(j2)
                    },
                    Err(e) => Err(e),
                }
            },
            Err(e) => Err(e),
        }
    }

    /// Parses a function signature up to its `Do`.
    fn parse_signature(&self, chunk: &Vec<IR>, idx: usize, returns_seen: bool, ft: FunctionType)
        -> (r: Result<(FunctionType, usize), TypeError>)
        requires
            idx <= chunk@.len(),
        ensures
            match sp_parse_sig(
                self.typer_view(),
                views_of_ir(chunk@),
                idx as int,
                returns_seen,
                ft.sig_view(),
            ) {
                SigRes::Next(ftv, j) => r matches Ok((ft2, j2)) && j2 as int == j && idx <= j2
                    && j2 <= chunk@.len() && ft2.sig_view() == ftv,
                SigRes::Abort(e) => r == Result::<(FunctionType, usize), TypeError>::Err(e),
            },
        decreases chunk@.len() - idx, 1int,
    {
        if idx >= chunk.len() {
            return Ok((ft, idx));
        }
        match &chunk[idx].kind {
            IRKind::Do => Ok((ft, idx + 1)),
            IRKind::DashDash => self.parse_signature(chunk, idx + 1, true, ft),
            IRKind::FunctionArgument(ts) => {
                let ghost ft0 = ft.sig_view();
                let mut ft = ft;
                let mut add: Vec<TypeSignature> = match ts {
                    TypeSignature::Struct(sname) => {
                        match self.get_struct(sname) {
                            None => {
                                return Err(TypeError::UnboundIdentifier);
                            },
                            Some(st) => copy_sigs(&st.field_types),
                        }
                    },
                    _ => {
                        let mut one: Vec<TypeSignature> = Vec::new();
                        one.push(copy_sig(ts));
                        proof {
                            assert(views_of_sigs(one@) =~= seq![ts@]);
                        }
                        one
                    },
                };
                let ghost addv = views_of_sigs(add@);
                if returns_seen {
                    let ghost r0 = views_of_sigs(ft.returns@);
                    ft.returns.append(&mut add);
                    proof {
                        assert(views_of_sigs(ft.returns@) =~= r0 + addv);
                        assert(ft.sig_view() =~~= (FnTypeView { rets: ft0.rets + addv, ..ft0 }));
                    }
                } else {
                    let ghost p0 = views_of_sigs(ft.parameters@);
                    ft.parameters.append(&mut add);
                    proof {
                        assert(views_of_sigs(ft.parameters@) =~= p0 + addv);
                        assert(ft.sig_view() =~~= (FnTypeView { params: ft0.params + addv, ..ft0 }));
                    }
                }
                self.parse_signature(chunk, idx + 1, returns_seen, ft)
            },
            _ => Err(TypeError::UnexpectedToken),
        }
    }

    /// Checks a function declaration past its name.
    fn typecheck_function(
        &mut self,
        generated: &mut Vec<TypedIR>,
        name: String,
        chunk: &Vec<IR>,
        idx: usize,
    ) -> (r: Result<usize, TypeError>)
        requires
            idx <= chunk@.len(),
        ensures
            match sp_check_function(
                old(self).typer_view(),
                name@,
                views_of_ir(chunk@),
                idx as int,
            ) {
                CheckRes::Next(t1, seg, j) => r matches Ok(j2) && j2 as int == j && idx <= j2
                    && j2 <= chunk@.len() && final(self).typer_view() == t1 && final(self).typer_view().stacks.len() == old(self).typer_view().stacks.len() && views_of_typed(
                    final(generated)@,
                ) == views_of_typed(old(generated)@) + seg,
                CheckRes::Abort(e) => r == Result::<usize, TypeError>::Err(e),
            },
        decreases chunk@.len() - idx, 2int,
    {
        let ghost t0 = self.typer_view();
        let ghost a0 = views_of_typed(generated@);
        emit_typed(generated, TypedIRKind::Def(name.clone()));
        let (ft, j) = match self.parse_signature(chunk, idx, false, FunctionType::new()) {
            Ok(x) => x,
            Err(e) => {
                return Err(e);
            },
        };
        let params_copy = copy_sigs(&ft.parameters);
        self.type_stacks.push(params_copy);
        self.functions.push((name.clone(), ft));
        proof {
            if let SigRes::Next(ftv, _) = sp_parse_sig(
                t0,
                views_of_ir(chunk@),
                idx as int,
                false,
                FnTypeView { params: Seq::empty(), rets: Seq::empty() },
            ) {
                assert(self.typer_view() =~~= (TyperView {
                    stacks: t0.stacks.push(ftv.params),
                    functions: t0.functions.push((name@, ftv)),
                    ..t0
                }));
            }
        }
        let j2 = match self.typecheck_body(generated, chunk, j) {
            Ok(x) => x,
            Err(e) => {
                return Err(e);
            },
        };
        let rets_ok = match self.get_function(&name) {
            None => {
                return Err(TypeError::Internal);
            },
            Some(found) => self.top_equals(&found.returns),
        };
        if !rets_ok {
            return Err(TypeError::TypeMismatch);
        }
        let ghost before_pop = self.typer_view();
        proof {
            assert(self.type_stacks@.len() == self.typer_view().stacks.len());
        }
        match self.type_stacks.pop() {
            Some(_) => {},
            None => {
                proof {
                    assert(false);
                }
                return Err(TypeError::Internal);
            },
        }
        proof {
            assert(self.typer_view() =~~= (TyperView {
                stacks: before_pop.stacks.drop_last(),
                ..before_pop
            }));
            if let CheckRes::Next(_, seg1, _) = sp_check_function(
                t0,
                name@,
                views_of_ir(chunk@),
                idx as int,
            ) {
                if let SigRes::Next(ftv, jj) = sp_parse_sig(
                    t0,
                    views_of_ir(chunk@),
                    idx as int,
                    false,
                    FnTypeView { params: Seq::empty(), rets: Seq::empty() },
                ) {
                    let t1 = TyperView {
                        stacks: t0.stacks.push(ftv.params),
                        functions: t0.functions.push((name@, ftv)),
                        ..t0
                    };
                    if let CheckRes::Next(_, bseg, _) = sp_check_body(
                        t1,
                        views_of_ir(chunk@),
                        jj,
                    ) {
                        assert(a0 + seq![TypedKindView::Def(name@)] + bseg =~= a0 + (
                        seq![TypedKindView::Def(name@)] + bseg));
                    }
                }
            }
        }
        Ok(j2)
    }

    /// Checks a variable declaration past its name.
    fn typecheck_variable(
        &mut self,
        generated: &mut Vec<TypedIR>,
        name: String,
        chunk: &Vec<IR>,
        idx: usize,
    ) -> (r: Result<usize, TypeError>)
        requires
            idx <= chunk@.len(),
        ensures
            match sp_check_var(old(self).typer_view(), name@, views_of_ir(chunk@), idx as int) {
                CheckRes::Next(t1, seg, j) => r matches Ok(j2) && j2 as int == j && idx <= j2
                    && j2 <= chunk@.len() && final(self).typer_view() == t1 && final(self).typer_view().stacks.len() == old(self).typer_view().stacks.len() && views_of_typed(
                    final(generated)@,
                ) == views_of_typed(old(generated)@) + seg,
                CheckRes::Abort(e) => r == Result::<usize, TypeError>::Err(e),
            },
        decreases chunk@.len() - idx, 2int,
    {
        let ghost t0 = self.typer_view();
        let ghost a0 = views_of_typed(generated@);
        self.type_stacks.push(Vec::new());
        proof {
            assert(self.typer_view() =~~= (TyperView {
                stacks: t0.stacks.push(Seq::empty()),
                ..t0
            }));
        }
        emit_typed(generated, TypedIRKind::Var);
        let j = match self.typecheck_body(generated, chunk, idx) {
            Ok(x) => x,
            Err(e) => {
                return Err(e);
            },
        };
        if self.top_len() != 1 {
            return Err(TypeError::Shape);
        }
        if self.next_variable_index == usize::MAX {
            return Err(TypeError::VariableLimit);
        }
        let var_ty = match self.pop_ty() {
            Some(v) => v,
            None => {
                proof {
                    assert(false);
                }
                return Err(TypeError::Internal);
            },
        };
        let slot = self.next_variable_index;
        self.variables.push((name, VariableInfo::new(var_ty, slot)));
        self.next_variable_index = self.next_variable_index + 1;
        let ghost before_pop = self.typer_view();
        proof {
            assert(self.type_stacks@.len() == self.typer_view().stacks.len());
        }
        match self.type_stacks.pop() {
            Some(_) => {},
            None => {
                proof {
                    assert(false);
                }
                return Err(TypeError::Internal);
            },
        }
        emit_typed(generated, TypedIRKind::MakeVar(slot));
        proof {
            assert(self.typer_view() =~~= (TyperView {
                stacks: before_pop.stacks.drop_last(),
                ..before_pop
            }));
            let t1 = TyperView { stacks: t0.stacks.push(Seq::empty()), ..t0 };
            if let CheckRes::Next(t2, bseg, _) = sp_check_body(t1, views_of_ir(chunk@), idx as int) {
                assert(self.typer_view() =~~= (TyperView {
                    variables: t2.variables.push((name@, sp_top(t2).last(), slot)),
                    next_var: (t2.next_var + 1) as usize,
                    stacks: t2.stacks.drop_last(),
                    ..t2
                }));
                assert(a0 + seq![TypedKindView::Var] + bseg + seq![TypedKindView::MakeVar(slot)]
                    =~= a0 + (seq![TypedKindView::Var] + bseg + seq![TypedKindView::MakeVar(
                    slot,
                )]));
            }
        }
        Ok(j)
    }

    /// Checks an `if` block.
    fn typecheck_if(
        &mut self,
        generated: &mut Vec<TypedIR>,
        chunk: &Vec<IR>,
        idx: usize,
        before_if: Vec<TypeSignature>,
        snapshot: Option<Vec<TypeSignature>>,
    ) -> (r: Result<usize, TypeError>)
        requires
            old(self).typer_view().stacks.len() >= 1,
            idx <= chunk@.len(),
        ensures
            match sp_check_if(
                old(self).typer_view(),
                views_of_ir(chunk@),
                idx as int,
                views_of_sigs(before_if@),
                match snapshot {
                    Some(s) => Option::Some(views_of_sigs(s@)),
                    None => Option::None,
                },
            ) {
                CheckRes::Next(t1, seg, j) => r matches Ok(j2) && j2 as int == j && idx <= j2
                    && j2 <= chunk@.len() && final(self).typer_view() == t1 && final(self).typer_view().stacks.len() == old(self).typer_view().stacks.len() && views_of_typed(
                    final(generated)@,
                ) == views_of_typed(old(generated)@) + seg,
                CheckRes::Abort(e) => r == Result::<usize, TypeError>::Err(e),
            },
        decreases chunk@.len() - idx, 2int,
    {
        let ghost t0 = self.typer_view();
        let ghost a0 = views_of_typed(generated@);
        let ghost snapv = match &snapshot {
            Some(s) => Option::Some(views_of_sigs(s@)),
            None => Option::<Seq<TypeSigView>>::None,
        };
        if idx >= chunk.len() {
            proof {
                assert(a0 + Seq::<TypedKindView>::empty() =~= a0);
            }
            return Ok(idx);
        }
        match &chunk[idx].kind {
            IRKind::Then => {
                let c = match self.pop_ty() {
                    Some(v) => v,
                    None => {
                        return Err(TypeError::Shape);
                    },
                };
                let bool_sig = TypeSignature::Bool;
                if !sig_eq(&c, &bool_sig) {
                    return Err(TypeError::TypeMismatch);
                }
                emit_typed(generated, TypedIRKind::Then);
                match self.typecheck_if(generated, chunk, idx + 1, before_if, snapshot) {
                    Ok(j) => {
                        proof {
                            if let Option::Some((_, t1)) = sp_pop1(t0) {
                                if let CheckRes::Next(_, seg2, _) = sp_check_if(
                                    t1,
                                    views_of_ir(chunk@),
                                    idx + 1,
                                    views_of_sigs(before_if@),
                                    snapv,
                                ) {
                                    assert(a0 + seq![TypedKindView::Then] + seg2 =~= a0 + (
                                    seq![TypedKindView::Then] + seg2));
                                }
                            }
                        }
                        Ok(j)
                    },
                    Err(e) => Err(e),
                }
            },
            IRKind::Elif => {
                let matches_snap = match &snapshot {
                    Some(s) => self.top_equals(s),
                    None => true,
                };
                if !matches_snap {
                    return Err(TypeError::BranchMismatch);
                }
                let snap1 = match snapshot {
                    Some(s) => Some(s),
                    None => Some(self.snapshot_top()),
                };
                emit_typed(generated, TypedIRKind::Elif);
                match self.typecheck_if(generated, chunk, idx + 1, before_if, snap1) {
                    Ok(j) => {
                        proof {
                            let snap1v = match snapv {
                                Option::Some(s) => Option::Some(s),
                                Option::None => Option::Some(sp_top(t0)),
                            };
                            if let CheckRes::Next(_, seg2, _) = sp_check_if(
                                t0,
                                views_of_ir(chunk@),
                                idx + 1,
                                views_of_sigs(before_if@),
                                snap1v,
                            ) {
                                assert(a0 + seq![TypedKindView::Elif] + seg2 =~= a0 + (
                                seq![TypedKindView::Elif] + seg2));
                            }
                        }
                        Ok(j)
                    },
                    Err(e) => Err(e),
                }
            },
            IRKind::Else => {
                let matches_snap = match &snapshot {
                    Some(s) => self.top_equals(s),
                    None => true,
                };
                if !matches_snap {
                    return Err(TypeError::BranchMismatch);
                }
                let snap1 = match snapshot {
                    Some(s) => Some(s),
                    None => Some(self.snapshot_top()),
                };
                emit_typed(generated, TypedIRKind::Else);
                match self.typecheck_if(generated, chunk, idx + 1, before_if, snap1) {
                    Ok(j) => {
                        proof {
                            let snap1v = match snapv {
                                Option::Some(s) => Option::Some(s),
                                Option::None => Option::Some(sp_top(t0)),
                            };
                            if let CheckRes::Next(_, seg2, _) = sp_check_if(
                                t0,
                                views_of_ir(chunk@),
                                idx + 1,
                                views_of_sigs(before_if@),
                                snap1v,
                            ) {
                                assert(a0 + seq![TypedKindView::Else] + seg2 =~= a0 + (
                                seq![TypedKindView::Else] + seg2));
                            }
                        }
                        Ok(j)
                    },
                    Err(e) => Err(e),
                }
            },
            IRKind::End => {
                let matches_snap = match &snapshot {
                    Some(s) => self.top_equals(s),
                    None => self.top_equals(&before_if),
                };
                if !matches_snap {
                    return Err(TypeError::BranchMismatch);
                }
                emit_typed(generated, TypedIRKind::End);
                Ok(idx + 1)
            },
            _ => {
                match self.typecheck_expression(generated, chunk, idx) {
                    Ok(j) => {
                        match self.typecheck_if(generated, chunk, j, before_if, snapshot) {
                            Ok(j2) => {
                                proof {
                                    if let CheckRes::Next(t1, s1, jj) = sp_check_expr(
                                        t0,
                                        views_of_ir(chunk@),
                                        idx as int,
                                    ) {
                                        if let CheckRes::Next(_, s2, _) = sp_check_if(
                                            t1,
                                            views_of_ir(chunk@),
                                            jj,
                                            views_of_sigs(before_if@),
                                            snapv,
                                        ) {
                                            assert(a0 + s1 + s2 =~= a0 + (s1 + s2));
                                        }
                                    }
                                }
                                Ok(j2)
                            },
                            Err(e) => Err(e),
                        }
                    },
                    Err(e) => Err(e),
                }
            },
        }
    }

    /// Checks a `while` block.
    fn typecheck_while(
        &mut self,
        generated: &mut Vec<TypedIR>,
        chunk: &Vec<IR>,
        idx: usize,
        before_loop: Vec<TypeSignature>,
    ) -> (r: Result<usize, TypeError>)
        requires
            old(self).typer_view().stacks.len() >= 1,
            idx <= chunk@.len(),
        ensures
            match sp_check_while(
                old(self).typer_view(),
                views_of_ir(chunk@),
                idx as int,
                views_of_sigs(before_loop@),
            ) {
                CheckRes::Next(t1, seg, j) => r matches Ok(j2) && j2 as int == j && idx <= j2
                    && j2 <= chunk@.len() && final(self).typer_view() == t1 && final(self).typer_view().stacks.len() == old(self).typer_view().stacks.len() && views_of_typed(
                    final(generated)@,
                ) == views_of_typed(old(generated)@) + seg,
                CheckRes::Abort(e) => r == Result::<usize, TypeError>::Err(e),
            },
        decreases chunk@.len() - idx, 2int,
    {
        let ghost t0 = self.typer_view();
        let ghost a0 = views_of_typed(generated@);
        if idx >= chunk.len() {
            if !self.top_equals(&before_loop) {
                return Err(TypeError::BranchMismatch);
            }
            proof {
                assert(a0 + Seq::<TypedKindView>::empty() =~= a0);
            }
            return Ok(idx);
        }
        match &chunk[idx].kind {
            IRKind::End => {
                if !self.top_equals(&before_loop) {
                    return Err(TypeError::BranchMismatch);
                }
                emit_typed(generated, TypedIRKind::End);
                Ok(idx + 1)
            },
            IRKind::Do => {
                let c = match self.pop_ty() {
                    Some(v) => v,
                    None => {
                        return Err(TypeError::Shape);
                    },
                };
                let bool_sig = TypeSignature::Bool;
                if !sig_eq(&c, &bool_sig) {
                    return Err(TypeError::TypeMismatch);
                }
                emit_typed(generated, TypedIRKind::Do);
                match self.typecheck_while(generated, chunk, idx + 1, before_loop) {
                    Ok(j) => {
                        proof {
                            if let Option::Some((_, t1)) = sp_pop1(t0) {
                                if let CheckRes::Next(_, seg2, _) = sp_check_while(
                                    t1,
                                    views_of_ir(chunk@),
                                    idx + 1,
                                    views_of_sigs(before_loop@),
                                ) {
                                    assert(a0 + seq![TypedKindView::Do] + seg2 =~= a0 + (
                                    seq![TypedKindView::Do] + seg2));
                                }
                            }
                        }
                        Ok(j)
                    },
                    Err(e) => Err(e),
                }
            },
            _ => {
                match self.typecheck_expression(generated, chunk, idx) {
                    Ok(j) => {
                        match self.typecheck_while(generated, chunk, j, before_loop) {
                            Ok(j2) => {
                                proof {
                                    if let CheckRes::Next(t1, s1, jj) = sp_check_expr(
                                        t0,
                                        views_of_ir(chunk@),
                                        idx as int,
                                    ) {
                                        if let CheckRes::Next(_, s2, _) = sp_check_while(
                                            t1,
                                            views_of_ir(chunk@),
                                            jj,
                                            views_of_sigs(before_loop@),
                                        ) {
                                            assert(a0 + s1 + s2 =~= a0 + (s1 + s2));
                                        }
                                    }
                                }
                                Ok(j2)
                            },
                            Err(e) => Err(e),
                        }
                    },
                    Err(e) => Err(e),
                }
            },
        }
    }

    /// Checks a struct declaration past its name, collecting fields.
    fn typecheck_struct(
        &mut self,
        name: String,
        chunk: &Vec<IR>,
        idx: usize,
        fields: Vec<TypeSignature>,
    ) -> (r: Result<usize, TypeError>)
        requires
            idx <= chunk@.len(),
        ensures
            match sp_check_struct(
                old(self).typer_view(),
                name@,
                views_of_ir(chunk@),
                idx as int,
                views_of_sigs(fields@),
            ) {
                CheckRes::Next(t1, seg, j) => r matches Ok(j2) && j2 as int == j && idx <= j2
                    && j2 <= chunk@.len() && final(self).typer_view() == t1 && final(self).typer_view().stacks.len() == old(self).typer_view().stacks.len() && seg
                    == Seq::<TypedKindView>::empty(),
                CheckRes::Abort(e) => r == Result::<usize, TypeError>::Err(e),
            },
        decreases chunk@.len() - idx, 1int,
    {
        let ghost t0 = self.typer_view();
        if idx >= chunk.len() {
            self.structs.push((name, StructType { field_types: fields }));
            proof {
                assert(self.typer_view() =~~= (TyperView {
                    structs: t0.structs.push((name@, views_of_sigs(fields@))),
                    ..t0
                }));
            }
            return Ok(idx);
        }
        match &chunk[idx].kind {
            IRKind::End => {
                self.structs.push((name, StructType { field_types: fields }));
                proof {
                    assert(self.typer_view() =~~= (TyperView {
                        structs: t0.structs.push((name@, views_of_sigs(fields@))),
                        ..t0
                    }));
                }
                Ok(idx + 1)
            },
            IRKind::StructField(ts) => {
                let mut fields = fields;
                let ghost f0 = views_of_sigs(fields@);
                fields.push(copy_sig(ts));
                proof {
                    assert(views_of_sigs(fields@) =~= f0.push(ts@));
                }
                self.typecheck_struct(name, chunk, idx + 1, fields)
            },
            _ => Err(TypeError::UnexpectedToken),
        }
    }

    /// Checks the top-level declarations of one chunk.
    fn typecheck_chunk_items(
        &mut self,
        generated: &mut Vec<TypedIR>,
        chunk: &Vec<IR>,
        idx: usize,
    ) -> (r: Result<(), TypeError>)
        requires
            idx <= chunk@.len(),
        ensures
            match sp_check_chunk_items(old(self).typer_view(), views_of_ir(chunk@), idx as int) {
                CheckRes::Next(t1, seg, _) => r is Ok && final(self).typer_view() == t1
                    && views_of_typed(final(generated)@) == views_of_typed(old(generated)@) + seg,
                CheckRes::Abort(e) => r == Result::<(), TypeError>::Err(e),
            },
        decreases chunk@.len() - idx, 3int,
    {
        let ghost t0 = self.typer_view();
        let ghost a0 = views_of_typed(generated@);
        if idx >= chunk.len() {
            proof {
                assert(a0 + Seq::<TypedKindView>::empty() =~= a0);
            }
            return Ok(());
        }
        let j = match &chunk[idx].kind {
            IRKind::Def(name) => {
                match self.typecheck_function(generated, name.clone(), chunk, idx + 1) {
                    Ok(j) => j,
                    Err(e) => {
                        return Err(e);
                    },
                }
            },
            IRKind::Var(name) => {
                match self.typecheck_variable(generated, name.clone(), chunk, idx + 1) {
                    Ok(j) => j,
                    Err(e) => {
                        return Err(e);
                    },
                }
            },
            IRKind::Struct(name) => {
                proof {
                    assert(views_of_sigs(Seq::<TypeSignature>::empty()) =~= Seq::<
                        TypeSigView,
                    >::empty());
                }
                match self.typecheck_struct(name.clone(), chunk, idx + 1, Vec::new()) {
                    Ok(j) => j,
                    Err(e) => {
                        return Err(e);
                    },
                }
            },
            _ => {
                return Err(TypeError::UnexpectedToken);
            },
        };
        if j <= idx {
            proof {
                assert(false);
            }
            return Err(TypeError::Internal);
        }
        match self.typecheck_chunk_items(generated, chunk, j) {
            Ok(()) => {
                proof {
                    let sub = match views_of_ir(chunk@)[idx as int] {
                        IrKindView::Def(nm) => sp_check_function(
                            t0,
                            nm,
                            views_of_ir(chunk@),
                            idx + 1,
                        ),
                        IrKindView::Var(nm) => sp_check_var(t0, nm, views_of_ir(chunk@), idx + 1),
                        IrKindView::Struct(nm) => sp_check_struct(
                            t0,
                            nm,
                            views_of_ir(chunk@),
                            idx + 1,
                            Seq::empty(),
                        ),
                        _ => CheckRes::Abort(TypeError::UnexpectedToken),
                    };
                    if let CheckRes::Next(t1, s1, jj) = sub {
                        if let CheckRes::Next(_, s2, _) = sp_check_chunk_items(
                            t1,
                            views_of_ir(chunk@),
                            jj,
                        ) {
                            assert(a0 + s1 + s2 =~= a0 + (s1 + s2));
                        }
                    }
                }
                Ok(())
            },
            Err(e) => Err(e),
        }
    }

    /// Checks one chunk and returns the typed IR it produces.
    fn typecheck_chunk(&mut self, chunk: &Vec<IR>) -> (r: Result<TypedChunk, TypeError>)
        ensures
            match sp_check_chunk_items(old(self).typer_view(), views_of_ir(chunk@), 0) {
                CheckRes::Next(t1, seg, _) => r matches Ok(tc) && final(self).typer_view() == t1
                    && views_of_typed(tc@) == seg,
                CheckRes::Abort(e) => r == Result::<TypedChunk, TypeError>::Err(e),
            },
    {
        let mut generated: Vec<TypedIR> = Vec::new();
        match self.typecheck_chunk_items(&mut generated, chunk, 0) {
            Ok(()) => {
                proof {
                    if let CheckRes::Next(_, seg, _) = sp_check_chunk_items(
                        old(self).typer_view(),
                        views_of_ir(chunk@),
                        0,
                    ) {
                        assert(views_of_typed(generated@) =~= Seq::<TypedKindView>::empty() + seg);
                        assert(Seq::<TypedKindView>::empty() + seg =~= seg);
                    }
                }
                Ok(generated)
            },
            Err(e) => Err(e),
        }
    }
}

/// Checks a sequence of untyped chunks and returns the typed chunks,
/// empty ones left out.  The result is exactly [`sp_typecheck`] of the
/// chunks' views.
#[verifier::loop_isolation(false)]
pub fn typecheck(ir_chunks: IRChunks) -> (r: Result<TypedChunks, TypeError>)
    ensures
        match sp_typecheck(views_of_ir_chunks(ir_chunks@)) {
            Result::Ok(segs) => r matches Ok(tc) && views_of_typed_chunks(tc@) == segs,
            Result::Err(e) => r == Result::<TypedChunks, TypeError>::Err(e),
        },
{
    let ghost cviews = views_of_ir_chunks(ir_chunks@);
    let mut typer = Typer::new();
    let mut typechecked: TypedChunks = Vec::new();
    let n = ir_chunks.len();
    let mut i: usize = 0;
    while i < n
        invariant
            i <= n,
            sp_typecheck_chunks(sp_init_typer(), cviews, 0) == (match sp_typecheck_chunks(
                typer.typer_view(),
                cviews,
                i as int,
            ) {
                Result::Ok((tf, rest)) => Result::<
                    (TyperView, Seq<Seq<TypedKindView>>),
                    TypeError,
                >::Ok((tf, views_of_typed_chunks(typechecked@) + rest)),
                Result::Err(e) => Result::Err(e),
            }),
        decreases n - i,
    {
        proof {
            assert(cviews[i as int] == views_of_ir(ir_chunks@[i as int]@));
        }
        let ghost out0 = views_of_typed_chunks(typechecked@);
        let typed = match typer.typecheck_chunk(&ir_chunks[i]) {
            Ok(tc) => tc,
            Err(e) => {
                return Err(e);
            },
        };
        let ghost segv = views_of_typed(typed@);
        if typed.len() > 0 {
            typechecked.push(typed);
            proof {
                assert(views_of_typed_chunks(typechecked@) =~= out0 + seq![segv]);
            }
        } else {
            proof {
                assert(segv =~= Seq::<TypedKindView>::empty());
            }
        }
        proof {
            if let Result::Ok((tf, rest)) = sp_typecheck_chunks(typer.typer_view(), cviews, i + 1) {
                if segv.len() > 0 {
                    assert((out0 + seq![segv]) + rest =~= out0 + (seq![segv] + rest));
                }
            }
        }
        i = i + 1;
    }
    proof {
        assert(views_of_typed_chunks(typechecked@) + Seq::<Seq<TypedKindView>>::empty()
            =~= views_of_typed_chunks(typechecked@));
    }
    Ok(typechecked)
}

/// For every function, the type stack the body leaves just before the
/// implicit `Return` equals the declared return types, so its depth is
/// the return-type arity; otherwise checking fails.
pub proof fn lemma_function_returns(
    t: TyperView,
    name: Seq<char>,
    chunk: Seq<IrKindView>,
    idx: int,
)
    requires
        sp_check_function(t, name, chunk, idx) is Next,
    ensures
        match sp_parse_sig(
            t,
            chunk,
            idx,
            false,
            FnTypeView { params: Seq::empty(), rets: Seq::empty() },
        ) {
            SigRes::Next(ft, j) => {
                let t1 = TyperView {
                    stacks: t.stacks.push(ft.params),
                    functions: t.functions.push((name, ft)),
                    ..t
                };
                match sp_check_body(t1, chunk, j) {
                    CheckRes::Next(t2, _, _) => {
                        &&& fn_of(t2.functions, name) is Some
                        &&& sp_top(t2) == fn_of(t2.functions, name)->Some_0.rets
                        &&& sp_top(t2).len() == fn_of(t2.functions, name)->Some_0.rets.len()
                    },
                    CheckRes::Abort(_) => false,
                }
            },
            SigRes::Abort(_) => false,
        },
{
}

/// At the `end` of an `if`, the type stack must equal the snapshot
/// taken after the first completed arm — or the stack at the `if`
/// itself when no arm boundary was seen — and checking succeeds
/// exactly then, leaving the state unchanged.  The depth after `end`
/// is therefore the depth before the `if` plus the arms' common
/// effect.
pub proof fn lemma_if_end_agrees(
    t: TyperView,
    chunk: Seq<IrKindView>,
    idx: int,
    before_if: Seq<TypeSigView>,
    snapshot: Option<Seq<TypeSigView>>,
)
    requires
        0 <= idx < chunk.len(),
        chunk[idx] is End,
    ensures
        match sp_check_if(t, chunk, idx, before_if, snapshot) {
            CheckRes::Next(t2, _, _) => t2 == t && (match snapshot {
                Option::Some(s) => sp_top(t) == s,
                Option::None => sp_top(t) == before_if,
            }),
            CheckRes::Abort(e) => e == TypeError::BranchMismatch && (match snapshot {
                Option::Some(s) => sp_top(t) != s,
                Option::None => sp_top(t) != before_if,
            }),
        },
{
}

/// For every `while`, checking succeeds only if the type stack at the
/// block's end equals the stack at the `while`; the depth after `end`
/// is the depth before the loop.
pub proof fn lemma_while_stack_restored(
    t: TyperView,
    chunk: Seq<IrKindView>,
    idx: int,
    before: Seq<TypeSigView>,
)
    ensures
        match sp_check_while(t, chunk, idx, before) {
            CheckRes::Next(t2, _, _) => t2.stacks.len() >= 1 && sp_top(t2) == before,
            CheckRes::Abort(_) => true,
        },
    decreases chunk.len() - idx,
{
    if 0 <= idx < chunk.len() {
        match chunk[idx] {
            IrKindView::End => {},
            IrKindView::Do => {
                match sp_pop1(t) {
                    Option::Some((c, t1)) => {
                        if c == bool_v() {
                            lemma_while_stack_restored(t1, chunk, idx + 1, before);
                        }
                    },
                    Option::None => {},
                }
            },
            _ => {
                match sp_check_expr(t, chunk, idx) {
                    CheckRes::Next(t1, _, j) => {
                        if idx < j <= chunk.len() {
                            lemma_while_stack_restored(t1, chunk, j, before);
                        }
                    },
                    CheckRes::Abort(_) => {},
                }
            },
        }
    }
}

/// For every `Call(f)`, the type-stack depth after the call equals the
/// depth before it, minus the arity of `f`'s parameters, plus the
/// arity of its returns.
pub proof fn lemma_call_stack_effect(t: TyperView, name: Seq<char>, idx: int)
    requires
        t.stacks.len() >= 1,
        sp_check_call(t, name, idx) is Next,
    ensures
        fn_of(t.functions, name) is Some,
        match sp_check_call(t, name, idx) {
            CheckRes::Next(t2, _, _) => {
                let ft = fn_of(t.functions, name)->Some_0;
                sp_top(t2).len() == sp_top(t).len() - ft.params.len() + ft.rets.len()
            },
            CheckRes::Abort(_) => false,
        },
{
}

} // verus!
