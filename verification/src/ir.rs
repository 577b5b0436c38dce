//! Untyped IR: the input contract of the type checker.
//!
//! A chunk is one top-level declaration's stream of [`IR`] items, as the
//! surface front end produces it.  The first item of a chunk is `Def`,
//! `Var` or `Struct`.
//!
//! In specifications a [`TypeSignature`] is abstracted by [`TypeSigView`]:
//! because `Ptr` is the only recursive constructor, every signature is a
//! base type under some number of pointers, and that pair is the view.

use vstd::prelude::*;

verus! {

/// A value produced by constant evaluation in the front end.
#[derive(Debug)]
pub enum Constant {
    Bool(bool),
    Int(i64),
    Str(String),
}

/// A type of the source language.
#[derive(Debug)]
pub enum TypeSignature {
    Bool,
    Int,
    Str,
    Ptr(Box<TypeSignature>),
    Struct(String),
}

/// The base of a type signature, once pointers are stripped.
pub enum BaseTy {
    Bool,
    Int,
    Str,
    Named(Seq<char>),
}

/// Mathematical view of a [`TypeSignature`]: a base type under
/// `ptr_depth` applications of `Ptr`.
pub struct TypeSigView {
    pub ptr_depth: nat,
    pub base: BaseTy,
}

pub open spec fn sig_view(t: TypeSignature) -> TypeSigView
    decreases t,
{
    match t {
        TypeSignature::Bool => TypeSigView { ptr_depth: 0, base: BaseTy::Bool },
        TypeSignature::Int => TypeSigView { ptr_depth: 0, base: BaseTy::Int },
        TypeSignature::Str => TypeSigView { ptr_depth: 0, base: BaseTy::Str },
        TypeSignature::Ptr(inner) => {
            let iv = sig_view(*inner);
            TypeSigView { ptr_depth: iv.ptr_depth + 1, base: iv.base }
        },
        TypeSignature::Struct(name) => TypeSigView { ptr_depth: 0, base: BaseTy::Named(name@) },
    }
}

impl View for TypeSignature {
    type V = TypeSigView;

    open spec fn view(&self) -> TypeSigView {
        sig_view(*self)
    }
}

impl TypeSigView {
    /// The view of a pointer to `self`.
    pub open spec fn ptr_to(self) -> TypeSigView {
        TypeSigView { ptr_depth: self.ptr_depth + 1, base: self.base }
    }

    /// The type obtained by stripping one `Ptr` (meaningful on a
    /// pointer, one with `ptr_depth >= 1`).
    pub open spec fn pointee(self) -> TypeSigView {
        TypeSigView { ptr_depth: (self.ptr_depth - 1) as nat, base: self.base }
    }
}

/// The views of a stack of type signatures.
pub open spec fn views_of_sigs(s: Seq<TypeSignature>) -> Seq<TypeSigView> {
    s.map_values(|t: TypeSignature| t@)
}

/// Structural equality of signatures, decided at the level of views.
pub fn sig_eq(a: &TypeSignature, b: &TypeSignature) -> (r: bool)
    ensures
        r == (a@ == b@),
    decreases *a,
{
    match (a, b) {
        (TypeSignature::Bool, TypeSignature::Bool) => true,
        (TypeSignature::Int, TypeSignature::Int) => true,
        (TypeSignature::Str, TypeSignature::Str) => true,
        (TypeSignature::Ptr(x), TypeSignature::Ptr(y)) => sig_eq(&**x, &**y),
        (TypeSignature::Struct(n1), TypeSignature::Struct(n2)) => *n1 == *n2,
        _ => false,
    }
}

/// Equality of two signature sequences, at the level of views.
pub fn sigs_eq(a: &Vec<TypeSignature>, b: &Vec<TypeSignature>) -> (r: bool)
    ensures
        r == (views_of_sigs(a@) == views_of_sigs(b@)),
{
    if a.len() != b.len() {
        assert(views_of_sigs(a@).len() != views_of_sigs(b@).len());
        return false;
    }
    let n = a.len();
    let mut i: usize = 0;
    while i < n
        invariant
            n == a.len() == b.len(),
            i <= n,
            forall|j: int| 0 <= j < i ==> views_of_sigs(a@)[j] == views_of_sigs(b@)[j],
        decreases n - i,
    {
        if !sig_eq(&a[i], &b[i]) {
            assert(views_of_sigs(a@)[i as int] != views_of_sigs(b@)[i as int]);
            return false;
        }
        i = i + 1;
    }
    assert(views_of_sigs(a@) =~= views_of_sigs(b@));
    true
}

/// A structurally equal copy of a signature.
pub fn copy_sig(t: &TypeSignature) -> (r: TypeSignature)
    ensures
        r@ == t@,
    decreases *t,
{
    match t {
        TypeSignature::Bool => TypeSignature::Bool,
        TypeSignature::Int => TypeSignature::Int,
        TypeSignature::Str => TypeSignature::Str,
        TypeSignature::Ptr(inner) => TypeSignature::Ptr(Box::new(copy_sig(&**inner))),
        TypeSignature::Struct(n) => TypeSignature::Struct(n.clone()),
    }
}

/// A copy of a signature sequence, equal element by element at view level.
pub fn copy_sigs(v: &Vec<TypeSignature>) -> (r: Vec<TypeSignature>)
    ensures
        views_of_sigs(r@) == views_of_sigs(v@),
{
    let mut r: Vec<TypeSignature> = Vec::new();
    let n = v.len();
    let mut i: usize = 0;
    while i < n
        invariant
            n == v.len(),
            i <= n,
            r@.len() == i,
            forall|j: int| 0 <= j < i ==> views_of_sigs(r@)[j] == views_of_sigs(v@)[j],
        decreases n - i,
    {
        r.push(copy_sig(&v[i]));
        i = i + 1;
    }
    assert(views_of_sigs(r@) =~= views_of_sigs(v@));
    r
}

/// One item of untyped IR.
#[derive(Debug)]
pub struct IR {
    pub kind: IRKind,
}

/// The kinds of untyped IR items the checker consumes.
#[derive(Debug)]
pub enum IRKind {
    // Literals
    PushBool(bool),
    PushInt(i64),
    PushStr(String),
    // Keywords
    End,
    If,
    Elif,
    Else,
    While,
    Then,
    Do,
    Def(String),
    FunctionArgument(TypeSignature),
    DashDash,
    Var(String),
    Struct(String),
    StructField(TypeSignature),
    // Operators
    Dup,
    Over,
    Drop,
    Swap,
    Print,
    Add,
    Subtract,
    Multiply,
    Divide,
    Eq,
    Neq,
    Lt,
    Gt,
    And,
    Or,
    Not,
    Assign,
    Load,
    Call(String),
    Bind(usize),
    Unbind(usize),
    PushBind(usize),
    PushVar(String),
}

/// Mathematical view of an [`IRKind`].
pub enum IrKindView {
    PushBool(bool),
    PushInt(i64),
    PushStr(Seq<char>),
    End,
    If,
    Elif,
    Else,
    While,
    Then,
    Do,
    Def(Seq<char>),
    FunctionArgument(TypeSigView),
    DashDash,
    Var(Seq<char>),
    Struct(Seq<char>),
    StructField(TypeSigView),
    Dup,
    Over,
    Drop,
    Swap,
    Print,
    Add,
    Subtract,
    Multiply,
    Divide,
    Eq,
    Neq,
    Lt,
    Gt,
    And,
    Or,
    Not,
    Assign,
    Load,
    Call(Seq<char>),
    Bind(usize),
    Unbind(usize),
    PushBind(usize),
    PushVar(Seq<char>),
}

impl View for IRKind {
    type V = IrKindView;

    open spec fn view(&self) -> IrKindView {
        match self {
            IRKind::PushBool(b) => IrKindView::PushBool(*b),
            IRKind::PushInt(v) => IrKindView::PushInt(*v),
            IRKind::PushStr(s) => IrKindView::PushStr(s@),
            IRKind::End => IrKindView::End,
            IRKind::If => IrKindView::If,
            IRKind::Elif => IrKindView::Elif,
            IRKind::Else => IrKindView::Else,
            IRKind::While => IrKindView::While,
            IRKind::Then => IrKindView::Then,
            IRKind::Do => IrKindView::Do,
            IRKind::Def(n) => IrKindView::Def(n@),
            IRKind::FunctionArgument(t) => IrKindView::FunctionArgument(t@),
            IRKind::DashDash => IrKindView::DashDash,
            IRKind::Var(n) => IrKindView::Var(n@),
            IRKind::Struct(n) => IrKindView::Struct(n@),
            IRKind::StructField(t) => IrKindView::StructField(t@),
            IRKind::Dup => IrKindView::Dup,
            IRKind::Over => IrKindView::Over,
            IRKind::Drop => IrKindView::Drop,
            IRKind::Swap => IrKindView::Swap,
            IRKind::Print => IrKindView::Print,
            IRKind::Add => IrKindView::Add,
            IRKind::Subtract => IrKindView::Subtract,
            IRKind::Multiply => IrKindView::Multiply,
            IRKind::Divide => IrKindView::Divide,
            IRKind::Eq => IrKindView::Eq,
            IRKind::Neq => IrKindView::Neq,
            IRKind::Lt => IrKindView::Lt,
            IRKind::Gt => IrKindView::Gt,
            IRKind::And => IrKindView::And,
            IRKind::Or => IrKindView::Or,
            IRKind::Not => IrKindView::Not,
            IRKind::Assign => IrKindView::Assign,
            IRKind::Load => IrKindView::Load,
            IRKind::Call(n) => IrKindView::Call(n@),
            IRKind::Bind(n) => IrKindView::Bind(*n),
            IRKind::Unbind(n) => IrKindView::Unbind(*n),
            IRKind::PushBind(n) => IrKindView::PushBind(*n),
            IRKind::PushVar(n) => IrKindView::PushVar(n@),
        }
    }
}

impl View for IR {
    type V = IrKindView;

    open spec fn view(&self) -> IrKindView {
        self.kind@
    }
}

/// One untyped declaration chunk.
pub type IRChunk = Vec<IR>;

/// The front end's whole output.
pub type IRChunks = Vec<IRChunk>;

/// The views of a chunk of IR items.
pub open spec fn views_of_ir(s: Seq<IR>) -> Seq<IrKindView> {
    s.map_values(|x: IR| x@)
}

} // verus!
