//! Reko: a small concatenative, stack-oriented language.
//!
//! The crate covers the core of the pipeline: a stack-discipline type
//! checker over untyped IR chunks, a lowering pass from typed IR to a
//! linear bytecode, and the virtual machine that runs that bytecode.
//! The surface front end (tokeniser and parser) lives outside; it hands
//! the checker plain chunks of [`ir::IR`] items.

pub mod compiler;
pub mod evaluator;
pub mod ir;
pub mod render;
pub mod typer;
