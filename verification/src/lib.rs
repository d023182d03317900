//! Evaluation core of a tree-walking interpreter for a small dynamically
//! typed scripting language: tagged values with integer/float duality,
//! byte-string coercion, associative tables with a dense sequence part,
//! a block-scoped environment stack, and structured control flow.
//!
//! The parser is an external collaborator: the evaluator receives an
//! already-built abstract syntax tree (`ast`) and plain values.

use vstd::prelude::*;

pub mod float;
pub mod types;
pub mod ast;
pub mod text;
pub mod binop;
pub mod sem;
pub mod expression;
pub mod unop;
pub mod prefixexp;
pub mod control_flow;

verus! {

/// Tagged error value surfaced by the evaluator. Messages are
/// human-readable and not part of any contract; contracts speak only of
/// the variant, through the `ErrKind` view.
#[derive(Debug, Clone, PartialEq, Eq)]
pub enum LuaError {
    TypeError(&'static str),
    IndexError(&'static str),
    ArithmeticError(&'static str),
    OtherError(&'static str),
    NotImplementedError,
}

/// Specification-level error tag: the variant of a `LuaError` without its
/// message.
pub enum ErrKind {
    TypeErr,
    IndexErr,
    ArithErr,
    OtherErr,
    NotImpl,
}

impl View for LuaError {
    type V = ErrKind;

    open spec fn view(&self) -> ErrKind {
        match self {
            LuaError::TypeError(_) => ErrKind::TypeErr,
            LuaError::IndexError(_) => ErrKind::IndexErr,
            LuaError::ArithmeticError(_) => ErrKind::ArithErr,
            LuaError::OtherError(_) => ErrKind::OtherErr,
            LuaError::NotImplementedError => ErrKind::NotImpl,
        }
    }
}

} // verus!
