//! The abstract syntax the evaluator receives: expressions, prefix
//! expressions, table constructors, statements and blocks. The parser that
//! produces this syntax from source text is an external collaborator;
//! names and string literals arrive as byte strings, float literals as
//! binary64 bit patterns.

use vstd::prelude::*;

verus! {

/// A numeral literal: an integer or a binary64 float (as its bit pattern).
#[derive(Debug, Clone)]
pub enum Numeral {
    Int(i64),
    Float(u64),
}

/// Binary operators.
#[derive(Debug, Clone, PartialEq, Eq)]
pub enum BinOp {
    Plus,
    Minus,
    Mul,
    Div,
    IntDiv,
    Mod,
    Pow,
    Concat,
    BitAnd,
    BitOr,
    BitXor,
    BitShl,
    BitShr,
    Lt,
    Leq,
    Gt,
    Geq,
    Equal,
    NotEqual,
    BoolAnd,
    BoolOr,
}

/// Unary operators.
#[derive(Debug, Clone, PartialEq, Eq)]
pub enum UnOp {
    BoolNot,
    Minus,
    Length,
    BitNot,
}

/// An expression.
#[derive(Debug)]
pub enum Exp {
    Nil,
    Bool(bool),
    Num(Numeral),
    Str(Vec<u8>),
    BinExp(Box<Exp>, BinOp, Box<Exp>),
    UnExp(UnOp, Box<Exp>),
    PrefixExp(Box<PrefixExp>),
    Table(Vec<Field>),
    Ellipsis,
    FuncCall,
    Lambda,
}

/// One field of a table constructor: positional, bracket-keyed, or
/// name-keyed.
#[derive(Debug)]
pub enum Field {
    PosAssign(Exp),
    ExpAssign(Exp, Exp),
    NameAssign(Vec<u8>, Exp),
}

/// One suffix of a prefix expression: a dotted name, a bracketed index
/// expression, or a call (not implemented by this core).
#[derive(Debug)]
pub enum ExpSuffix {
    TableDot(Vec<u8>),
    TableIdx(Exp),
    FuncCall,
}

/// The root of a prefix expression: a variable name or a parenthesized
/// expression.
#[derive(Debug)]
pub enum ExpOrVarName {
    Exp(Box<Exp>),
    VarName(Vec<u8>),
}

/// A prefix expression: a root followed by a suffix chain.
#[derive(Debug)]
pub struct PrefixExp {
    pub prefix: ExpOrVarName,
    pub suffix_chain: Vec<ExpSuffix>,
}

/// A statement.
#[derive(Debug)]
pub enum Statement {
    /// `local x, y = e1, e2` — vals may be absent entirely.
    LVarAssign(LAssignment),
    /// `lhs1, lhs2 = e1, e2` through prefix expressions.
    Assignment(MultiAssign),
    Semicolon,
    Ite(IfThenElse),
    While(WhileBlock),
    Repeat(RepeatBlock),
    Break,
    Return(Vec<Exp>),
    /// Any statement form this core deliberately does not execute
    /// (function declarations, numeric for, goto, ...): a no-op.
    NotSupported,
}

/// A local assignment: names and an optional list of right-hand sides.
#[derive(Debug)]
pub struct LAssignment {
    pub vars: Vec<Vec<u8>>,
    pub vals: Option<Vec<Exp>>,
}

/// An assignment through prefix expressions.
#[derive(Debug)]
pub struct MultiAssign {
    pub vars: Vec<PrefixExp>,
    pub vals: Vec<Exp>,
}

/// `if cond then blk {elseif cond then blk} [else blk] end`.
#[derive(Debug)]
pub struct IfThenElse {
    pub cond: Exp,
    pub then_blk: Block,
    pub elseifs: Vec<(Exp, Block)>,
    pub else_blk: Option<Block>,
}

/// `while cond do block end`.
#[derive(Debug)]
pub struct WhileBlock {
    pub cond: Exp,
    pub block: Block,
}

/// `repeat block until cond`; the condition sees the body's locals.
#[derive(Debug)]
pub struct RepeatBlock {
    pub block: Block,
    pub cond: Exp,
}

/// An ordered list of statements with an optional trailing return clause.
#[derive(Debug)]
pub struct Block {
    pub stmts: Vec<Statement>,
    pub ret_stmt: Option<Vec<Exp>>,
}

} // verus!
