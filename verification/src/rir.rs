//! The runtime intermediate representation: what is left of a program once
//! everything that can be computed before it runs is computed.

use crate::index_map::IndexMap;
use vstd::prelude::*;

verus! {

/// A region of a source file, by the offsets of its ends.
#[derive(Clone, Copy, Debug, Default, PartialEq, Eq, Structural, Hash)]
pub struct Span {
    pub lo: u32,
    pub hi: u32,
}

/// The key of a callable in a program.
#[derive(Clone, Copy, Debug, Default, PartialEq, Eq, Structural, Hash)]
pub struct CallableId(pub u32);

/// A type.
#[derive(Clone, Copy, Debug, PartialEq, Eq, Structural, Hash)]
pub enum Ty {
    Bool,
    Double,
    Int,
    Pauli,
    Qubit,
    Result,
}

/// An identifier.
#[derive(Debug)]
pub struct Ident {
    pub span: Span,
    pub name: String,
}

/// The condition of a branch.
#[derive(Clone, Copy, Debug, PartialEq, Eq, Structural, Hash)]
pub struct Condition {}

/// The shape of an expression.
#[derive(Debug)]
pub enum ExprKind {
    Literal,
    Ident(Ident),
    Call(CallableId, Vec<Expr>),
}

/// An expression.
#[derive(Debug)]
pub struct Expr {
    pub span: Span,
    pub ty: Ty,
    pub kind: ExprKind,
}

/// The shape of a statement.
#[derive(Debug)]
pub enum StmtKind {
    Binding(Ident, Expr),
    Expr(Expr),
    Branch(Condition, Block, Block),
}

/// A block: statements in their order.
#[derive(Debug)]
pub struct Block {
    pub span: Span,
    pub stmts: Vec<StmtKind>,
}

/// A statement.
#[derive(Debug)]
pub struct Stmt {
    pub span: Span,
    pub kind: StmtKind,
}

/// A callable. One without a body is intrinsic.
#[derive(Debug)]
pub struct Callable {
    pub id: CallableId,
    pub span: Span,
    pub name: String,
    pub input: Vec<(Ty, Ident)>,
    pub output: Ty,
    pub body: Option<Block>,
}

/// A program: its callables and the one that it starts with.
#[derive(Debug)]
pub struct Program {
    pub callables: IndexMap<Callable>,
    pub entry: CallableId,
}

} // verus!
