//! The flattened intermediate representation that the analysis reads.
//!
//! A package is a set of arenas. Items, blocks, statements, expressions and
//! patterns refer to each other by their key in the arena of their kind.

use crate::index_map::IndexMap;
use vstd::prelude::*;

verus! {

/// The key of a package in a package store.
#[derive(Clone, Copy, Debug, PartialEq, Eq, Structural, Hash)]
pub struct PackageId(pub usize);

/// The key of an item in its package.
#[derive(Clone, Copy, Debug, PartialEq, Eq, Structural, Hash)]
pub struct LocalItemId(pub usize);

/// The key of a block in its package.
#[derive(Clone, Copy, Debug, PartialEq, Eq, Structural, Hash)]
pub struct BlockId(pub usize);

/// The key of a statement in its package.
#[derive(Clone, Copy, Debug, PartialEq, Eq, Structural, Hash)]
pub struct StmtId(pub usize);

/// The key of an expression in its package.
#[derive(Clone, Copy, Debug, PartialEq, Eq, Structural, Hash)]
pub struct ExprId(pub usize);

/// The key of a pattern in its package.
#[derive(Clone, Copy, Debug, PartialEq, Eq, Structural, Hash)]
pub struct PatId(pub usize);

/// The identity of a local binding.
#[derive(Clone, Copy, Debug, PartialEq, Eq, Structural, Hash)]
pub struct NodeId(pub usize);

/// An item of some package. Without a package it is an item of the package
/// that mentions it.
#[derive(Clone, Copy, Debug, PartialEq, Eq, Structural, Hash)]
pub struct ItemId {
    pub package: Option<PackageId>,
    pub item: LocalItemId,
}

/// A primitive type.
#[derive(Clone, Copy, Debug, PartialEq, Eq, Structural, Hash)]
pub enum Prim {
    BigInt,
    Bool,
    Double,
    Int,
    Pauli,
    Qubit,
    Range,
    RangeTo,
    RangeFrom,
    RangeFull,
    Result,
    String,
}

/// Whether a callable is a function or an operation.
#[derive(Clone, Copy, Debug, PartialEq, Eq, Structural, Hash)]
pub enum CallableKind {
    Function,
    Operation,
}

/// The type of a callable used as a value.
#[derive(Debug)]
pub struct Arrow {
    pub kind: CallableKind,
    pub input: Ty,
    pub output: Ty,
}

/// A type.
#[derive(Debug)]
pub enum Ty {
    /// An array of items of one type.
    Array(Box<Ty>),
    /// A callable.
    Arrow(Box<Arrow>),
    /// A placeholder that type inference left behind.
    Infer(usize),
    /// A type parameter of a generic callable.
    Param(usize),
    /// A primitive type.
    Prim(Prim),
    /// A tuple; the empty tuple is the unit type.
    Tuple(Vec<Ty>),
    /// A user-defined type.
    Udt(ItemId),
    /// An invalid type.
    Invalid,
}

impl Ty {
    /// Whether the type is the unit type.
    pub open spec fn spec_is_unit(&self) -> bool {
        match self {
            Ty::Tuple(items) => items@.len() == 0,
            _ => false,
        }
    }

    /// The unit type.
    pub fn unit() -> (ty: Ty)
        ensures
            ty.spec_is_unit(),
    {
        Ty::Tuple(Vec::new())
    }

    /// Whether the type is the unit type.
    pub fn is_unit(&self) -> (unit: bool)
        ensures
            unit == self.spec_is_unit(),
    {
        match self {
            Ty::Tuple(items) => items.len() == 0,
            _ => false,
        }
    }
}

/// A functor that turns an operation into a related one.
#[derive(Clone, Copy, Debug, PartialEq, Eq, Structural, Hash)]
pub enum Functor {
    Adj,
    Ctl,
}

/// A unary operator.
#[derive(Clone, Copy, Debug, PartialEq, Eq, Structural, Hash)]
pub enum UnOp {
    Functor(Functor),
    Neg,
    NotB,
    NotL,
    Pos,
    Unwrap,
}

/// What a name in an expression refers to.
#[derive(Clone, Copy, Debug, PartialEq, Eq, Structural, Hash)]
pub enum Res {
    /// The name could not be resolved.
    Unresolved,
    /// An item.
    Item(ItemId),
    /// A local binding.
    Local(NodeId),
}

/// A part of an interpolated string.
#[derive(Clone, Copy, Debug, PartialEq, Eq, Structural, Hash)]
pub enum StringComponent {
    Expr(ExprId),
    Lit,
}

/// The shape of an expression, with the keys of its parts.
#[derive(Clone, Debug, PartialEq, Eq)]
pub enum ExprKind {
    Array(Vec<ExprId>),
    ArrayRepeat(ExprId, ExprId),
    Assign(ExprId, ExprId),
    AssignOp(ExprId, ExprId),
    AssignField(ExprId, ExprId),
    AssignIndex(ExprId, ExprId, ExprId),
    BinOp(ExprId, ExprId),
    Block(BlockId),
    /// A call: the callee, then the arguments.
    Call(ExprId, ExprId),
    /// A closure: the item that holds its body.
    Closure(LocalItemId),
    Fail(ExprId),
    Field(ExprId),
    Hole,
    If(ExprId, ExprId, Option<ExprId>),
    Index(ExprId, ExprId),
    Lit,
    Range(Option<ExprId>, Option<ExprId>, Option<ExprId>),
    Return(ExprId),
    String(Vec<StringComponent>),
    UpdateIndex(ExprId, ExprId, ExprId),
    Tuple(Vec<ExprId>),
    UnOp(UnOp, ExprId),
    UpdateField(ExprId, ExprId),
    Var(Res),
    While(ExprId, BlockId),
}

/// An expression.
#[derive(Debug)]
pub struct Expr {
    pub ty: Ty,
    pub kind: ExprKind,
}

/// The shape of a pattern.
#[derive(Clone, Debug, PartialEq, Eq)]
pub enum PatKind {
    /// Binds a value to a local.
    Bind(NodeId),
    /// Drops a value.
    Discard,
    /// Takes a tuple apart.
    Tuple(Vec<PatId>),
}

/// A pattern.
#[derive(Debug)]
pub struct Pat {
    pub ty: Ty,
    pub kind: PatKind,
}

/// The shape of a statement.
#[derive(Clone, Copy, Debug, PartialEq, Eq, Structural, Hash)]
pub enum StmtKind {
    /// An expression whose value is the value of the block it ends.
    Expr(ExprId),
    /// An item declared inside a block.
    Item(LocalItemId),
    /// A binding of a pattern to an expression.
    Local(PatId, ExprId),
    /// An expression whose value is dropped.
    Semi(ExprId),
}

/// A statement.
#[derive(Clone, Copy, Debug, PartialEq, Eq, Structural, Hash)]
pub struct Stmt {
    pub kind: StmtKind,
}

/// A block of statements.
#[derive(Debug)]
pub struct Block {
    pub ty: Ty,
    pub stmts: Vec<StmtId>,
}

/// The body of one specialization.
#[derive(Clone, Copy, Debug, PartialEq, Eq, Structural, Hash)]
pub struct SpecDecl {
    pub block: BlockId,
    pub input: Option<PatId>,
}

/// The specializations of a callable that has a body.
#[derive(Clone, Copy, Debug, PartialEq, Eq, Structural, Hash)]
pub struct Specializations {
    pub body: SpecDecl,
    pub adj: Option<SpecDecl>,
    pub ctl: Option<SpecDecl>,
    pub ctl_adj: Option<SpecDecl>,
}

/// How a callable is implemented.
#[derive(Clone, Copy, Debug, PartialEq, Eq, Structural, Hash)]
pub enum CallableImpl {
    /// The target implements it; there is no body to read.
    Intrinsic,
    /// Its specializations have bodies.
    Spec(Specializations),
}

/// The declaration of a callable.
#[derive(Debug)]
pub struct CallableDecl {
    pub kind: CallableKind,
    pub input: PatId,
    pub output: Ty,
    pub implementation: CallableImpl,
}

/// The shape of an item.
#[derive(Debug)]
pub enum ItemKind {
    Callable(CallableDecl),
    Namespace,
    Ty,
}

/// An item.
#[derive(Debug)]
pub struct Item {
    pub kind: ItemKind,
}

/// A package.
#[derive(Debug)]
pub struct Package {
    pub items: IndexMap<Item>,
    pub entry: Option<ExprId>,
    pub blocks: IndexMap<Block>,
    pub exprs: IndexMap<Expr>,
    pub pats: IndexMap<Pat>,
    pub stmts: IndexMap<Stmt>,
}

impl Package {
    /// A package without items, without an entry expression, and with no
    /// room taken for keys in any of its maps.
    pub fn new() -> (package: Package)
        ensures
            package.items@ == Map::<usize, Item>::empty(),
            package.blocks@ == Map::<usize, Block>::empty(),
            package.exprs@ == Map::<usize, Expr>::empty(),
            package.pats@ == Map::<usize, Pat>::empty(),
            package.stmts@ == Map::<usize, Stmt>::empty(),
            package.entry is None,
            package.items.spec_bound() == 0,
            package.blocks.spec_bound() == 0,
            package.exprs.spec_bound() == 0,
            package.pats.spec_bound() == 0,
            package.stmts.spec_bound() == 0,
    {
        Package {
            items: IndexMap::new(),
            entry: None,
            blocks: IndexMap::new(),
            exprs: IndexMap::new(),
            pats: IndexMap::new(),
            stmts: IndexMap::new(),
        }
    }
}

/// All packages of a compilation.
#[derive(Debug)]
pub struct PackageStore(pub IndexMap<Package>);

impl PackageStore {
    /// A store without packages.
    pub fn new() -> (store: PackageStore)
        ensures
            store.0@ == Map::<usize, Package>::empty(),
    {
        PackageStore(IndexMap::new())
    }

    /// The pattern `pat` of package `package`, if the store has both.
    pub open spec fn spec_pattern(&self, package: PackageId, pat: PatId) -> Option<Pat> {
        if self.0@.contains_key(package.0) && self.0@[package.0].pats@.contains_key(pat.0) {
            Some(self.0@[package.0].pats@[pat.0])
        } else {
            None
        }
    }

    /// The pattern `pat` of package `package`, if the store has both.
    pub fn get_pattern(&self, package: PackageId, pat: PatId) -> (found: Option<&Pat>)
        ensures
            found == match self.spec_pattern(package, pat) {
                Some(p) => Some(&p),
                None => None,
            },
    {
        match self.0.get(package.0) {
            Some(p) => p.pats.get(pat.0),
            None => None,
        }
    }
}

} // verus!
