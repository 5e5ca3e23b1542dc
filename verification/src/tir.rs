//! The typed tree: every node carries its resolved type, and later stages
//! never look at a type table again.

use crate::ast::{BinOp, Ident, Lit, Mutability, UnaryOp, Visibility};
use crate::index::{DefId, FieldIdx, VariantIdx};
use crate::ir::Id;
use crate::span::Span;
use crate::ty::kind::{AdtId, Ty};
use vstd::prelude::*;

verus! {

pub struct Expr {
    pub span: Span,
    pub kind: ExprKind,
    pub ty: Ty,
}

pub enum ExprKind {
    Lit(Lit),
    Bin(BinOp, Box<Expr>, Box<Expr>),
    Unary(UnaryOp, Box<Expr>),
    Block(Box<Block>),
    /// A use of a local variable: the pattern that binds it, and the name
    /// that was written.
    VarRef(Id, Ident),
    /// A use of an item.
    ItemRef(DefId),
    Tuple(Vec<Expr>),
    Closure(Box<Body>),
    Call(Box<Expr>, Vec<Expr>),
    Match(Box<Expr>, Vec<Arm>),
    Assign(Box<Expr>, Box<Expr>),
    /// The field of the given index of a struct or tuple.
    Field(Box<Expr>, FieldIdx),
    /// A value of an algebraic data type. The fields stand in the order in
    /// which they were written.
    Adt(AdtId, VariantIdx, Vec<Field>),
    Ret(Option<Box<Expr>>),
    Box(Box<Expr>),
    Ref(Box<Expr>),
    Deref(Box<Expr>),
}

pub struct Field {
    pub index: FieldIdx,
    pub expr: Expr,
}

pub struct Arm {
    pub span: Span,
    pub pat: Pattern,
    pub body: Expr,
}

pub struct Pattern {
    pub id: Id,
    pub span: Span,
    pub kind: PatternKind,
    pub ty: Ty,
}

pub enum PatternKind {
    /// `_`
    Wildcard,
    /// `x`
    Binding(Mutability, Ident),
    /// A tuple or struct pattern: a pattern for some of the fields.
    Field(Vec<FieldPat>),
    /// A literal that the value has to equal.
    Lit(Box<Expr>),
    /// A variant of an enum, with a pattern for each of its fields.
    Variant(AdtId, VariantIdx, Vec<Pattern>),
}

pub struct FieldPat {
    pub field: FieldIdx,
    pub pat: Pattern,
}

pub struct Block {
    pub id: Id,
    pub span: Span,
    pub stmts: Vec<Stmt>,
    pub expr: Option<Expr>,
}

pub struct Stmt {
    pub id: Id,
    pub span: Span,
    pub kind: StmtKind,
}

pub enum StmtKind {
    Let(Let),
    Expr(Expr),
}

pub struct Let {
    pub id: Id,
    pub pat: Pattern,
    pub init: Option<Expr>,
}

pub struct Param {
    pub id: Id,
    pub span: Span,
    pub pat: Pattern,
}

pub struct Body {
    pub params: Vec<Param>,
    pub expr: Expr,
}

pub struct FnSig {
    pub inputs: Vec<Ty>,
    pub output: Ty,
}

pub enum ItemKind {
    Fn(FnSig, Body),
    Struct(AdtId),
    Enum(AdtId),
}

pub struct Item {
    pub span: Span,
    pub id: Id,
    pub ident: Ident,
    pub vis: Visibility,
    pub kind: ItemKind,
}

/// A typed program: its items, ordered by identity.
pub struct Prog {
    pub items: Vec<Item>,
}

} // verus!
