//! The name-resolved tree: what the resolver hands to the checker. Every
//! path carries its resolution; the checker looks no name up.

use crate::ast::{BinOp, Ident, Lit, Mutability, UnaryOp, Visibility};
use crate::index::{DefId, LocalId, ParamIdx, VariantIdx};
use crate::span::Span;
use crate::ty::adt::CtorKind;
use vstd::prelude::*;

verus! {

/// The identity of a node: the item that owns it, and its number in the
/// item.
#[derive(Debug, Clone, Copy, PartialEq, Eq, Hash, Structural)]
pub struct Id {
    pub def: DefId,
    pub local: LocalId,
}

#[derive(Debug, Clone, Copy, PartialEq, Eq, Hash, Structural)]
pub enum PrimTy {
    Char,
    Bool,
    Float,
    Int,
}

#[derive(Debug, Clone, Copy, PartialEq, Eq, Hash, Structural)]
pub enum DefKind {
    Fn,
    AssocFn,
    Enum,
    Struct,
    /// The constructor of a variant.
    Ctor(CtorKind),
    TyParam(ParamIdx),
    Extern,
    Impl,
}

/// What a path was resolved to.
#[derive(Debug, Clone, Copy, PartialEq, Eq, Hash, Structural)]
pub enum Res {
    /// A path that the resolver could not resolve.
    Error,
    PrimTy(PrimTy),
    Def(DefId, DefKind),
    /// A local variable: the pattern that binds it.
    Local(Id),
    SelfTy(DefId),
    SelfVal(DefId),
}

pub struct GenericArgs {
    pub span: Span,
    pub args: Vec<Ty>,
}

pub struct PathSegment {
    pub ident: Ident,
    pub id: Id,
    pub args: Option<GenericArgs>,
}

pub struct Path {
    pub span: Span,
    pub res: Res,
    pub segments: Vec<PathSegment>,
}

/// A type as it was written.
pub struct Ty {
    pub span: Span,
    pub id: Id,
    pub kind: TyKind,
}

pub enum TyKind {
    /// A type that was written wrongly.
    Error,
    Box(Box<Ty>),
    /// `fn(<ty>...) -> <ty>`; no return type stands for unit.
    Fn(Vec<Ty>, Option<Box<Ty>>),
    Path(Path),
    Tuple(Vec<Ty>),
    Ptr(Box<Ty>),
    /// `_`, a type to infer.
    Infer,
}

pub struct Expr {
    pub span: Span,
    pub id: Id,
    pub kind: ExprKind,
}

pub enum ExprKind {
    Lit(Lit),
    Bin(BinOp, Box<Expr>, Box<Expr>),
    Unary(UnaryOp, Box<Expr>),
    Block(Box<Block>),
    Path(Path),
    Tuple(Vec<Expr>),
    Closure(FnSig, Box<Body>),
    Assign(Box<Expr>, Box<Expr>),
    Call(Box<Expr>, Vec<Expr>),
    Match(Box<Expr>, Vec<Arm>, MatchSource),
    Struct(Path, Vec<Field>),
    Ret(Option<Box<Expr>>),
    Field(Box<Expr>, Ident),
    Box(Box<Expr>),
    /// An expression that was written wrongly.
    Error,
}

impl Expr {
    /// Whether the expression is a place by its syntax: a local variable.
    pub fn is_lvalue(&self) -> (b: bool)
        ensures
            b == (self.kind matches ExprKind::Path(p) && p.res is Local),
    {
        match &self.kind {
            ExprKind::Path(p) => match p.res {
                Res::Local(_) => true,
                _ => false,
            },
            _ => false,
        }
    }
}

pub struct Field {
    pub id: Id,
    pub span: Span,
    pub ident: Ident,
    pub expr: Expr,
}

pub struct Block {
    pub id: Id,
    pub span: Span,
    pub stmts: Vec<Stmt>,
    pub expr: Option<Expr>,
    pub is_unsafe: bool,
}

pub struct Stmt {
    pub id: Id,
    pub span: Span,
    pub kind: StmtKind,
}

pub enum StmtKind {
    Let(Let),
    /// An expression whose value is the value of its block.
    Expr(Expr),
    /// An expression followed by a semicolon.
    Semi(Expr),
}

pub struct Let {
    pub id: Id,
    pub span: Span,
    pub pat: Pattern,
    pub ty: Option<Ty>,
    pub init: Option<Expr>,
}

pub struct Pattern {
    pub id: Id,
    pub span: Span,
    pub kind: PatternKind,
}

pub enum PatternKind {
    Wildcard,
    Binding(Ident, Mutability),
    Tuple(Vec<Pattern>),
    Lit(Box<Expr>),
    /// A variant with a pattern for each of its fields: `Some(x)`, `None`.
    Variant(Path, Vec<Pattern>),
    /// A struct with patterns for some of its fields: `S { x, y }`.
    Struct(Path, Vec<FieldPat>),
}

pub struct FieldPat {
    pub id: Id,
    pub span: Span,
    pub ident: Ident,
    pub pat: Pattern,
}

pub enum MatchSource {
    Match,
    If,
}

pub struct Arm {
    pub id: Id,
    pub span: Span,
    pub pat: Pattern,
    pub body: Expr,
}

pub struct Param {
    pub span: Span,
    pub id: Id,
    pub pat: Pattern,
}

pub struct Body {
    pub params: Vec<Param>,
    pub expr: Expr,
}

impl Body {
    /// The identity of a body is that of its expression.
    pub fn id(&self) -> (id: Id)
        ensures
            id == self.expr.id,
    {
        self.expr.id
    }
}

pub struct FnSig {
    /// The rest of the parameter information is in the body.
    pub inputs: Vec<Ty>,
    pub output: Option<Ty>,
}

pub struct TyParam {
    pub span: Span,
    pub id: Id,
    pub ident: Ident,
    pub index: ParamIdx,
}

pub struct Generics {
    pub span: Span,
    pub params: Vec<TyParam>,
}

pub struct FieldDecl {
    pub span: Span,
    pub ident: Ident,
    pub vis: Visibility,
    pub id: Id,
    pub ty: Ty,
}

pub enum VariantKind {
    Struct(Vec<FieldDecl>),
    Tuple(Vec<FieldDecl>),
    Unit,
}

impl VariantKind {
    pub open spec fn spec_fields(&self) -> Seq<FieldDecl> {
        match self {
            VariantKind::Struct(fields) => fields@,
            VariantKind::Tuple(fields) => fields@,
            VariantKind::Unit => Seq::empty(),
        }
    }

    /// The declared fields; a unit variant has none.
    pub fn fields(&self) -> (fs: &[FieldDecl])
        ensures
            fs@ == self.spec_fields(),
    {
        match self {
            VariantKind::Struct(fields) => fields.as_slice(),
            VariantKind::Tuple(fields) => fields.as_slice(),
            VariantKind::Unit => &[],
        }
    }

    pub open spec fn spec_ctor_kind(&self) -> CtorKind {
        match self {
            VariantKind::Struct(_) => CtorKind::Struct,
            VariantKind::Tuple(_) => CtorKind::Tuple,
            VariantKind::Unit => CtorKind::Unit,
        }
    }

    #[verifier::when_used_as_spec(spec_ctor_kind)]
    pub fn ctor_kind(&self) -> (k: CtorKind)
        ensures
            k == self.spec_ctor_kind(),
    {
        match self {
            VariantKind::Struct(_) => CtorKind::Struct,
            VariantKind::Tuple(_) => CtorKind::Tuple,
            VariantKind::Unit => CtorKind::Unit,
        }
    }
}

pub struct Variant {
    pub id: Id,
    pub ident: Ident,
    pub span: Span,
    pub kind: VariantKind,
    pub idx: VariantIdx,
    pub adt_def: DefId,
}

pub enum ItemKind {
    Fn(FnSig, Generics, Body),
    Enum(Generics, Vec<Variant>),
    Struct(Generics, VariantKind),
}

pub struct Item {
    pub span: Span,
    pub id: Id,
    pub vis: Visibility,
    pub ident: Ident,
    pub kind: ItemKind,
}

/// A place of the tree.
pub enum Lvalue {
    Local(Id),
}

/// A resolved program: its items.
pub struct Ir {
    pub items: Vec<Item>,
}

} // verus!
