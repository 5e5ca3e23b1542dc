//! The mid-level representation: a control-flow graph of basic blocks over a
//! table of variables.

pub mod build;
pub mod cfg;
pub mod run;
pub mod values;

use crate::ast::{BinOp, UnaryOp};
use crate::index::{DefId, FieldIdx, VariantIdx};
use crate::indexed::{Blocks, Vars};
use crate::list::List;
use crate::span::Span;
use crate::ir::Id;
use crate::ty::kind::{AdtId, Ty};
use vstd::prelude::*;

verus! {

/// A variable of a body.
#[derive(Debug, Clone, Copy, PartialEq, Eq, Hash, Structural)]
pub struct VarId(pub usize);

/// A basic block of a body.
#[derive(Debug, Clone, Copy, PartialEq, Eq, Hash, Structural)]
pub struct BlockId(pub usize);

/// The number of the block at which every body starts.
pub const ENTRY_BLOCK: usize = 0;

/// The number of the variable that holds the result of every body.
pub const RETURN: usize = 0;

/// Where a statement came from.
#[derive(Debug, Clone, Copy, PartialEq, Eq, Hash, Structural)]
pub struct SpanInfo {
    pub span: Span,
}

#[derive(Debug, Clone, Copy, PartialEq, Eq, Hash, Structural)]
pub enum VarKind {
    /// A parameter.
    Arg,
    /// A temporary that the builder made.
    Tmp,
    /// The return slot.
    Ret,
    /// A named local.
    Local,
}

#[derive(Debug, Clone, Copy, PartialEq, Eq, Structural)]
pub struct Var {
    pub info: SpanInfo,
    pub kind: VarKind,
    pub ty: Ty,
}

#[derive(Debug, Clone, Copy, PartialEq, Eq, Structural)]
pub enum ConstKind {
    /// The bits of a double.
    Float(u64),
    Int(i64),
    Bool(bool),
    /// The discriminant of a variant.
    Discr(VariantIdx),
    Unit,
}

/// A typed constant.
#[derive(Debug, Clone, Copy, PartialEq, Eq, Structural)]
pub struct Const {
    pub kind: ConstKind,
    pub ty: Ty,
}

/// One step from a place to a place inside it.
#[derive(Debug, Clone, Copy, PartialEq, Eq, Structural)]
pub enum Projection {
    /// The field of the given index, of the given type.
    Field(FieldIdx, Ty),
    Deref,
    PointerCast(Ty),
}

/// A storage location: a variable, and the path from it to the place.
pub struct Lvalue {
    pub id: VarId,
    pub projs: List<Projection>,
}

pub enum Operand {
    Const(Const),
    Lvalue(Lvalue),
    /// An item, at the type it is used at.
    Item(DefId, Ty),
}

/// A value-producing expression form.
pub enum Rvalue {
    Use(Operand),
    Bin(BinOp, Operand, Operand),
    Unary(UnaryOp, Operand),
    Tuple(List<Operand>),
    /// A value of a variant; the operands are in the order of the fields'
    /// declaration.
    Adt(AdtId, VariantIdx, Ty, List<Operand>),
    /// The discriminant of the value at a place.
    Discriminant(Lvalue),
    Box(Operand),
    Ref(Lvalue),
}

pub enum StmtKind {
    Assign(Lvalue, Rvalue),
    /// Increments the reference count of the value of a variable.
    Retain(VarId),
    /// Decrements the reference count of the value of a variable.
    Release(VarId),
}

pub struct Stmt {
    pub info: SpanInfo,
    pub kind: StmtKind,
}

pub enum TerminatorKind {
    Branch(BlockId),
    /// Goes to the first block when the operand is true, else to the second.
    Cond(Operand, BlockId, BlockId),
    Return,
    Unreachable,
    /// Calls the function with the arguments, writes the result to the
    /// place, and goes on at the block.
    Call(Operand, List<Operand>, Lvalue, BlockId),
}

pub struct Terminator {
    pub info: SpanInfo,
    pub kind: TerminatorKind,
}

pub struct BasicBlock {
    pub stmts: Vec<Stmt>,
    pub terminator: Option<Terminator>,
}

/// The model of a basic block.
pub struct BlockView {
    pub stmts: Seq<Stmt>,
    pub terminator: Option<Terminator>,
}

/// A release that waits for the end of its scope.
#[derive(Debug, Clone, Copy, PartialEq, Eq, Structural)]
pub struct ReleaseInfo {
    pub info: SpanInfo,
    pub var: VarId,
}

/// The result of building: the blocks, the variables, and how many of the
/// variables are parameters.
pub struct Body {
    pub basic_blocks: Blocks,
    pub vars: Vars,
    pub argc: usize,
}

/// What can go wrong inside the builder. None of it is the user's fault: a
/// tree that passed checking gives none of them.
#[derive(Debug, Clone, Copy, PartialEq, Eq, Structural)]
pub enum MirError {
    /// A variable is used that no pattern has bound.
    UnboundVariable(Id),
    /// A value of a variant leaves a field out.
    MissingField(FieldIdx),
    /// A value of a type or variant that the store does not know.
    UnknownVariant(AdtId, VariantIdx),
    /// A closure: closures are lowered to items before the graph is built.
    Closure,
}

impl View for BasicBlock {
    type V = BlockView;

    open spec fn view(&self) -> BlockView {
        BlockView { stmts: self.stmts@, terminator: self.terminator }
    }
}

impl BlockView {
    pub open spec fn empty() -> BlockView {
        BlockView { stmts: Seq::empty(), terminator: None }
    }

    pub open spec fn push(self, stmt: Stmt) -> BlockView {
        BlockView { stmts: self.stmts.push(stmt), terminator: self.terminator }
    }

    pub open spec fn terminate(self, t: Terminator) -> BlockView {
        BlockView { stmts: self.stmts, terminator: Some(t) }
    }
}

/// The models of a run of blocks.
pub open spec fn blocks_view(blocks: Seq<BasicBlock>) -> Seq<BlockView> {
    Seq::new(blocks.len(), |i: int| blocks[i]@)
}

impl Lvalue {
    /// The place that is a whole variable.
    pub fn new(id: VarId) -> (l: Lvalue)
        ensures
            l == (Lvalue { id, projs: List::Nil }),
    {
        Lvalue { id, projs: List::Nil }
    }

    /// The return slot.
    pub fn ret() -> (l: Lvalue)
        ensures
            l == (Lvalue { id: VarId(RETURN), projs: List::Nil }),
    {
        Lvalue { id: VarId(RETURN), projs: List::Nil }
    }

    pub fn clone(&self) -> (l: Lvalue)
        ensures
            l == *self,
    {
        Lvalue { id: self.id, projs: clone_projs(&self.projs) }
    }

    /// Whether the place is a whole variable.
    pub fn is_whole(&self) -> (b: bool)
        ensures
            b == (self.projs == List::<Projection>::Nil),
    {
        self.projs.is_empty()
    }
}

pub fn clone_projs(l: &List<Projection>) -> (r: List<Projection>)
    ensures
        r == *l,
    decreases l,
{
    match l {
        List::Nil => List::Nil,
        List::Cons(p, rest) => List::Cons(*p, Box::new(clone_projs(rest))),
    }
}

/// The path with one more step at its end.
pub open spec fn spec_snoc(l: List<Projection>, p: Projection) -> List<Projection>
    decreases l,
{
    match l {
        List::Nil => List::Cons(p, Box::new(List::Nil)),
        List::Cons(q, rest) => List::Cons(q, Box::new(spec_snoc(*rest, p))),
    }
}

pub fn snoc(l: &List<Projection>, p: Projection) -> (r: List<Projection>)
    ensures
        r == spec_snoc(*l, p),
    decreases l,
{
    match l {
        List::Nil => List::Cons(p, Box::new(List::Nil)),
        List::Cons(q, rest) => List::Cons(*q, Box::new(snoc(rest, p))),
    }
}

impl Operand {
    pub fn clone(&self) -> (o: Operand)
        ensures
            o == *self,
    {
        match self {
            Operand::Const(c) => Operand::Const(*c),
            Operand::Lvalue(l) => Operand::Lvalue(l.clone()),
            Operand::Item(d, t) => Operand::Item(*d, *t),
        }
    }
}

pub fn clone_operands(l: &List<Operand>) -> (r: List<Operand>)
    ensures
        r == *l,
    decreases l,
{
    match l {
        List::Nil => List::Nil,
        List::Cons(o, rest) => List::Cons(o.clone(), Box::new(clone_operands(rest))),
    }
}

impl Rvalue {
    pub fn clone(&self) -> (r: Rvalue)
        ensures
            r == *self,
    {
        match self {
            Rvalue::Use(o) => Rvalue::Use(o.clone()),
            Rvalue::Bin(op, a, b) => Rvalue::Bin(*op, a.clone(), b.clone()),
            Rvalue::Unary(op, a) => Rvalue::Unary(*op, a.clone()),
            Rvalue::Tuple(os) => Rvalue::Tuple(clone_operands(os)),
            Rvalue::Adt(a, v, t, os) => Rvalue::Adt(*a, *v, *t, clone_operands(os)),
            Rvalue::Discriminant(l) => Rvalue::Discriminant(l.clone()),
            Rvalue::Box(o) => Rvalue::Box(o.clone()),
            Rvalue::Ref(l) => Rvalue::Ref(l.clone()),
        }
    }
}

} // verus!
