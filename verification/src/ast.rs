//! What the typed stages keep of the surface syntax: identifiers, operators,
//! literals.

use crate::index::Symbol;
use crate::span::Span;
use vstd::prelude::*;

verus! {

/// An identifier: an interned name and where it was written.
#[derive(Debug, Clone, Copy, PartialEq, Eq, Hash, Structural)]
pub struct Ident {
    pub span: Span,
    pub symbol: Symbol,
}

#[derive(Debug, Clone, Copy, PartialEq, Eq, Hash, Structural)]
pub enum Mutability {
    Mut,
    Imm,
}

impl Mutability {
    /// The keyword as a binding is printed with it: `mut ` or nothing.
    pub fn prefix(&self) -> (s: &'static str)
        ensures
            s@ == (if self is Mut {
                "mut "@
            } else {
                ""@
            }),
    {
        match self {
            Mutability::Mut => "mut ",
            Mutability::Imm => "",
        }
    }
}

#[derive(Debug, Clone, Copy, PartialEq, Eq, Hash, Structural)]
pub enum Visibility {
    Public,
    Private,
}

#[derive(Debug, Clone, Copy, PartialEq, Eq, Hash, Structural)]
pub enum BinOp {
    Mul,
    Div,
    Add,
    Sub,
    Lt,
    Gt,
    Eq,
    Neq,
    And,
    Or,
}

#[derive(Debug, Clone, Copy, PartialEq, Eq, Hash, Structural)]
pub enum UnaryOp {
    Neg,
    Not,
    Deref,
    Ref,
}

/// A literal. A float is kept as the bits of its double.
#[derive(Debug, Clone, Copy, PartialEq, Eq, Hash, Structural)]
pub enum Lit {
    Float(u64),
    Int(i64),
    Bool(bool),
}

} // verus!
