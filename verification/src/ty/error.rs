//! What checking can find wrong.

use crate::ast::Ident;
use crate::span::Span;
use crate::ty::kind::Ty;
use vstd::prelude::*;

verus! {

#[derive(Debug, Clone, Copy, PartialEq, Eq, Structural)]
pub enum TypeError {
    /// Two types that had to be equal are not: expected, found.
    Mismatch(Ty, Ty),
    /// A field is declared twice in one variant: the field, the type.
    FieldAlreadyDeclared(Ident, Ident),
    /// The type has no field of that name.
    UnknownField(Ty, Ident),
    /// The type has no fields to access.
    BadFieldAccess(Ty),
    /// A tuple index beyond the last element: index, length.
    TupleOutOfBounds(usize, usize),
    /// A wrong number of generic arguments: expected, found.
    GenericArgCount(usize, usize),
    /// A type that inference could not find.
    InferenceFailure,
    /// An operation that is only allowed in an unsafe block.
    RequireUnsafeCtx,
    /// A path that names no associated item of its type.
    InvalidAssociatedItem(Ident),
    /// The target of an assignment is no place.
    ExpectedLvalue,
    /// The path of a struct expression names no struct.
    ExpectedStructPath,
    /// A struct expression sets a field twice.
    FieldSetTwice(Ident),
    /// A struct expression sets a field that the struct does not have.
    UnknownStructField(Ident),
    /// A struct expression leaves a field out.
    IncompleteFields,
}

pub type TypeResult<T> = Result<T, TypeError>;

/// Two types that unification could not make equal, and the place that
/// asked for it.
#[derive(Debug, Clone, Copy, PartialEq, Eq, Structural)]
pub struct TypeMismatch {
    pub span: Span,
    pub expected: Ty,
    pub found: Ty,
}

/// What the diagnostics collaborator receives: where, and what. A second
/// place may go with the first: an earlier declaration, say.
#[derive(Debug, Clone, Copy, PartialEq, Eq, Structural)]
pub struct Diagnostic {
    pub span: Span,
    pub related: Option<Span>,
    pub error: TypeError,
}

impl Diagnostic {
    /// A diagnostic at one place.
    pub fn new(span: Span, error: TypeError) -> (d: Diagnostic)
        ensures
            d == (Diagnostic { span, related: None, error }),
    {
        Diagnostic { span, related: None, error }
    }

    pub open spec fn spec_spans(&self) -> Seq<Span> {
        match self.related {
            Some(r) => seq![self.span, r],
            None => seq![self.span],
        }
    }

    /// The places of the diagnostic, the main one first.
    pub fn spans(&self) -> (v: Vec<Span>)
        ensures
            v@ == self.spec_spans(),
    {
        let mut v: Vec<Span> = Vec::new();
        v.push(self.span);
        match self.related {
            Some(r) => {
                v.push(r);
            },
            None => {},
        }
        v
    }
}

} // verus!
