//! What a type is made of: a constructor and the types it is applied to.

use crate::index::{DefId, ParamIdx, TyVid};
use vstd::prelude::*;

verus! {

/// A handle of an interned type. Two handles of one store are equal exactly
/// when the types they stand for are.
#[derive(Debug, Clone, Copy, PartialEq, Eq, Hash, Structural)]
pub struct Ty(pub usize);

/// A handle of an algebraic data type's descriptor.
#[derive(Debug, Clone, Copy, PartialEq, Eq, Hash, Structural)]
pub struct AdtId(pub usize);

/// The universal quantifier of a scheme: it binds the generic parameters of
/// index `0` up to `binders`.
#[derive(Debug, Clone, Copy, PartialEq, Eq, Hash, Structural)]
pub struct Forall {
    pub binders: usize,
}

/// A reference to a generic parameter.
#[derive(Debug, Clone, Copy, PartialEq, Eq, Hash, Structural)]
pub struct ParamTy {
    pub def_id: DefId,
    pub idx: ParamIdx,
}

/// A type that inference has yet to find.
#[derive(Debug, Clone, Copy, PartialEq, Eq, Hash, Structural)]
pub enum InferTy {
    TyVar(TyVid),
}

impl InferTy {
    pub open spec fn spec_vid(self) -> TyVid {
        match self {
            InferTy::TyVar(v) => v,
        }
    }

    #[verifier::when_used_as_spec(spec_vid)]
    pub fn vid(self) -> (v: TyVid)
        ensures
            v == self.spec_vid(),
    {
        match self {
            InferTy::TyVar(v) => v,
        }
    }
}

/// A type constructor: what remains of a type when its argument types are
/// taken away.
#[derive(Debug, Clone, Copy, PartialEq, Eq, Hash, Structural)]
pub enum TyCon {
    Bool,
    Char,
    Float,
    Int,
    /// The type of a discriminant.
    Discr,
    /// The error sentinel.
    Error,
    Never,
    /// An array of the given length; one argument, the element type.
    Array(usize),
    /// A function pointer; the arguments are the parameter types, then the
    /// return type.
    Fn,
    /// The type of a function item; the arguments instantiate its generics.
    FnDef(DefId),
    Tuple,
    Infer(InferTy),
    Param(ParamTy),
    /// An instantiation of an algebraic data type.
    Adt(AdtId),
    /// A universally quantified type; one argument, the body.
    Scheme(Forall),
    /// A reference counted heap cell; one argument.
    Box,
    /// A raw pointer; one argument.
    Ptr,
}

impl TyCon {
    /// Whether the constructor takes `n` arguments.
    pub open spec fn arity_ok(self, n: nat) -> bool {
        match self {
            TyCon::Bool | TyCon::Char | TyCon::Float | TyCon::Int | TyCon::Discr | TyCon::Error
            | TyCon::Never | TyCon::Infer(_) | TyCon::Param(_) => n == 0,
            TyCon::Array(_) | TyCon::Scheme(_) | TyCon::Box | TyCon::Ptr => n == 1,
            TyCon::Fn => n >= 1,
            TyCon::FnDef(_) | TyCon::Tuple | TyCon::Adt(_) => true,
        }
    }
}

/// A structural descriptor of a type, over handles of its argument types.
#[derive(Debug)]
pub enum TyKind {
    Bool,
    Char,
    Float,
    Int,
    Discr,
    Error,
    Never,
    /// `[<ty>; n]`
    Array(Ty, usize),
    /// `fn(<ty>...) -> <ty>`
    Fn(Vec<Ty>, Ty),
    FnDef(DefId, Vec<Ty>),
    Tuple(Vec<Ty>),
    Infer(InferTy),
    Param(ParamTy),
    Adt(AdtId, Vec<Ty>),
    Scheme(Forall, Ty),
    Box(Ty),
    Ptr(Ty),
}

/// A constructor applied to handles: the content of one slot of the store.
pub struct Node {
    pub con: TyCon,
    pub args: Seq<Ty>,
}

impl TyKind {
    pub open spec fn con(&self) -> TyCon {
        match self {
            TyKind::Bool => TyCon::Bool,
            TyKind::Char => TyCon::Char,
            TyKind::Float => TyCon::Float,
            TyKind::Int => TyCon::Int,
            TyKind::Discr => TyCon::Discr,
            TyKind::Error => TyCon::Error,
            TyKind::Never => TyCon::Never,
            TyKind::Array(_, n) => TyCon::Array(*n),
            TyKind::Fn(_, _) => TyCon::Fn,
            TyKind::FnDef(d, _) => TyCon::FnDef(*d),
            TyKind::Tuple(_) => TyCon::Tuple,
            TyKind::Infer(i) => TyCon::Infer(*i),
            TyKind::Param(p) => TyCon::Param(*p),
            TyKind::Adt(a, _) => TyCon::Adt(*a),
            TyKind::Scheme(f, _) => TyCon::Scheme(*f),
            TyKind::Box(_) => TyCon::Box,
            TyKind::Ptr(_) => TyCon::Ptr,
        }
    }

    pub open spec fn args(&self) -> Seq<Ty> {
        match self {
            TyKind::Bool | TyKind::Char | TyKind::Float | TyKind::Int | TyKind::Discr
            | TyKind::Error | TyKind::Never | TyKind::Infer(_) | TyKind::Param(_) => Seq::empty(),
            TyKind::Array(t, _) => seq![*t],
            TyKind::Fn(ps, r) => ps@.push(*r),
            TyKind::FnDef(_, s) => s@,
            TyKind::Tuple(ts) => ts@,
            TyKind::Adt(_, s) => s@,
            TyKind::Scheme(_, t) => seq![*t],
            TyKind::Box(t) => seq![*t],
            TyKind::Ptr(t) => seq![*t],
        }
    }

    /// The descriptor as a constructor and its arguments.
    pub open spec fn node(&self) -> Node {
        Node { con: self.con(), args: self.args() }
    }

    pub proof fn lemma_arity(&self)
        ensures
            self.con().arity_ok(self.args().len()),
    {
    }

    /// Splits the descriptor into its constructor and its arguments.
    pub fn into_parts(self) -> (r: (TyCon, Vec<Ty>))
        ensures
            r.0 == self.con(),
            r.1@ == self.args(),
    {
        match self {
            TyKind::Bool => (TyCon::Bool, Vec::new()),
            TyKind::Char => (TyCon::Char, Vec::new()),
            TyKind::Float => (TyCon::Float, Vec::new()),
            TyKind::Int => (TyCon::Int, Vec::new()),
            TyKind::Discr => (TyCon::Discr, Vec::new()),
            TyKind::Error => (TyCon::Error, Vec::new()),
            TyKind::Never => (TyCon::Never, Vec::new()),
            TyKind::Array(t, n) => (TyCon::Array(n), vec![t]),
            TyKind::Fn(ps, r) => {
                let mut args = ps;
                args.push(r);
                (TyCon::Fn, args)
            },
            TyKind::FnDef(d, s) => (TyCon::FnDef(d), s),
            TyKind::Tuple(ts) => (TyCon::Tuple, ts),
            TyKind::Infer(i) => (TyCon::Infer(i), Vec::new()),
            TyKind::Param(p) => (TyCon::Param(p), Vec::new()),
            TyKind::Adt(a, s) => (TyCon::Adt(a), s),
            TyKind::Scheme(f, t) => (TyCon::Scheme(f), vec![t]),
            TyKind::Box(t) => (TyCon::Box, vec![t]),
            TyKind::Ptr(t) => (TyCon::Ptr, vec![t]),
        }
    }

    /// The descriptor of a constructor applied to arguments.
    pub fn from_parts(con: TyCon, args: Vec<Ty>) -> (k: TyKind)
        requires
            con.arity_ok(args@.len()),
        ensures
            k.con() == con,
            k.args() == args@,
    {
        match con {
            TyCon::Bool => TyKind::Bool,
            TyCon::Char => TyKind::Char,
            TyCon::Float => TyKind::Float,
            TyCon::Int => TyKind::Int,
            TyCon::Discr => TyKind::Discr,
            TyCon::Error => TyKind::Error,
            TyCon::Never => TyKind::Never,
            TyCon::Array(n) => TyKind::Array(args[0], n),
            TyCon::Fn => {
                let mut ps = args;
                let ghost all = ps@;
                let r = ps.pop().unwrap();
                assert(ps@.push(r) == all);
                TyKind::Fn(ps, r)
            },
            TyCon::FnDef(d) => TyKind::FnDef(d, args),
            TyCon::Tuple => TyKind::Tuple(args),
            TyCon::Infer(i) => TyKind::Infer(i),
            TyCon::Param(p) => TyKind::Param(p),
            TyCon::Adt(a) => TyKind::Adt(a, args),
            TyCon::Scheme(f) => TyKind::Scheme(f, args[0]),
            TyCon::Box => TyKind::Box(args[0]),
            TyCon::Ptr => TyKind::Ptr(args[0]),
        }
    }
}

} // verus!
