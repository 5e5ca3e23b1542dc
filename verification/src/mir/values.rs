//! Constants and places, made through the store of types.

use crate::index::{FieldIdx, VariantIdx};
use crate::mir::{snoc, spec_snoc, Const, ConstKind, Lvalue, Projection};
use crate::ty::kind::{Ty, TyCon};
use crate::ty::store::TyCtx;
use vstd::prelude::*;

verus! {

impl TyCtx {
    /// The constant of a kind, at the type of its kind.
    pub open spec fn spec_const(&self, kind: ConstKind) -> Const {
        Const {
            kind,
            ty: match kind {
                ConstKind::Float(_) => self.spec_types().float,
                ConstKind::Int(_) => self.spec_types().int,
                ConstKind::Discr(_) => self.spec_types().discr,
                ConstKind::Bool(_) => self.spec_types().bool,
                ConstKind::Unit => self.spec_types().unit,
            },
        }
    }

    /// The type of the place one step inside a place of a type: a field
    /// and a cast say which it is, a dereference gives what the pointer
    /// or the box holds.
    pub open spec fn spec_apply_projection(&self, ty: Ty, proj: Projection) -> Ty {
        match proj {
            Projection::Deref => self.nodes()[ty.0 as int].args[0],
            Projection::Field(_, t) => t,
            Projection::PointerCast(t) => t,
        }
    }

    pub fn mk_const(&self, kind: ConstKind) -> (c: Const)
        ensures
            c == self.spec_const(kind),
    {
        let types = self.types();
        let ty = match kind {
            ConstKind::Float(_) => types.float,
            ConstKind::Int(_) => types.int,
            ConstKind::Discr(_) => types.discr,
            ConstKind::Bool(_) => types.bool,
            ConstKind::Unit => types.unit,
        };
        Const { kind, ty }
    }

    pub fn mk_const_int(&self, i: i64) -> (c: Const)
        ensures
            c == self.spec_const(ConstKind::Int(i)),
    {
        self.mk_const(ConstKind::Int(i))
    }

    /// The constant of a double, given by its bits.
    pub fn mk_const_float(&self, bits: u64) -> (c: Const)
        ensures
            c == self.spec_const(ConstKind::Float(bits)),
    {
        self.mk_const(ConstKind::Float(bits))
    }

    pub fn mk_const_bool(&self, b: bool) -> (c: Const)
        ensures
            c == self.spec_const(ConstKind::Bool(b)),
    {
        self.mk_const(ConstKind::Bool(b))
    }

    pub fn mk_const_discr(&self, discr: VariantIdx) -> (c: Const)
        ensures
            c == self.spec_const(ConstKind::Discr(discr)),
    {
        self.mk_const(ConstKind::Discr(discr))
    }

    pub fn mk_const_unit(&self) -> (c: Const)
        ensures
            c == self.spec_const(ConstKind::Unit),
    {
        self.mk_const(ConstKind::Unit)
    }

    /// The type of the place one step inside a place of a type.
    pub fn apply_projection(&self, ty: Ty, proj: Projection) -> (t: Ty)
        requires
            self.wf(),
            proj is Deref ==> self.has(ty) && (self.term(ty).con == TyCon::Box || self.term(ty).con
                == TyCon::Ptr),
        ensures
            t == self.spec_apply_projection(ty, proj),
            proj is Deref ==> self.has(t) && self.term(ty).args == seq![self.term(t)],
    {
        match proj {
            Projection::Deref => {
                proof {
                    crate::ty::store::lemma_term_unfold(self.nodes(), ty);
                    self.lemma_args_valid(ty);
                }
                let t = self.args(ty)[0];
                proof {
                    assert(self.term(ty).args =~= seq![self.term(t)]);
                }
                t
            },
            Projection::Field(_, t) => t,
            Projection::PointerCast(t) => t,
        }
    }

    /// The place one step inside a place.
    pub fn project_lvalue(&self, lvalue: Lvalue, proj: Projection) -> (l: Lvalue)
        ensures
            l == (Lvalue { id: lvalue.id, projs: spec_snoc(lvalue.projs, proj) }),
    {
        Lvalue { id: lvalue.id, projs: snoc(&lvalue.projs, proj) }
    }

    /// The place of a field of the value at a place.
    pub fn project_field(&self, lvalue: Lvalue, field: FieldIdx, ty: Ty) -> (l: Lvalue)
        ensures
            l == (Lvalue { id: lvalue.id, projs: spec_snoc(lvalue.projs, Projection::Field(field, ty)) }),
    {
        self.project_lvalue(lvalue, Projection::Field(field, ty))
    }

    /// The place that the pointer at a place points to.
    pub fn project_deref(&self, lvalue: Lvalue) -> (l: Lvalue)
        ensures
            l == (Lvalue { id: lvalue.id, projs: spec_snoc(lvalue.projs, Projection::Deref) }),
    {
        self.project_lvalue(lvalue, Projection::Deref)
    }
}

} // verus!
