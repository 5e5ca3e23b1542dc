//! Conversion of written types to types of the store.

use crate::ir;
use crate::ir::{DefKind, PrimTy, Res};
use crate::index::DefId;
use crate::ty::error::TypeError;
use crate::ty::kind::{ParamTy, Ty, TyCon};
use crate::ty::store::{copy_tys, TyCtx};
use crate::ty::term::Term;
use crate::typeck::fcx::{step, FnCtx, FnView};
use crate::typeck::spec::{body_of, conv_path, conv_ty, conv_tys};
use crate::typeck::view::{ErrView, Globals};
use vstd::prelude::*;

verus! {

/// A pair with more elements in front of its list.
pub open spec fn prepend_tys(acc: Seq<Term>, r: (FnView, Seq<Term>)) -> (FnView, Seq<Term>) {
    (r.0, acc + r.1)
}

impl<'a> FnCtx<'a> {
    /// The type made of one constructor applied to one type.
    pub fn mk_unary(&mut self, con: TyCon, ty: Ty) -> (t: Ty)
        requires
            old(self).wf(),
            old(self).has(ty),
            con.arity_ok(1),
        ensures
            step(old(self), final(self)),
            final(self)@ == old(self)@,
            final(self).has(t),
            final(self).term(t) == (Term { con, args: seq![old(self).term(ty)] }),
    {
        let mut args: Vec<Ty> = Vec::new();
        args.push(ty);
        proof {
            assert(self.terms(args@) =~= seq![self.term(ty)]);
        }
        self.mk_node(con, args)
    }

    pub fn mk_tup(&mut self, tys: Vec<Ty>) -> (t: Ty)
        requires
            old(self).wf(),
            old(self).has_all(tys@),
        ensures
            step(old(self), final(self)),
            final(self)@ == old(self)@,
            final(self).has(t),
            final(self).term(t) == (Term { con: TyCon::Tuple, args: old(self).terms(tys@) }),
    {
        self.mk_node(TyCon::Tuple, tys)
    }

    pub fn mk_prim_ty(&self, prim_ty: PrimTy) -> (t: Ty)
        requires
            self.wf(),
        ensures
            self.has(t),
            self.term(t) == crate::typeck::spec::prim(prim_ty),
    {
        self.infcx.tcx.mk_prim_ty(prim_ty)
    }

    /// The body of a scheme; a type that is no scheme is its own body.
    pub fn scheme_body(&self, t: Ty) -> (b: Ty)
        requires
            self.wf(),
            self.has(t),
        ensures
            self.has(b),
            self.term(b) == body_of(self.term(t)),
    {
        proof {
            self.infcx.tcx.lemma_args_valid(t);
        }
        match self.infcx.tcx.con(t) {
            TyCon::Scheme(_) => {
                let args = self.infcx.tcx.args(t);
                proof {
                    assert(self.term(t).args[0] == self.term(args@[0]));
                }
                args[0]
            },
            _ => t,
        }
    }

    /// The arguments of a type.
    pub fn args_of(&self, t: Ty) -> (a: Vec<Ty>)
        requires
            self.wf(),
            self.has(t),
        ensures
            self.has_all(a@),
            self.terms(a@) == self.term(t).args,
    {
        proof {
            self.infcx.tcx.lemma_args_valid(t);
        }
        copy_tys(self.infcx.tcx.args(t))
    }

    /// The types that a list of written types stands for.
    #[verifier::loop_isolation(false)]
    pub fn lower_tys(&mut self, allow_infer: bool, ir_tys: &Vec<ir::Ty>) -> (tys: Vec<Ty>)
        requires
            old(self).wf(),
        ensures
            step(old(self), final(self)),
            final(self).has_all(tys@),
            (final(self)@, final(self).terms(tys@)) == conv_tys(
                old(self).globals(),
                old(self)@,
                allow_infer,
                ir_tys@,
                0,
            ),
        decreases ir_tys@, ir_tys@.len(),
    {
        broadcast use TyCtx::lemma_extends_auto;

        let ghost pre = *self;
        let ghost g = pre.globals();
        let ghost total = conv_tys(g, pre@, allow_infer, ir_tys@, 0);
        let mut tys: Vec<Ty> = Vec::new();
        let mut i: usize = 0;
        proof {
            assert(self.terms(tys@) =~= Seq::<Term>::empty());
            assert(Seq::<Term>::empty() + conv_tys(g, pre@, allow_infer, ir_tys@, 0).1 =~= total.1);
        }
        while i < ir_tys.len()
            invariant
                i <= ir_tys.len(),
                tys@.len() == i,
                step(&pre, self),
                self.has_all(tys@),
                total == prepend_tys(
                    self.terms(tys@),
                    conv_tys(g, self@, allow_infer, ir_tys@, i as nat),
                ),
            decreases ir_tys.len() - i,
        {
            let ghost mid = *self;
            let ghost acc = self.terms(tys@);
            let t = self.ir_ty_to_ty(allow_infer, &ir_tys[i]);
            proof {
                self.infcx.tcx.lemma_extends_all(&mid.infcx.tcx, tys@);
                let rest = conv_tys(g, self@, allow_infer, ir_tys@, (i + 1) as nat);
                assert(acc + (seq![self.term(t)] + rest.1) =~= acc.push(self.term(t)) + rest.1);
                assert(self.terms(tys@.push(t)) =~= acc.push(self.term(t)));
            }
            tys.push(t);
            i += 1;
        }
        proof {
            assert(self.terms(tys@) + Seq::<Term>::empty() =~= self.terms(tys@));
        }
        tys
    }

    /// The type that a written type stands for.
    pub fn ir_ty_to_ty(&mut self, allow_infer: bool, ir_ty: &ir::Ty) -> (t: Ty)
        requires
            old(self).wf(),
        ensures
            step(old(self), final(self)),
            final(self).has(t),
            (final(self)@, final(self).term(t)) == conv_ty(
                old(self).globals(),
                old(self)@,
                allow_infer,
                ir_ty,
            ),
        decreases ir_ty, 0nat,
    {
        broadcast use TyCtx::lemma_extends_auto;

        let ghost pre = *self;
        match &ir_ty.kind {
            ir::TyKind::Error => self.set_ty_err(),
            ir::TyKind::Box(x) => {
                let a = self.ir_ty_to_ty(allow_infer, &**x);
                self.mk_unary(TyCon::Box, a)
            },
            ir::TyKind::Fn(params, ret) => {
                let ps = self.lower_tys(allow_infer, params);
                let ghost mid = *self;
                let r = match ret {
                    Some(r) => self.ir_ty_to_ty(allow_infer, &**r),
                    None => self.infcx.tcx.types().unit,
                };
                proof {
                    self.infcx.tcx.lemma_extends_all(&mid.infcx.tcx, ps@);
                }
                self.mk_fn_ptr(ps, r)
            },
            ir::TyKind::Path(p) => self.path_to_ty(allow_infer, p),
            ir::TyKind::Tuple(ts) => {
                let ps = self.lower_tys(allow_infer, ts);
                self.mk_tup(ps)
            },
            ir::TyKind::Ptr(x) => {
                let a = self.ir_ty_to_ty(allow_infer, &**x);
                self.mk_unary(TyCon::Ptr, a)
            },
            ir::TyKind::Infer => {
                if allow_infer {
                    self.new_infer_var(ir_ty.span)
                } else {
                    self.emit_ty_err(ir_ty.span, TypeError::InferenceFailure)
                }
            },
        }
    }

    /// The type that a path stands for.
    pub fn path_to_ty(&mut self, allow_infer: bool, path: &ir::Path) -> (t: Ty)
        requires
            old(self).wf(),
        ensures
            step(old(self), final(self)),
            final(self).has(t),
            (final(self)@, final(self).term(t)) == conv_path(
                old(self).globals(),
                old(self)@,
                allow_infer,
                path,
            ),
        decreases path, 1nat,
    {
        broadcast use TyCtx::lemma_extends_auto;

        let ghost pre = *self;
        match path.res {
            Res::PrimTy(prim_ty) => self.mk_prim_ty(prim_ty),
            Res::Def(def_id, def_kind) => match def_kind {
                DefKind::TyParam(idx) => {
                    proof {
                        assert(self.terms(Seq::<Ty>::empty()) =~= Seq::<Term>::empty());
                    }
                    self.mk_node(TyCon::Param(ParamTy { def_id, idx }), Vec::new())
                },
                DefKind::Struct | DefKind::Enum => self.adt_path_to_ty(allow_infer, path, def_id),
                _ => self.set_ty_err(),
            },
            Res::SelfTy(impl_def) => {
                match self.infcx.tcx.collected_ty_opt(impl_def) {
                    Some(t) => t,
                    None => self.set_ty_err(),
                }
            },
            _ => self.set_ty_err(),
        }
    }

    /// The type that the path of a struct or an enum stands for: the
    /// declared type at the generic arguments of the last segment, or at
    /// the type's own parameters.
    pub fn adt_path_to_ty(&mut self, allow_infer: bool, path: &ir::Path, def_id: DefId) -> (t: Ty)
        requires
            old(self).wf(),
            path.res matches Res::Def(d, k) && d == def_id && (k is Struct || k is Enum),
        ensures
            step(old(self), final(self)),
            final(self).has(t),
            (final(self)@, final(self).term(t)) == conv_path(
                old(self).globals(),
                old(self)@,
                allow_infer,
                path,
            ),
        decreases path, 0nat,
    {
        broadcast use TyCtx::lemma_extends_auto;

        let ghost pre = *self;
        let declared = self.infcx.tcx.collected_ty_opt(def_id);
        let generics = self.infcx.tcx.generics_of(def_id);
        match (declared, generics) {
            (Some(adt_ty), Some(params)) => {
                let body = self.scheme_body(adt_ty);
                let own = self.args_of(params);
                let n = path.segments.len();
                // there should only be generic arguments in the very last
                // position
                if n > 0 && path.segments[n - 1].args.is_some() {
                    match &path.segments[n - 1].args {
                        Some(args) => {
                            if args.args.len() != own.len() {
                                self.emit_ty_err(
                                    path.span,
                                    TypeError::GenericArgCount(own.len(), args.args.len()),
                                )
                            } else {
                                let substs = self.lower_tys(allow_infer, &args.args);
                                self.subst(body, &substs)
                            }
                        },
                        None => self.set_ty_err(),
                    }
                } else {
                    self.subst(body, &own)
                }
            },
            _ => self.set_ty_err(),
        }
    }
}

impl TyCtx {
    /// The type of a primitive type's name.
    pub fn mk_prim_ty(&self, prim_ty: PrimTy) -> (t: Ty)
        requires
            self.wf(),
        ensures
            self.has(t),
            self.term(t) == crate::typeck::spec::prim(prim_ty),
    {
        let types = self.types();
        match prim_ty {
            PrimTy::Char => types.char,
            PrimTy::Bool => types.bool,
            PrimTy::Float => types.float,
            PrimTy::Int => types.int,
        }
    }
}

} // verus!
