//! The checker of patterns.

use crate::ast::{BinOp, Ident, Lit, Mutability, UnaryOp};
use crate::fxmap::{fx_get, fx_insert, fx_is_empty, fx_new, fx_remove, lookup};
use crate::index::Symbol;
use crate::ir;
use crate::ir::{DefKind, ExprKind, MatchSource, PatternKind, Res, StmtKind};
use crate::span::Span;
use crate::ty::adt::{
    copy_fields, find_position_named, first_named, first_with_ctor, lemma_first_named_range,
    AdtKind, CtorKind, FieldTy, VariantTy,
};
use crate::ty::error::{Diagnostic, TypeError};
use crate::ty::kind::{AdtId, Ty, TyCon};
use crate::ty::store::TyCtx;
use crate::ty::term::Term;
use crate::typeck::fcx::{step, AdjustmentKind, FnCtx, FnView};
use crate::typeck::spec;
use crate::typeck::tyconv::prepend_tys;
use crate::typeck::helpers::{
    fields_match, lemma_fields_match_extends, lemma_find_field, lemma_last_field_range,
    lemma_variant_with_ctor,
};
use crate::typeck::view::{
    adt_view, diags_view, field_view, variant_view, DiagView, ErrView, FieldView, Globals,
    VariantView,
};
use vstd::prelude::*;

verus! {

impl<'a> FnCtx<'a> {
    /// Checks a pattern against its expected type. The type is recorded for
    /// each identifier as well as for the whole pattern.
    pub fn check_pat(&mut self, pat: &ir::Pattern, ty: Ty) -> (t: Ty)
        requires
            old(self).wf(),
            old(self).has(ty),
        ensures
            step(old(self), final(self)),
            final(self).has(t),
            (final(self)@, final(self).term(t)) == spec::check_pat(
                old(self).globals(),
                old(self).interner,
                old(self)@,
                pat,
                old(self).term(ty),
            ),
        decreases pat, 2nat,
    {
        broadcast use TyCtx::lemma_extends_auto;

        let pat_ty = self.check_pat_kind(pat, ty);
        self.record_ty(pat.id, pat_ty)
    }

    pub fn check_pat_kind(&mut self, pat: &ir::Pattern, ty: Ty) -> (t: Ty)
        requires
            old(self).wf(),
            old(self).has(ty),
        ensures
            step(old(self), final(self)),
            final(self).has(t),
            (final(self)@, final(self).term(t)) == spec::check_pat_kind(
                old(self).globals(),
                old(self).interner,
                old(self)@,
                pat,
                old(self).term(ty),
            ),
        decreases pat, 1nat,
    {
        broadcast use TyCtx::lemma_extends_auto;

        match &pat.kind {
            PatternKind::Wildcard => ty,
            PatternKind::Binding(_, m) => self.def_local(pat.id, *m, ty),
            PatternKind::Tuple(pats) => self.check_pat_tuple(pat, pats, ty),
            PatternKind::Lit(e) => {
                let lit_ty = self.check_expr(&**e);
                self.equate(pat.span, ty, lit_ty);
                ty
            },
            PatternKind::Variant(path, pats) => self.check_pat_variant(pat, path, pats, ty),
            PatternKind::Struct(path, fps) => self.check_pat_struct(pat, path, fps, ty),
        }
    }

    /// The type that the constructor of a variant pattern has to have: the
    /// matched type itself for a constructor without fields, else a function
    /// from the types of the sub-patterns to the matched type.
    pub fn variant_pat_expected(&mut self, n: usize, vars: &Vec<Ty>, ctor: Ty, ty: Ty) -> (expected: Ty)
        requires
            old(self).wf(),
            old(self).has(ctor),
            old(self).has(ty),
            old(self).has_all(vars@),
        ensures
            step(old(self), final(self)),
            final(self)@ == old(self)@,
            final(self).has(expected),
            final(self).has_all(vars@),
            final(self).terms(vars@) == old(self).terms(vars@),
            final(self).term(expected) == (if n == 0 && old(self).term(ctor).apply(
                old(self)@.bindings,
            ).con != TyCon::Fn {
                old(self).term(ty)
            } else {
                spec::fn_ptr(old(self).terms(vars@), old(self).term(ty))
            }),
    {
        let ghost pre = *self;
        let resolved = self.partially_resolve_ty(ctor);
        let ghost s1 = *self;
        let is_fn = match self.infcx.tcx.con(resolved) {
            TyCon::Fn => true,
            _ => false,
        };
        proof {
            self.infcx.tcx.lemma_extends_all(&pre.infcx.tcx, vars@);
            self.infcx.tcx.lemma_extends(&pre.infcx.tcx, ty);
        }
        if n == 0 && !is_fn {
            ty
        } else {
            let copy = crate::ty::store::copy_tys(vars);
            let t = self.mk_fn_ptr(copy, ty);
            proof {
                self.infcx.tcx.lemma_extends_all(&s1.infcx.tcx, vars@);
                self.infcx.tcx.lemma_extends_trans(&s1.infcx.tcx, &pre.infcx.tcx);
            }
            t
        }
    }

    pub fn check_pat_variant(&mut self, pat: &ir::Pattern, path: &ir::Path, pats: &Vec<ir::Pattern>, ty: Ty) -> (t:
        Ty)
        requires
            old(self).wf(),
            old(self).has(ty),
            pat.kind matches PatternKind::Variant(p, ps) && p == *path && ps == *pats,
        ensures
            step(old(self), final(self)),
            final(self).has(t),
            (final(self)@, final(self).term(t)) == spec::check_pat_kind(
                old(self).globals(),
                old(self).interner,
                old(self)@,
                pat,
                old(self).term(ty),
            ),
        decreases pat, 0nat,
    {
        let ghost pre = *self;
        let ctor = self.check_expr_path(path);
        let ghost s1 = *self;
        let vars = self.fresh_vars(pat.span, pats.len());
        let ghost s2 = *self;
        proof {
            s2.infcx.tcx.lemma_extends(&s1.infcx.tcx, ctor);
            s2.infcx.tcx.lemma_extends_trans(&s1.infcx.tcx, &pre.infcx.tcx);
            s2.infcx.tcx.lemma_extends(&pre.infcx.tcx, ty);
        }
        let expected = self.variant_pat_expected(pats.len(), &vars, ctor, ty);
        let ghost s4 = *self;
        proof {
            s4.infcx.tcx.lemma_extends(&s2.infcx.tcx, ctor);
            s4.infcx.tcx.lemma_extends(&s2.infcx.tcx, ty);
            s4.infcx.tcx.lemma_extends_trans(&s2.infcx.tcx, &pre.infcx.tcx);
        }
        self.equate(pat.span, expected, ctor);
        let ghost s5 = *self;
        proof {
            s5.infcx.tcx.lemma_extends_all(&s4.infcx.tcx, vars@);
            s5.infcx.tcx.lemma_extends(&s4.infcx.tcx, ty);
            s5.infcx.tcx.lemma_extends_trans(&s4.infcx.tcx, &pre.infcx.tcx);
        }
        self.check_pats(pats, &vars);
        proof {
            self.infcx.tcx.lemma_extends(&s5.infcx.tcx, ty);
            self.infcx.tcx.lemma_extends_trans(&s5.infcx.tcx, &pre.infcx.tcx);
        }
        ty
    }

    pub fn check_pat_struct(&mut self, pat: &ir::Pattern, path: &ir::Path, fps: &Vec<ir::FieldPat>, ty: Ty) -> (t:
        Ty)
        requires
            old(self).wf(),
            old(self).has(ty),
            pat.kind matches PatternKind::Struct(p, f) && p == *path && f == *fps,
        ensures
            step(old(self), final(self)),
            final(self).has(t),
            (final(self)@, final(self).term(t)) == spec::check_pat_kind(
                old(self).globals(),
                old(self).interner,
                old(self)@,
                pat,
                old(self).term(ty),
            ),
        decreases pat, 0nat,
    {
        broadcast use TyCtx::lemma_extends_auto;

        let ghost pre = *self;
        match self.check_struct_path(path) {
            None => self.set_ty_err(),
            Some((a, i, sty)) => {
                self.equate(pat.span, ty, sty);
                let decl = self.variant_fields(a, i);
                self.check_field_pats(
                    &decl,
                    sty,
                    fps,
                    Ghost(pre.globals().adts[a.0 as int].variants[i as int]),
                );
                ty
            },
        }
    }

    pub fn check_pat_tuple(&mut self, pat: &ir::Pattern, pats: &Vec<ir::Pattern>, ty: Ty) -> (t: Ty)
        requires
            old(self).wf(),
            old(self).has(ty),
            pat.kind matches PatternKind::Tuple(ps) && ps == *pats,
        ensures
            step(old(self), final(self)),
            final(self).has(t),
            (final(self)@, final(self).term(t)) == spec::check_pat_kind(
                old(self).globals(),
                old(self).interner,
                old(self)@,
                pat,
                old(self).term(ty),
            ),
        decreases pats@, pats@.len() + 1,
    {
        broadcast use TyCtx::lemma_extends_auto;

        // create inference variables for each element
        let tys = self.fresh_vars(pat.span, pats.len());
        let ghost mid = *self;
        self.check_pats(pats, &tys);
        proof {
            self.infcx.tcx.lemma_extends_all(&mid.infcx.tcx, tys@);
        }
        let pat_ty = self.mk_tup(tys);
        self.equate(pat.span, ty, pat_ty);
        pat_ty
    }

    /// Checks each pattern against the type at its position.
    pub fn check_pats(&mut self, pats: &Vec<ir::Pattern>, tys: &Vec<Ty>)
        requires
            old(self).wf(),
            old(self).has_all(tys@),
        ensures
            step(old(self), final(self)),
            final(self)@ == spec::check_pats(
                old(self).globals(),
                old(self).interner,
                old(self)@,
                pats@,
                old(self).terms(tys@),
                0,
            ),
        decreases pats@, pats@.len(),
    {
        broadcast use TyCtx::lemma_extends_auto;

        let ghost pre = *self;
        let ghost g = pre.globals();
        let ghost ts = pre.terms(tys@);
        let mut i: usize = 0;
        while i < pats.len() && i < tys.len()
            invariant
                i <= pats.len(),
                i <= tys.len(),
                step(&pre, self),
                g == pre.globals(),
                self.has_all(tys@),
                self.terms(tys@) == ts,
                spec::check_pats(g, pre.interner, pre@, pats@, ts, 0) == spec::check_pats(
                    g,
                    pre.interner,
                    self@,
                    pats@,
                    ts,
                    i as nat,
                ),
            decreases pats.len() - i,
        {
            let ghost mid = *self;
            proof {
                assert(self.terms(tys@)[i as int] == self.term(tys@[i as int]));
            }
            let _ = self.check_pat(&pats[i], tys[i]);
            proof {
                self.infcx.tcx.lemma_extends_all(&mid.infcx.tcx, tys@);
                self.infcx.tcx.lemma_extends_trans(&mid.infcx.tcx, &pre.infcx.tcx);
            }
            i += 1;
        }
    }

    /// Checks one field pattern of a struct pattern.
    pub fn check_field_pat(
        &mut self,
        decl: &Vec<FieldTy>,
        sty: Ty,
        substs: &Vec<Ty>,
        fp: &ir::FieldPat,
        Ghost(variant): Ghost<VariantView>,
    )
        requires
            old(self).wf(),
            old(self).has(sty),
            old(self).has_all(substs@),
            old(self).terms(substs@) == old(self).term(sty).args,
            fields_match(&old(self).infcx.tcx, decl@, variant.fields),
        ensures
            step(old(self), final(self)),
            final(self)@ == (match spec::find_field(variant.fields, fp.ident.symbol, 0) {
                Some(idx) => spec::check_pat(
                    old(self).globals(),
                    old(self).interner,
                    old(self)@.record_field_index(fp.id, idx as usize),
                    &fp.pat,
                    variant.fields[idx].ty.subst(old(self).term(sty).args),
                ).0,
                None => spec::check_pat(
                    old(self).globals(),
                    old(self).interner,
                    old(self)@.emit(fp.span, ErrView::UnknownField(old(self).term(sty), fp.ident)),
                    &fp.pat,
                    spec::ty_err(),
                ).0,
            }),
        decreases fp, 0nat,
    {
        broadcast use {TyCtx::lemma_extends_auto, TyCtx::lemma_extends_all_auto};

        let ghost pre = *self;
        let field_count = decl.len();
        proof {
            lemma_find_field(&self.infcx.tcx, decl@, variant.fields, fp.ident.symbol, 0);
            lemma_first_named_range(decl@, fp.ident.symbol, 0);
            assert(decl@.len() == field_count);
        }
        match find_position_named(decl, fp.ident.symbol) {
            Some(idx) => {
                self.record_field_index(fp.id, idx);
                proof {
                    assert(variant.fields[idx as int] == field_view(
                        &pre.infcx.tcx,
                        decl@[idx as int],
                    ));
                }
                let fty = self.subst(decl[idx].ty, substs);
                let _ = self.check_pat(&fp.pat, fty);
            },
            None => {
                let err = self.emit_ty_err(fp.span, TypeError::UnknownField(sty, fp.ident));
                let _ = self.check_pat(&fp.pat, err);
            },
        }
    }

    /// Checks the field patterns of a struct pattern.
    pub fn check_field_pats(
        &mut self,
        decl: &Vec<FieldTy>,
        sty: Ty,
        fps: &Vec<ir::FieldPat>,
        Ghost(variant): Ghost<VariantView>,
    )
        requires
            old(self).wf(),
            old(self).has(sty),
            fields_match(&old(self).infcx.tcx, decl@, variant.fields),
        ensures
            step(old(self), final(self)),
            final(self)@ == spec::check_field_pats(
                old(self).globals(),
                old(self).interner,
                old(self)@,
                variant,
                old(self).term(sty),
                fps@,
                0,
            ),
        decreases fps@, fps@.len(),
    {
        let ghost pre = *self;
        let ghost g = pre.globals();
        let ghost st = pre.term(sty);
        let substs = self.args_of(sty);
        let mut i: usize = 0;
        while i < fps.len()
            invariant
                i <= fps.len(),
                step(&pre, self),
                g == pre.globals(),
                st == pre.term(sty),
                self.has(sty),
                self.term(sty) == st,
                self.has_all(substs@),
                self.terms(substs@) == st.args,
                fields_match(&self.infcx.tcx, decl@, variant.fields),
                spec::check_field_pats(g, pre.interner, pre@, variant, st, fps@, 0)
                    == spec::check_field_pats(g, pre.interner, self@, variant, st, fps@, i as nat),
            decreases fps.len() - i,
        {
            let ghost mid = *self;
            self.check_field_pat(decl, sty, &substs, &fps[i], Ghost(variant));
            proof {
                self.infcx.tcx.lemma_extends_trans(&mid.infcx.tcx, &pre.infcx.tcx);
                self.infcx.tcx.lemma_extends(&mid.infcx.tcx, sty);
                self.infcx.tcx.lemma_extends_all(&mid.infcx.tcx, substs@);
                lemma_fields_match_extends(&self.infcx.tcx, &mid.infcx.tcx, decl@, variant.fields);
            }
            i += 1;
        }
    }
}

} // verus!
