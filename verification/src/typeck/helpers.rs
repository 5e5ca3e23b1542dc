//! Small steps of the checker, and what ties the declared fields to their
//! models.

use crate::ast::{BinOp, Ident, Lit, Mutability, UnaryOp};
use crate::fxmap::{fx_get, fx_insert, fx_is_empty, fx_new, fx_remove, lookup};
use crate::index::Symbol;
use crate::ir;
use crate::ir::{DefKind, ExprKind, MatchSource, PatternKind, Res, StmtKind};
use crate::span::Span;
use crate::ty::adt::{
    copy_fields, find_position_named, first_named, first_with_ctor, lemma_first_named_range,
    AdtKind, CtorKind, FieldTy, VariantTy,
};
use crate::ty::error::{Diagnostic, TypeError};
use crate::ty::kind::{AdtId, Ty, TyCon};
use crate::ty::store::TyCtx;
use crate::ty::term::Term;
use crate::typeck::fcx::{step, AdjustmentKind, FnCtx, FnView};
use crate::typeck::spec;
use crate::typeck::tyconv::prepend_tys;
use crate::typeck::view::{
    adt_view, diags_view, field_view, variant_view, DiagView, ErrView, FieldView, Globals,
    VariantView,
};
use vstd::prelude::*;

verus! {


/// The fields of a variant as the checker reads them: a copy of the
/// declared fields, which stands for the fields of the model.
pub open spec fn fields_match(tcx: &TyCtx, decl: Seq<FieldTy>, fields: Seq<FieldView>) -> bool {
    &&& decl.len() == fields.len()
    &&& forall|k: int| 0 <= k < decl.len() ==> tcx.has((#[trigger] decl[k]).ty)
    &&& forall|k: int| 0 <= k < decl.len() ==> #[trigger] fields[k] == field_view(tcx, decl[k])
}

pub proof fn lemma_fields_match_extends(new: &TyCtx, old: &TyCtx, decl: Seq<FieldTy>, fields: Seq<FieldView>)
    requires
        new.extends(old),
        fields_match(old, decl, fields),
    ensures
        fields_match(new, decl, fields),
{
    assert forall|k: int| 0 <= k < decl.len() implies new.has((#[trigger] decl[k]).ty) by {
        new.lemma_extends(old, decl[k].ty);
    }
    assert forall|k: int| 0 <= k < decl.len() implies #[trigger] fields[k] == field_view(
        new,
        decl[k],
    ) by {
        new.lemma_extends(old, decl[k].ty);
    }
}

pub proof fn lemma_find_field(tcx: &TyCtx, decl: Seq<FieldTy>, fields: Seq<FieldView>, name: Symbol, from: int)
    requires
        fields_match(tcx, decl, fields),
        0 <= from,
    ensures
        spec::find_field(fields, name, from) == first_named(decl, name, from),
    decreases decl.len() - from,
{
    if from < decl.len() {
        assert(fields[from] == field_view(tcx, decl[from]));
        if decl[from].ident.symbol != name {
            lemma_find_field(tcx, decl, fields, name, from + 1);
        }
    }
}

pub proof fn lemma_last_field_range(fields: Seq<FieldView>, name: Symbol, below: int)
    ensures
        spec::last_field(fields, name, below) matches Some(i) ==> 0 <= i < below,
    decreases below,
{
    if below > 0 && fields[below - 1].ident.symbol != name {
        lemma_last_field_range(fields, name, below - 1);
    }
}

pub proof fn lemma_variant_with_ctor(tcx: &TyCtx, variants: Seq<VariantTy>, ctor: crate::index::DefId, from: int)
    requires
        0 <= from,
    ensures
        spec::variant_with_ctor(
            Seq::new(variants.len(), |i: int| variant_view(tcx, variants[i])),
            ctor,
            from,
        ) == first_with_ctor(variants, ctor, from),
    decreases variants.len() - from,
{
    if from < variants.len() {
        if variants[from].ctor != Some(ctor) {
            lemma_variant_with_ctor(tcx, variants, ctor, from + 1);
        }
    }
}

impl<'a> FnCtx<'a> {
    /// The declared fields of a variant.
    pub fn variant_fields(&self, a: AdtId, i: usize) -> (decl: Vec<FieldTy>)
        requires
            self.wf(),
            a.0 < self.globals().adts.len(),
            i < self.globals().adts[a.0 as int].variants.len(),
        ensures
            fields_match(&self.infcx.tcx, decl@, self.globals().adts[a.0 as int].variants[i as int].fields),
    {
        let adt = self.infcx.tcx.adt(a);
        let decl = copy_fields(&adt.variants.get(crate::index::VariantIdx(i)).fields);
        proof {
            let tcx = &self.infcx.tcx;
            let x = tcx.spec_adts()[a.0 as int];
            assert(self.globals().adts[a.0 as int] == adt_view(tcx, x));
            assert(adt_view(tcx, x).variants[i as int] == variant_view(tcx, x.variants@[i as int]));
            assert forall|k: int| 0 <= k < decl@.len() implies tcx.has((#[trigger] decl@[k]).ty) by {
                assert(tcx.spec_adts()[a.0 as int].variants@[i as int].fields@[k].ty.0
                    < tcx.nodes().len());
            }
        }
        decl
    }

    /// The variant that a struct path names, for the type of the path.
    pub fn struct_variant(&self, ty: Ty, res: Res) -> (r: Option<(AdtId, usize)>)
        requires
            self.wf(),
            self.has(ty),
        ensures
            match spec::struct_variant(self.globals(), self.term(ty), res) {
                Some((a, i)) => {
                    &&& r matches Some(x)
                    &&& x.0.0 == a
                    &&& x.1 == i
                    &&& 0 <= a < self.globals().adts.len()
                    &&& 0 <= i < self.globals().adts[a].variants.len()
                },
                None => r is None,
            },
    {
        match self.infcx.tcx.con(ty) {
            TyCon::Adt(a) => {
                if a.0 < self.infcx.tcx.adt_count() {
                    let adt = self.infcx.tcx.adt(a);
                    let variant_count = adt.variants.len();
                    proof {
                        let tcx = &self.infcx.tcx;
                        assert(self.globals().adts[a.0 as int] == adt_view(
                            tcx,
                            tcx.spec_adts()[a.0 as int],
                        ));
                        assert(self.globals().adts[a.0 as int].variants.len()
                            == adt.variants@.len());
                        assert(adt.variants@.len() == variant_count);
                    }
                    match res {
                        Res::Def(_, DefKind::Struct) => {
                            if adt.variants.len() == 1 {
                                proof {
                                    assert(spec::struct_variant(self.globals(), self.term(ty), res)
                                        == Some((a.0 as int, 0int)));
                                }
                                Some((a, 0))
                            } else {
                                None
                            }
                        },
                        Res::SelfVal(_) => {
                            if adt.variants.len() == 1 {
                                proof {
                                    assert(spec::struct_variant(self.globals(), self.term(ty), res)
                                        == Some((a.0 as int, 0int)));
                                }
                                Some((a, 0))
                            } else {
                                None
                            }
                        },
                        Res::Def(def_id, DefKind::Ctor(kind)) => {
                            match kind {
                                CtorKind::Struct => {
                                    proof {
                                        lemma_variant_with_ctor(
                                            &self.infcx.tcx,
                                            adt.variants@,
                                            def_id,
                                            0,
                                        );
                                        crate::ty::adt::lemma_first_with_ctor_range(
                                            adt.variants@,
                                            def_id,
                                            0,
                                        );
                                        assert(self.globals().adts[a.0 as int].variants =~= Seq::new(
                                            adt.variants@.len(),
                                            |i: int| variant_view(&self.infcx.tcx, adt.variants@[i]),
                                        ));
                                    }
                                    proof {
                                        assert(spec::struct_variant(
                                            self.globals(),
                                            self.term(ty),
                                            res,
                                        ) == match first_with_ctor(adt.variants@, def_id, 0) {
                                            Some(i) => Some((a.0 as int, i)),
                                            None => None,
                                        });
                                    }
                                    match adt.variant_with_ctor(def_id) {
                                        Some(i) => Some((a, i)),
                                        None => None,
                                    }
                                },
                                _ => None,
                            }
                        },
                        _ => None,
                    }
                } else {
                    None
                }
            },
            _ => None,
        }
    }

    /// So many fresh variables.
    pub fn fresh_vars(&mut self, span: Span, n: usize) -> (tys: Vec<Ty>)
        requires
            old(self).wf(),
        ensures
            step(old(self), final(self)),
            final(self).has_all(tys@),
            (final(self)@, final(self).terms(tys@)) == spec::fresh_n(old(self)@, span, n as nat),
    {
        broadcast use TyCtx::lemma_extends_auto;

        let ghost pre = *self;
        let mut tys: Vec<Ty> = Vec::new();
        let mut i: usize = 0;
        proof {
            assert(self.terms(tys@) =~= Seq::<Term>::empty());
        }
        while i < n
            invariant
                i <= n,
                tys@.len() == i,
                step(&pre, self),
                self.has_all(tys@),
                (self@, self.terms(tys@)) == spec::fresh_n(pre@, span, i as nat),
            decreases n - i,
        {
            let ghost mid = *self;
            let ghost acc = self.terms(tys@);
            let t = self.new_infer_var(span);
            proof {
                self.infcx.tcx.lemma_extends_all(&mid.infcx.tcx, tys@);
                assert(self.terms(tys@.push(t)) =~= acc.push(self.term(t)));
            }
            tys.push(t);
            i += 1;
        }
        tys
    }

    pub fn check_lit(&self, lit: &Lit) -> (t: Ty)
        requires
            self.wf(),
        ensures
            self.has(t),
            self.term(t) == spec::check_lit(*lit),
    {
        let types = self.infcx.tcx.types();
        match lit {
            Lit::Bool(_) => types.bool,
            Lit::Float(_) => types.float,
            Lit::Int(_) => types.int,
        }
    }

    /// Checks that the expression is a place, hence assignable.
    pub fn check_lvalue(&mut self, l: &ir::Expr)
        requires
            old(self).wf(),
        ensures
            step(old(self), final(self)),
            final(self)@ == (if l.kind matches ExprKind::Path(p) && p.res is Local {
                old(self)@
            } else {
                old(self)@.emit(l.span, ErrView::ExpectedLvalue)
            }),
    {
        if !l.is_lvalue() {
            let _ = self.emit_ty_err(l.span, TypeError::ExpectedLvalue);
        }
    }
}

} // verus!
