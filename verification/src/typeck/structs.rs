//! The checker of struct expressions.

use crate::ast::{BinOp, Ident, Lit, Mutability, UnaryOp};
use crate::fxmap::{fx_get, fx_insert, fx_is_empty, fx_new, fx_remove, lookup};
use crate::index::Symbol;
use crate::ir;
use crate::ir::{DefKind, ExprKind, MatchSource, PatternKind, Res, StmtKind};
use crate::span::Span;
use crate::ty::adt::{
    copy_fields, find_position_named, first_named, first_with_ctor, lemma_first_named_range,
    AdtKind, CtorKind, FieldTy, VariantTy,
};
use crate::ty::error::{Diagnostic, TypeError};
use crate::ty::kind::{AdtId, Ty, TyCon};
use crate::ty::store::TyCtx;
use crate::ty::term::Term;
use crate::typeck::fcx::{step, AdjustmentKind, FnCtx, FnView};
use crate::typeck::spec;
use crate::typeck::tyconv::prepend_tys;
use crate::typeck::helpers::{
    fields_match, lemma_fields_match_extends, lemma_find_field, lemma_last_field_range,
    lemma_variant_with_ctor,
};
use crate::typeck::view::{
    adt_view, diags_view, field_view, variant_view, DiagView, ErrView, FieldView, Globals,
    VariantView,
};
use vstd::prelude::*;

verus! {

impl<'a> FnCtx<'a> {
    pub fn check_struct_expr(&mut self, expr: &ir::Expr, path: &ir::Path, fields: &Vec<ir::Field>) -> (t:
        Ty)
        requires
            old(self).wf(),
            expr.kind matches ExprKind::Struct(p, f) && p == *path && f == *fields,
        ensures
            step(old(self), final(self)),
            final(self).has(t),
            (final(self)@, final(self).term(t)) == spec::check_expr_kind(
                old(self).globals(),
                old(self).interner,
                old(self)@,
                expr,
            ),
        decreases expr, 0nat,
    {
        broadcast use TyCtx::lemma_extends_auto;

        let ghost pre = *self;
        match self.check_struct_path(path) {
            None => self.set_ty_err(),
            Some((a, i, ty)) => {
                let substs = self.args_of(ty);
                let decl = self.variant_fields(a, i);
                self.check_struct_expr_fields(
                    expr.span,
                    &substs,
                    &decl,
                    fields,
                    Ghost(pre.globals().adts[a.0 as int].variants[i as int]),
                );
                ty
            },
        }
    }

    /// Checks the path of a struct expression or pattern.
    pub fn check_struct_path(&mut self, path: &ir::Path) -> (r: Option<(AdtId, usize, Ty)>)
        requires
            old(self).wf(),
        ensures
            step(old(self), final(self)),
            match spec::check_struct_path(old(self).globals(), old(self)@, path) {
                (v, Some((a, i, t))) => {
                    &&& r matches Some(x)
                    &&& x.0.0 == a
                    &&& x.1 == i
                    &&& final(self).has(x.2)
                    &&& final(self).term(x.2) == t
                    &&& final(self)@ == v
                    &&& 0 <= a < old(self).globals().adts.len()
                    &&& 0 <= i < old(self).globals().adts[a].variants.len()
                },
                (v, None) => r is None && final(self)@ == v,
            },
    {
        let ty = self.check_expr_path(path);
        match self.struct_variant(ty, path.res) {
            Some((a, i)) => Some((a, i, ty)),
            None => {
                let ghost mid = *self;
                let _ = self.emit_ty_err(path.span, TypeError::ExpectedStructPath);
                proof {
                    self.infcx.tcx.lemma_extends_trans(&mid.infcx.tcx, &old(self).infcx.tcx);
                }
                None
            },
        }
    }

    /// The fields that a struct expression has to set, by name.
    pub fn fields_to_set(decl: &Vec<FieldTy>, Ghost(tcx): Ghost<&TyCtx>, Ghost(variant): Ghost<VariantView>) -> (r:
        rustc_hash::FxHashMap<usize, usize>)
        requires
            fields_match(tcx, decl@, variant.fields),
        ensures
            r@ == spec::fields_to_set(variant, variant.fields.len() as int),
            forall|s: usize| r@.contains_key(s) ==> #[trigger] r@[s] < decl@.len(),
    {
        let mut remaining_fields = fx_new();
        let mut j: usize = 0;
        proof {
            assert(remaining_fields@ =~= spec::fields_to_set(variant, 0));
        }
        while j < decl.len()
            invariant
                j <= decl.len(),
                fields_match(tcx, decl@, variant.fields),
                remaining_fields@ == spec::fields_to_set(variant, j as int),
            decreases decl.len() - j,
        {
            let ghost before = remaining_fields@;
            let _ = fx_insert(&mut remaining_fields, decl[j].ident.symbol.0, j);
            proof {
                assert(variant.fields[j as int] == field_view(tcx, decl@[j as int]));
                assert(Symbol(decl@[j as int].ident.symbol.0) == decl@[j as int].ident.symbol);
                assert forall|s: usize| #[trigger]
                    remaining_fields@.contains_key(s) == spec::fields_to_set(
                        variant,
                        j + 1,
                    ).contains_key(s) by {
                    if s != decl@[j as int].ident.symbol.0 {
                        assert(before.contains_key(s) == remaining_fields@.contains_key(s));
                    }
                }
                assert forall|s: usize| remaining_fields@.contains_key(s) implies #[trigger] remaining_fields@[s]
                    == spec::fields_to_set(variant, j + 1)[s] by {
                    if s != decl@[j as int].ident.symbol.0 {
                        assert(before[s] == remaining_fields@[s]);
                    }
                }
                assert(remaining_fields@ =~= spec::fields_to_set(variant, j + 1));
            }
            j += 1;
        }
        proof {
            assert forall|s: usize| remaining_fields@.contains_key(s) implies #[trigger] remaining_fields@[s]
                < decl@.len() by {
                lemma_last_field_range(variant.fields, Symbol(s), variant.fields.len() as int);
            }
        }
        remaining_fields
    }

    /// One field of a struct expression: an unknown field and a field that
    /// is set twice are complained about.
    #[verifier::rlimit(60)]
    pub fn check_struct_expr_field(
        &mut self,
        substs: &Vec<Ty>,
        decl: &Vec<FieldTy>,
        fields: &Vec<ir::Field>,
        i: usize,
        remaining_fields: &mut rustc_hash::FxHashMap<usize, usize>,
        seen_fields: &mut rustc_hash::FxHashMap<usize, usize>,
        Ghost(variant): Ghost<VariantView>,
        Ghost(ss): Ghost<Seq<Term>>,
    )
        requires
            old(self).wf(),
            old(self).has_all(substs@),
            old(self).terms(substs@) == ss,
            fields_match(&old(self).infcx.tcx, decl@, variant.fields),
            i < fields@.len(),
            forall|s: usize|
                old(remaining_fields)@.contains_key(s) ==> #[trigger] old(remaining_fields)@[s]
                    < decl@.len(),
            forall|s: usize|
                old(seen_fields)@.contains_key(s) ==> #[trigger] old(seen_fields)@[s] < i,
        ensures
            step(old(self), final(self)),
            final(self).has_all(substs@),
            final(self).terms(substs@) == ss,
            fields_match(&final(self).infcx.tcx, decl@, variant.fields),
            forall|s: usize|
                final(remaining_fields)@.contains_key(s) ==> #[trigger] final(remaining_fields)@[s]
                    < decl@.len(),
            forall|s: usize|
                final(seen_fields)@.contains_key(s) ==> #[trigger] final(seen_fields)@[s] < i + 1,
            spec::check_struct_fields(
                old(self).globals(),
                old(self).interner,
                old(self)@,
                ss,
                variant,
                fields@,
                old(remaining_fields)@,
                old(seen_fields)@,
                i as nat,
            ) == spec::check_struct_fields(
                old(self).globals(),
                old(self).interner,
                final(self)@,
                ss,
                variant,
                fields@,
                final(remaining_fields)@,
                final(seen_fields)@,
                (i + 1) as nat,
            ),
        decreases fields@, 0nat,
    {
        let ghost pre = *self;
        let ghost g = pre.globals();
        let ghost rem0 = remaining_fields@;
        let ghost seen0 = seen_fields@;
        let field = &fields[i];
        let name = field.ident.symbol.0;
        let ghost checked = spec::check_expr(g, pre.interner, pre@, &fields@[i as int].expr);
        proof {
            let v1 = checked.0;
            let t = checked.1;
            assert(spec::check_struct_fields(
                g,
                pre.interner,
                pre@,
                ss,
                variant,
                fields@,
                rem0,
                seen0,
                i as nat,
            ) == if rem0.contains_key(name) {
                let idx = rem0[name];
                let declared = if idx < variant.fields.len() {
                    variant.fields[idx as int].ty.subst(ss)
                } else {
                    spec::ty_err()
                };
                spec::check_struct_fields(
                    g,
                    pre.interner,
                    v1.record_field_index(fields@[i as int].id, idx).equate(
                        fields@[i as int].span,
                        declared,
                        t,
                    ),
                    ss,
                    variant,
                    fields@,
                    rem0.remove(name),
                    seen0.insert(name, i),
                    (i + 1) as nat,
                )
            } else {
                let v2 = if seen0.contains_key(name) && seen0[name] < fields@.len() {
                    FnView {
                        errors: v1.errors.push(
                            DiagView {
                                span: fields@[i as int].span,
                                related: Some(fields@[seen0[name] as int].span),
                                error: ErrView::FieldSetTwice(fields@[i as int].ident),
                            },
                        ),
                        ..v1
                    }
                } else {
                    v1.emit(
                        fields@[i as int].span,
                        ErrView::UnknownStructField(fields@[i as int].ident),
                    )
                };
                spec::check_struct_fields(
                    g,
                    pre.interner,
                    v2,
                    ss,
                    variant,
                    fields@,
                    rem0,
                    seen0,
                    (i + 1) as nat,
                )
            });
        }
        let ty = self.check_expr(&field.expr);
        let ghost mid2 = *self;
        proof {
            self.infcx.tcx.lemma_extends_all(&pre.infcx.tcx, substs@);
            lemma_fields_match_extends(&self.infcx.tcx, &pre.infcx.tcx, decl@, variant.fields);
        }
        match fx_remove(remaining_fields, name) {
            Some(idx) => {
                let _ = fx_insert(seen_fields, name, i);
                self.record_field_index(field.id, idx);
                let ghost mid3a = *self;
                proof {
                    self.infcx.tcx.lemma_extends(&mid2.infcx.tcx, ty);
                }
                let declared = self.subst(decl[idx].ty, substs);
                let ghost mid3 = *self;
                proof {
                    assert(variant.fields[idx as int] == field_view(
                        &mid2.infcx.tcx,
                        decl@[idx as int],
                    ));
                    self.infcx.tcx.lemma_extends(&mid3a.infcx.tcx, ty);
                }
                self.equate(field.span, declared, ty);
                proof {
                    self.infcx.tcx.lemma_extends_trans(&mid3.infcx.tcx, &mid3a.infcx.tcx);
                    self.infcx.tcx.lemma_extends_trans(&mid3a.infcx.tcx, &mid2.infcx.tcx);
                    self.infcx.tcx.lemma_extends_trans(&mid2.infcx.tcx, &pre.infcx.tcx);
                    self.infcx.tcx.lemma_extends_all(&mid2.infcx.tcx, substs@);
                    lemma_fields_match_extends(
                        &self.infcx.tcx,
                        &mid2.infcx.tcx,
                        decl@,
                        variant.fields,
                    );
                }
            },
            None => {
                proof {
                    assert(remaining_fields@ =~= rem0);
                }
                match fx_get(seen_fields, name) {
                    Some(k) => {
                        self.errors.push(
                            Diagnostic {
                                span: field.span,
                                related: Some(fields[k].span),
                                error: TypeError::FieldSetTwice(field.ident),
                            },
                        );
                        proof {
                            assert(self@.errors =~= mid2@.errors.push(
                                DiagView {
                                    span: field.span,
                                    related: Some(fields@[k as int].span),
                                    error: ErrView::FieldSetTwice(field.ident),
                                },
                            ));
                        }
                    },
                    None => {
                        let _ = self.emit_ty_err(
                            field.span,
                            TypeError::UnknownStructField(field.ident),
                        );
                        proof {
                            self.infcx.tcx.lemma_extends_trans(&mid2.infcx.tcx, &pre.infcx.tcx);
                        }
                    },
                }
            },
        }
    }

    /// Checks the fields of a struct expression against the declared
    /// fields. The declaration order of the struct is kept: each field is
    /// recorded with the position of the field that it sets.
    pub fn check_struct_expr_fields(
        &mut self,
        span: Span,
        substs: &Vec<Ty>,
        decl: &Vec<FieldTy>,
        fields: &Vec<ir::Field>,
        Ghost(variant): Ghost<VariantView>,
    )
        requires
            old(self).wf(),
            old(self).has_all(substs@),
            fields_match(&old(self).infcx.tcx, decl@, variant.fields),
        ensures
            step(old(self), final(self)),
            final(self)@ == spec::check_struct_expr_fields(
                old(self).globals(),
                old(self).interner,
                old(self)@,
                span,
                old(self).terms(substs@),
                variant,
                fields@,
            ),
        decreases fields@, 1nat,
    {
        let ghost pre = *self;
        let ghost g = pre.globals();
        let ghost ss = pre.terms(substs@);
        let mut remaining_fields = FnCtx::fields_to_set(decl, Ghost(&self.infcx.tcx), Ghost(variant));
        let mut seen_fields = fx_new();
        let ghost total = spec::check_struct_fields(
            g,
            pre.interner,
            pre@,
            ss,
            variant,
            fields@,
            remaining_fields@,
            seen_fields@,
            0,
        );
        let mut i: usize = 0;
        while i < fields.len()
            invariant
                i <= fields.len(),
                step(&pre, self),
                g == pre.globals(),
                self.has_all(substs@),
                self.terms(substs@) == ss,
                fields_match(&self.infcx.tcx, decl@, variant.fields),
                forall|s: usize| remaining_fields@.contains_key(s) ==> #[trigger] remaining_fields@[s]
                    < decl@.len(),
                forall|s: usize| seen_fields@.contains_key(s) ==> #[trigger] seen_fields@[s] < i,
                total == spec::check_struct_fields(
                    g,
                    pre.interner,
                    self@,
                    ss,
                    variant,
                    fields@,
                    remaining_fields@,
                    seen_fields@,
                    i as nat,
                ),
            decreases fields.len() - i,
        {
            let ghost mid = *self;
            self.check_struct_expr_field(
                substs,
                decl,
                fields,
                i,
                &mut remaining_fields,
                &mut seen_fields,
                Ghost(variant),
                Ghost(ss),
            );
            proof {
                self.infcx.tcx.lemma_extends_trans(&mid.infcx.tcx, &pre.infcx.tcx);
            }
            i += 1;
        }
        if !fx_is_empty(&remaining_fields) {
            let ghost mid = *self;
            let _ = self.emit_ty_err(span, TypeError::IncompleteFields);
            proof {
                self.infcx.tcx.lemma_extends_trans(&mid.infcx.tcx, &pre.infcx.tcx);
            }
        }
    }
}

} // verus!
