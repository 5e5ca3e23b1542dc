//! Field access, and coercion.

use crate::ast::{BinOp, Ident, Lit, Mutability, UnaryOp};
use crate::fxmap::{fx_get, fx_insert, fx_is_empty, fx_new, fx_remove, lookup};
use crate::index::Symbol;
use crate::ir;
use crate::ir::{DefKind, ExprKind, MatchSource, PatternKind, Res, StmtKind};
use crate::span::Span;
use crate::ty::adt::{
    copy_fields, find_position_named, first_named, first_with_ctor, lemma_first_named_range,
    AdtKind, CtorKind, FieldTy, VariantTy,
};
use crate::ty::error::{Diagnostic, TypeError};
use crate::ty::kind::{AdtId, Ty, TyCon};
use crate::ty::store::TyCtx;
use crate::ty::term::Term;
use crate::typeck::fcx::{step, AdjustmentKind, FnCtx, FnView};
use crate::typeck::spec;
use crate::typeck::tyconv::prepend_tys;
use crate::typeck::helpers::{
    fields_match, lemma_fields_match_extends, lemma_find_field, lemma_last_field_range,
    lemma_variant_with_ctor,
};
use crate::typeck::view::{
    adt_view, diags_view, field_view, variant_view, DiagView, ErrView, FieldView, Globals,
    VariantView,
};
use vstd::prelude::*;

verus! {

impl<'a> FnCtx<'a> {
    /// The type of a field of a value.
    pub fn check_field_expr_inner(&mut self, id: ir::Id, span: Span, base_ty: Ty, ident: Ident) -> (t:
        Ty)
        requires
            old(self).wf(),
            old(self).has(base_ty),
        ensures
            step(old(self), final(self)),
            final(self).has(t),
            (final(self)@, final(self).term(t)) == spec::check_field(
                old(self).globals(),
                old(self).interner,
                old(self)@,
                id,
                span,
                old(self).term(base_ty),
                ident,
            ),
    {
        broadcast use TyCtx::lemma_extends_auto;

        let ghost pre = *self;
        let r = self.partially_resolve_ty(base_ty);
        let args = self.args_of(r);
        match self.infcx.tcx.con(r) {
            TyCon::Adt(a) => {
                let usable = a.0 < self.infcx.tcx.adt_count() && {
                    let adt = self.infcx.tcx.adt(a);
                    let is_enum = match adt.kind {
                        AdtKind::Enum => true,
                        AdtKind::Struct => false,
                    };
                    !is_enum && adt.variants.len() == 1
                };
                proof {
                    if a.0 < self.infcx.tcx.spec_adts().len() {
                        let tcx = &self.infcx.tcx;
                        assert(self.globals().adts[a.0 as int] == adt_view(
                            tcx,
                            tcx.spec_adts()[a.0 as int],
                        ));
                    }
                }
                if usable {
                    let decl = self.variant_fields(a, 0);
                    let field_count = decl.len();
                    let ghost fields = pre.globals().adts[a.0 as int].variants[0].fields;
                    proof {
                        lemma_find_field(&self.infcx.tcx, decl@, fields, ident.symbol, 0);
                        lemma_first_named_range(decl@, ident.symbol, 0);
                        assert(decl@.len() == field_count);
                    }
                    match find_position_named(&decl, ident.symbol) {
                        // the index belongs to the whole field expression,
                        // not just to the identifier or the base
                        Some(idx) => {
                            self.record_field_index(id, idx);
                            proof {
                                assert(fields[idx as int] == field_view(
                                    &self.infcx.tcx,
                                    decl@[idx as int],
                                ));
                            }
                            self.subst(decl[idx].ty, &args)
                        },
                        None => self.emit_ty_err(span, TypeError::UnknownField(base_ty, ident)),
                    }
                } else {
                    self.emit_ty_err(span, TypeError::BadFieldAccess(base_ty))
                }
            },
            TyCon::Tuple => {
                // `tuple.i` literally means the i'th element of the tuple
                match self.interner.index_of(ident.symbol) {
                    Some(idx) => {
                        self.record_field_index(id, idx);
                        if idx < args.len() {
                            proof {
                                assert(self.terms(args@)[idx as int] == self.term(args@[idx as int]));
                            }
                            args[idx]
                        } else {
                            self.emit_ty_err(span, TypeError::TupleOutOfBounds(idx, args.len()))
                        }
                    },
                    None => self.emit_ty_err(span, TypeError::UnknownField(base_ty, ident)),
                }
            },
            _ => self.emit_ty_err(span, TypeError::BadFieldAccess(base_ty)),
        }
    }

    /// One-directional relaxation of `equate`.
    pub fn coerce(&mut self, id: ir::Id, span: Span, ty: Ty, target: Ty)
        requires
            old(self).wf(),
            old(self).has(ty),
            old(self).has(target),
        ensures
            step(old(self), final(self)),
            final(self)@ == spec::coerce(
                old(self).globals(),
                old(self)@,
                id,
                span,
                old(self).term(ty),
                old(self).term(target),
            ),
    {
        broadcast use TyCtx::lemma_extends_auto;

        let ghost pre = *self;
        if self.infcx.tcx.flags(ty).has_error() || self.infcx.tcx.flags(target).has_error() {
            return ;
        }
        let r = self.partially_resolve_ty(ty);
        let target_is_fn = match self.infcx.tcx.con(target) {
            TyCon::Fn => true,
            _ => false,
        };
        match self.infcx.tcx.con(r) {
            TyCon::Never => {
                self.record_adjustment(id, target, AdjustmentKind::NeverToAny);
            },
            TyCon::FnDef(def) => {
                let sig = if target_is_fn {
                    self.infcx.tcx.fn_sig(def)
                } else {
                    None
                };
                match sig {
                    Some(sig) => {
                        let args = self.args_of(r);
                        // equate the signatures
                        let fn_sig = self.subst(sig, &args);
                        let ghost mid = *self;
                        match self.infcx.equate(span, fn_sig, target) {
                            Ok(_) => {
                                proof {
                                    self.lemma_stable(&mid);
                                }
                                self.record_adjustment(id, target, AdjustmentKind::ReifyFn);
                            },
                            Err(err) => {
                                proof {
                                    self.lemma_stable(&mid);
                                }
                                let _ = self.emit_ty_err(
                                    span,
                                    TypeError::Mismatch(err.expected, err.found),
                                );
                            },
                        }
                    },
                    None => {
                        self.equate(span, r, target);
                    },
                }
            },
            // if it is not one of the cases for coercion, fall back to
            // `equate`
            _ => {
                self.equate(span, r, target);
            },
        }
    }
}

} // verus!
