//! The checking context of one item, and what it can do in one step.

use crate::ast::Mutability;
use crate::fxmap::{fx_get, fx_insert, fx_new, lookup};
use crate::infer::unify::{equate_spec, equate_ty};
use crate::infer::{fresh_vars, InferCtx};
use crate::index::TyVid;
use crate::ir::Id;
use crate::span::Span;
use crate::symbol::Interner;
use crate::ty::error::{Diagnostic, TypeError};
use crate::ty::kind::{InferTy, Ty, TyCon};
use crate::ty::store::TyCtx;
use crate::ty::term::Term;
use crate::typeck::view::{
    diag_view, diags_ok, diags_view, err_ok, err_view, lemma_diags_extend, lemma_globals_extend,
    lemma_term_map_extends, map_ok, term_map, DiagView, ErrView, Globals,
};
use rustc_hash::FxHashMap;
use vstd::prelude::*;

verus! {

/// An implicit conversion that checking found.
#[derive(Debug, Clone, Copy, PartialEq, Eq, Structural)]
pub enum AdjustmentKind {
    /// A diverging expression is used where a value is expected.
    NeverToAny,
    /// A function item is used as a function pointer.
    ReifyFn,
}

/// A conversion of a node to a type.
#[derive(Debug, Clone, Copy, PartialEq, Eq, Structural)]
pub struct Adjustment {
    pub ty: Ty,
    pub kind: AdjustmentKind,
}

pub struct AdjView {
    pub ty: Term,
    pub kind: AdjustmentKind,
}

/// The type of a local variable.
#[derive(Debug, Clone, Copy, PartialEq, Eq, Structural)]
pub struct LocalTy {
    pub ty: Ty,
    pub mtbl: Mutability,
}

/// The context in which the body of a function is checked.
pub struct FnCtx<'a> {
    pub infcx: InferCtx,
    pub interner: &'a Interner,
    /// The types of the local variables, by the pattern that binds them.
    pub locals: FxHashMap<usize, usize>,
    /// Which of the local variables are mutable.
    pub mutable: FxHashMap<usize, usize>,
    /// The type of every node that was checked.
    pub node_types: FxHashMap<usize, usize>,
    /// The position of the field that a node names.
    pub field_indices: FxHashMap<usize, usize>,
    pub adjustments: Vec<(usize, Adjustment)>,
    pub errors: Vec<Diagnostic>,
    pub ret_ty: Ty,
    pub unsafe_ctx: bool,
}

/// The model of a checking context.
pub struct FnView {
    pub bindings: Seq<Option<Term>>,
    pub origins: Seq<Span>,
    pub locals: Map<usize, Term>,
    pub mutable: Map<usize, usize>,
    pub node_types: Map<usize, Term>,
    pub field_indices: Map<usize, usize>,
    pub adjustments: Seq<(usize, AdjView)>,
    pub errors: Seq<DiagView>,
    pub ret_ty: Term,
    pub unsafe_ctx: bool,
}

pub open spec fn adjustments_view(tcx: &TyCtx, a: Seq<(usize, Adjustment)>) -> Seq<(usize, AdjView)> {
    Seq::new(a.len(), |i: int| (a[i].0, AdjView { ty: tcx.term(a[i].1.ty), kind: a[i].1.kind }))
}

pub open spec fn adjustments_ok(tcx: &TyCtx, a: Seq<(usize, Adjustment)>) -> bool {
    forall|i: int| 0 <= i < a.len() ==> tcx.has((#[trigger] a[i]).1.ty)
}

pub open spec fn mtbl_code(m: Mutability) -> usize {
    match m {
        Mutability::Mut => 1,
        Mutability::Imm => 0,
    }
}

impl FnView {
    /// The state with one more complaint.
    pub open spec fn emit(self, span: Span, error: ErrView) -> FnView {
        FnView { errors: self.errors.push(DiagView { span, related: None, error }), ..self }
    }

    /// The state with a fresh variable, and the variable.
    pub open spec fn fresh(self, span: Span) -> (FnView, Term) {
        (
            FnView {
                bindings: self.bindings.push(None),
                origins: self.origins.push(span),
                ..self
            },
            Term::leaf(TyCon::Infer(InferTy::TyVar(TyVid(self.bindings.len() as usize)))),
        )
    }

    /// The state after two types were made equal: the new bindings where
    /// they unify, a complaint about the mismatch where they do not.
    pub open spec fn equate(self, span: Span, expected: Term, found: Term) -> FnView {
        match equate_spec(self.bindings, expected, found) {
            Some(nb) => FnView { bindings: nb, ..self },
            None => self.emit(
                span,
                ErrView::Mismatch(expected.apply(self.bindings), found.apply(self.bindings)),
            ),
        }
    }

    /// The state after a scheme was opened, and the opened type.
    pub open spec fn instantiate(self, span: Span, t: Term) -> (FnView, Term) {
        match t.con {
            TyCon::Scheme(forall) => (
                FnView {
                    bindings: self.bindings + Seq::new(
                        forall.binders as nat,
                        |i: int| None::<Term>,
                    ),
                    origins: self.origins + Seq::new(forall.binders as nat, |i: int| span),
                    ..self
                },
                t.args[0].subst(fresh_vars(self.bindings.len(), forall.binders as nat)),
            ),
            _ => (self, t),
        }
    }

    pub open spec fn record_ty(self, id: Id, t: Term) -> FnView {
        FnView { node_types: self.node_types.insert(id.local.0, t), ..self }
    }

    pub open spec fn def_local(self, id: Id, mtbl: Mutability, t: Term) -> FnView {
        FnView {
            locals: self.locals.insert(id.local.0, t),
            mutable: self.mutable.insert(id.local.0, mtbl_code(mtbl)),
            ..self
        }
    }

    pub open spec fn record_field_index(self, id: Id, idx: usize) -> FnView {
        FnView { field_indices: self.field_indices.insert(id.local.0, idx), ..self }
    }

    pub open spec fn adjust(self, id: Id, ty: Term, kind: AdjustmentKind) -> FnView {
        FnView { adjustments: self.adjustments.push((id.local.0, AdjView { ty, kind })), ..self }
    }

    /// The type of a local variable; the error sentinel for a variable that
    /// no pattern has bound.
    pub open spec fn local_ty(self, id: Id) -> Term {
        if self.locals.contains_key(id.local.0) {
            self.locals[id.local.0]
        } else {
            Term::leaf(TyCon::Error)
        }
    }
}

impl<'a> FnCtx<'a> {
    pub open spec fn has(&self, t: Ty) -> bool {
        self.infcx.tcx.has(t)
    }

    pub open spec fn has_all(&self, ts: Seq<Ty>) -> bool {
        self.infcx.tcx.has_all(ts)
    }

    pub open spec fn term(&self, t: Ty) -> Term {
        self.infcx.tcx.term(t)
    }

    pub open spec fn terms(&self, ts: Seq<Ty>) -> Seq<Term> {
        self.infcx.tcx.terms(ts)
    }

    pub open spec fn globals(&self) -> Globals {
        self.infcx.tcx.globals()
    }

    /// The tables speak of types of the store only.
    pub open spec fn tables_ok(&self) -> bool {
        &&& map_ok(&self.infcx.tcx, self.locals@)
        &&& map_ok(&self.infcx.tcx, self.node_types@)
        &&& adjustments_ok(&self.infcx.tcx, self.adjustments@)
        &&& diags_ok(&self.infcx.tcx, self.errors@)
        &&& self.has(self.ret_ty)
    }

    pub open spec fn wf(&self) -> bool {
        &&& self.infcx.wf()
        &&& self.tables_ok()
    }

    /// Whether the context is `old` after more work of the checker: the
    /// store has grown, and the names are the same.
    pub open spec fn extends(&self, old: &FnCtx) -> bool {
        &&& self.infcx.tcx.extends(&old.infcx.tcx)
        &&& self.interner == old.interner
    }

    /// What the tables hold, whatever the store.
    pub open spec fn same_tables(&self, old: &FnCtx) -> bool {
        &&& self.locals == old.locals
        &&& self.mutable == old.mutable
        &&& self.node_types == old.node_types
        &&& self.field_indices == old.field_indices
        &&& self.adjustments == old.adjustments
        &&& self.errors == old.errors
        &&& self.ret_ty == old.ret_ty
        &&& self.unsafe_ctx == old.unsafe_ctx
        &&& self.interner == old.interner
    }

    /// A grown store changes nothing of what the tables mean.
    pub proof fn lemma_stable(&self, old: &FnCtx)
        requires
            self.infcx.tcx.extends(&old.infcx.tcx),
            self.same_tables(old),
            old.tables_ok(),
            old.infcx.tcx.wf(),
        ensures
            self.tables_ok(),
            self@.locals == old@.locals,
            self@.mutable == old@.mutable,
            self@.node_types == old@.node_types,
            self@.field_indices == old@.field_indices,
            self@.adjustments == old@.adjustments,
            self@.errors == old@.errors,
            self@.ret_ty == old@.ret_ty,
            self@.unsafe_ctx == old@.unsafe_ctx,
            self.globals() == old.globals(),
    {
        let new_tcx = &self.infcx.tcx;
        let old_tcx = &old.infcx.tcx;
        lemma_term_map_extends(new_tcx, old_tcx, old.locals@);
        lemma_term_map_extends(new_tcx, old_tcx, old.node_types@);
        lemma_diags_extend(new_tcx, old_tcx, old.errors@);
        lemma_globals_extend(new_tcx, old_tcx);
        new_tcx.lemma_extends(old_tcx, old.ret_ty);
        assert forall|i: int| 0 <= i < old.adjustments@.len() implies new_tcx.has(
            (#[trigger] old.adjustments@[i]).1.ty,
        ) && new_tcx.term(old.adjustments@[i].1.ty) == old_tcx.term(old.adjustments@[i].1.ty) by {
            new_tcx.lemma_extends(old_tcx, old.adjustments@[i].1.ty);
        }
        assert(adjustments_view(new_tcx, old.adjustments@) =~= adjustments_view(
            old_tcx,
            old.adjustments@,
        ));
    }
}

/// What every step of the checker keeps: the invariant, the store of
/// before under the store of after, and the program around the item.
pub open spec fn step(old: &FnCtx, new: &FnCtx) -> bool {
    &&& new.wf()
    &&& new.extends(old)
    &&& new.globals() == old.globals()
}

impl<'a> FnCtx<'a> {
    /// A context with empty tables.
    pub fn new(infcx: InferCtx, interner: &'a Interner, ret_ty: Ty) -> (fcx: FnCtx<'a>)
        requires
            infcx.wf(),
            infcx.tcx.has(ret_ty),
        ensures
            fcx.wf(),
            fcx.infcx == infcx,
            fcx.interner == interner,
            fcx@ == (FnView {
                bindings: infcx.bindings(),
                origins: infcx.origins@,
                locals: Map::empty(),
                mutable: Map::empty(),
                node_types: Map::empty(),
                field_indices: Map::empty(),
                adjustments: Seq::empty(),
                errors: Seq::empty(),
                ret_ty: infcx.tcx.term(ret_ty),
                unsafe_ctx: false,
            }),
    {
        let fcx = FnCtx {
            infcx,
            interner,
            locals: fx_new(),
            mutable: fx_new(),
            node_types: fx_new(),
            field_indices: fx_new(),
            adjustments: Vec::new(),
            errors: Vec::new(),
            ret_ty,
            unsafe_ctx: false,
        };
        proof {
            assert(fcx@.locals =~= Map::<usize, Term>::empty());
            assert(fcx@.node_types =~= Map::<usize, Term>::empty());
            assert(fcx@.adjustments =~= Seq::<(usize, AdjView)>::empty());
            assert(fcx@.errors =~= Seq::<DiagView>::empty());
        }
        fcx
    }

    /// The error sentinel.
    pub fn set_ty_err(&self) -> (t: Ty)
        requires
            self.wf(),
        ensures
            self.has(t),
            self.term(t) == Term::leaf(TyCon::Error),
    {
        self.infcx.tcx.mk_ty_err()
    }

    /// Reports an error; the type of what went wrong is the error
    /// sentinel.
    pub fn emit_ty_err(&mut self, span: Span, err: TypeError) -> (t: Ty)
        requires
            old(self).wf(),
            err_ok(&old(self).infcx.tcx, err),
        ensures
            step(old(self), final(self)),
            final(self).infcx == old(self).infcx,
            final(self)@ == old(self)@.emit(span, err_view(&old(self).infcx.tcx, err)),
            final(self).has(t),
            final(self).term(t) == Term::leaf(TyCon::Error),
    {
        self.errors.push(Diagnostic { span, related: None, error: err });
        proof {
            assert(self@.errors =~= old(self)@.errors.push(
                DiagView { span, related: None, error: err_view(&old(self).infcx.tcx, err) },
            ));
        }
        self.infcx.tcx.mk_ty_err()
    }

    /// Allocates a fresh unbound inference variable.
    pub fn new_infer_var(&mut self, span: Span) -> (t: Ty)
        requires
            old(self).wf(),
        ensures
            step(old(self), final(self)),
            (final(self)@, final(self).term(t)) == old(self)@.fresh(span),
            final(self).has(t),
    {
        let ghost pre = *self;
        let t = self.infcx.new_infer_var(span);
        proof {
            self.lemma_stable(&pre);
        }
        t
    }

    /// Makes two types equal, or reports that they are not.
    pub fn equate(&mut self, span: Span, expected: Ty, found: Ty)
        requires
            old(self).wf(),
            old(self).has(expected),
            old(self).has(found),
        ensures
            step(old(self), final(self)),
            final(self)@ == old(self)@.equate(span, old(self).term(expected), old(self).term(found)),
    {
        let ghost pre = *self;
        match self.infcx.equate(span, expected, found) {
            Ok(_) => {
                proof {
                    self.lemma_stable(&pre);
                }
            },
            Err(err) => {
                let ghost mid = *self;
                proof {
                    mid.lemma_stable(&pre);
                }
                let _ = self.emit_ty_err(span, TypeError::Mismatch(err.expected, err.found));
            },
        }
    }

    /// Opens a scheme with fresh variables.
    pub fn instantiate(&mut self, span: Span, ty: Ty) -> (t: Ty)
        requires
            old(self).wf(),
            old(self).has(ty),
        ensures
            step(old(self), final(self)),
            (final(self)@, final(self).term(t)) == old(self)@.instantiate(span, old(self).term(ty)),
            final(self).has(t),
    {
        let ghost pre = *self;
        let t = self.infcx.instantiate(span, ty);
        proof {
            self.lemma_stable(&pre);
            assert(pre@.bindings.len() == pre.infcx.vars@.len());
            match pre.term(ty).con {
                TyCon::Scheme(forall) => {
                    assert(self@.bindings == pre@.bindings + Seq::new(
                        forall.binders as nat,
                        |i: int| None::<Term>,
                    ));
                    assert(self@.origins == pre@.origins + Seq::new(
                        forall.binders as nat,
                        |i: int| span,
                    ));
                },
                _ => {
                    self.infcx.tcx.lemma_extends(&pre.infcx.tcx, ty);
                },
            }
        }
        t
    }

    /// The type with the bindings of now applied.
    pub fn partially_resolve_ty(&mut self, ty: Ty) -> (t: Ty)
        requires
            old(self).wf(),
            old(self).has(ty),
        ensures
            step(old(self), final(self)),
            final(self)@ == old(self)@,
            final(self).has(t),
            final(self).term(t) == old(self).term(ty).apply(old(self)@.bindings),
    {
        let ghost pre = *self;
        let t = self.infcx.resolve_ty(ty);
        proof {
            self.lemma_stable(&pre);
        }
        t
    }

    /// Replaces the generic parameters of a type.
    pub fn subst(&mut self, ty: Ty, substs: &Vec<Ty>) -> (t: Ty)
        requires
            old(self).wf(),
            old(self).has(ty),
            old(self).has_all(substs@),
        ensures
            step(old(self), final(self)),
            final(self)@ == old(self)@,
            final(self).has(t),
            final(self).term(t) == old(self).term(ty).subst(old(self).terms(substs@)),
    {
        let ghost pre = *self;
        let t = self.infcx.tcx.subst(ty, substs);
        proof {
            self.infcx.tcx.lemma_extends_bindings(&pre.infcx.tcx, pre.infcx.vars@);
            self.lemma_stable(&pre);
        }
        t
    }

    /// Interns a constructor applied to arguments.
    pub fn mk_node(&mut self, con: TyCon, args: Vec<Ty>) -> (t: Ty)
        requires
            old(self).wf(),
            con.arity_ok(args@.len()),
            old(self).has_all(args@),
        ensures
            step(old(self), final(self)),
            final(self)@ == old(self)@,
            final(self).has(t),
            final(self).term(t) == (Term { con, args: old(self).terms(args@) }),
    {
        let ghost pre = *self;
        let t = self.infcx.tcx.mk_node(con, args);
        proof {
            self.infcx.tcx.lemma_extends_bindings(&pre.infcx.tcx, pre.infcx.vars@);
            self.lemma_stable(&pre);
        }
        t
    }

    pub fn mk_fn_ptr(&mut self, params: Vec<Ty>, ret: Ty) -> (t: Ty)
        requires
            old(self).wf(),
            old(self).has_all(params@),
            old(self).has(ret),
        ensures
            step(old(self), final(self)),
            final(self)@ == old(self)@,
            final(self).has(t),
            final(self).term(t) == (Term {
                con: TyCon::Fn,
                args: old(self).terms(params@).push(old(self).term(ret)),
            }),
    {
        let mut args = params;
        args.push(ret);
        proof {
            assert(self.terms(args@) =~= self.terms(params@).push(self.term(ret)));
        }
        self.mk_node(TyCon::Fn, args)
    }

    /// Records the type of a node.
    pub fn record_ty(&mut self, id: Id, ty: Ty) -> (t: Ty)
        requires
            old(self).wf(),
            old(self).has(ty),
        ensures
            t == ty,
            step(old(self), final(self)),
            final(self).infcx == old(self).infcx,
            final(self)@ == old(self)@.record_ty(id, old(self).term(ty)),
    {
        let _ = fx_insert(&mut self.node_types, id.local.0, ty.0);
        proof {
            assert(self@.node_types =~= old(self)@.node_types.insert(id.local.0, old(self).term(ty)));
        }
        ty
    }

    /// Declares a local variable.
    pub fn def_local(&mut self, id: Id, mtbl: Mutability, ty: Ty) -> (t: Ty)
        requires
            old(self).wf(),
            old(self).has(ty),
        ensures
            t == ty,
            step(old(self), final(self)),
            final(self).infcx == old(self).infcx,
            final(self)@ == old(self)@.def_local(id, mtbl, old(self).term(ty)),
    {
        let _ = fx_insert(&mut self.locals, id.local.0, ty.0);
        let code: usize = match mtbl {
            Mutability::Mut => 1,
            Mutability::Imm => 0,
        };
        let _ = fx_insert(&mut self.mutable, id.local.0, code);
        proof {
            assert(self@.locals =~= old(self)@.locals.insert(id.local.0, old(self).term(ty)));
        }
        ty
    }

    /// The type of a local variable; the error sentinel for a variable that
    /// no pattern has bound.
    pub fn local_ty(&self, id: Id) -> (t: Ty)
        requires
            self.wf(),
        ensures
            self.has(t),
            self.term(t) == self@.local_ty(id),
    {
        match fx_get(&self.locals, id.local.0) {
            Some(h) => {
                proof {
                    assert(self.locals@.contains_key(id.local.0));
                    assert(self.has(Ty(self.locals@[id.local.0])));
                }
                Ty(h)
            },
            None => self.infcx.tcx.mk_ty_err(),
        }
    }

    pub fn record_field_index(&mut self, id: Id, idx: usize)
        requires
            old(self).wf(),
        ensures
            step(old(self), final(self)),
            final(self).infcx == old(self).infcx,
            final(self)@ == old(self)@.record_field_index(id, idx),
    {
        let _ = fx_insert(&mut self.field_indices, id.local.0, idx);
    }

    pub fn record_adjustment(&mut self, id: Id, ty: Ty, kind: AdjustmentKind)
        requires
            old(self).wf(),
            old(self).has(ty),
        ensures
            step(old(self), final(self)),
            final(self).infcx == old(self).infcx,
            final(self)@ == old(self)@.adjust(id, old(self).term(ty), kind),
    {
        self.adjustments.push((id.local.0, Adjustment { ty, kind }));
        proof {
            assert(self@.adjustments =~= old(self)@.adjustments.push(
                (id.local.0, AdjView { ty: old(self).term(ty), kind }),
            ));
        }
    }
}

impl<'a> View for FnCtx<'a> {
    type V = FnView;

    open spec fn view(&self) -> FnView {
        FnView {
            bindings: self.infcx.bindings(),
            origins: self.infcx.origins@,
            locals: term_map(&self.infcx.tcx, self.locals@),
            mutable: self.mutable@,
            node_types: term_map(&self.infcx.tcx, self.node_types@),
            field_indices: self.field_indices@,
            adjustments: adjustments_view(&self.infcx.tcx, self.adjustments@),
            errors: diags_view(&self.infcx.tcx, self.errors@),
            ret_ty: self.infcx.tcx.term(self.ret_ty),
            unsafe_ctx: self.unsafe_ctx,
        }
    }
}

} // verus!
