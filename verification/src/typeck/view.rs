//! The models of what the checker works on: types as trees, tables as maps
//! to trees. The store may grow under a model; the model does not change.

use crate::ast::{Ident, Mutability, Visibility};
use crate::index::DefId;
use crate::span::Span;
use crate::ty::adt::{AdtKind, AdtTy, CtorKind, FieldTy, VariantTy};
use crate::ty::error::{Diagnostic, TypeError};
use crate::ty::kind::Ty;
use crate::ty::store::{is_prefix, lemma_term_extends, TyCtx};
use crate::ty::term::Term;
use vstd::prelude::*;

verus! {

pub struct FieldView {
    pub def_id: DefId,
    pub ident: Ident,
    pub vis: Visibility,
    pub ty: Term,
}

pub struct VariantView {
    pub ctor: Option<DefId>,
    pub ident: Ident,
    pub ctor_kind: CtorKind,
    pub fields: Seq<FieldView>,
}

pub struct AdtView {
    pub def_id: DefId,
    pub kind: AdtKind,
    pub ident: Ident,
    pub variants: Seq<VariantView>,
}

/// What the checker knows of the program around the item that it checks.
pub struct Globals {
    pub adts: Seq<AdtView>,
    /// The collected types of the items.
    pub items: Map<usize, Term>,
    /// The signatures of the functions.
    pub sigs: Map<usize, Term>,
    /// The tuples of the generic parameters of the items.
    pub generics: Map<usize, Term>,
}

/// A type error, over trees.
pub enum ErrView {
    Mismatch(Term, Term),
    FieldAlreadyDeclared(Ident, Ident),
    UnknownField(Term, Ident),
    BadFieldAccess(Term),
    TupleOutOfBounds(usize, usize),
    GenericArgCount(usize, usize),
    InferenceFailure,
    RequireUnsafeCtx,
    InvalidAssociatedItem(Ident),
    ExpectedLvalue,
    ExpectedStructPath,
    FieldSetTwice(Ident),
    UnknownStructField(Ident),
    IncompleteFields,
}

pub struct DiagView {
    pub span: Span,
    pub related: Option<Span>,
    pub error: ErrView,
}

pub open spec fn field_view(tcx: &TyCtx, f: FieldTy) -> FieldView {
    FieldView { def_id: f.def_id, ident: f.ident, vis: f.vis, ty: tcx.term(f.ty) }
}

pub open spec fn variant_view(tcx: &TyCtx, v: VariantTy) -> VariantView {
    VariantView {
        ctor: v.ctor,
        ident: v.ident,
        ctor_kind: v.ctor_kind,
        fields: Seq::new(v.fields@.len(), |i: int| field_view(tcx, v.fields@[i])),
    }
}

pub open spec fn adt_view(tcx: &TyCtx, a: AdtTy) -> AdtView {
    AdtView {
        def_id: a.def_id,
        kind: a.kind,
        ident: a.ident,
        variants: Seq::new(a.variants@.len(), |i: int| variant_view(tcx, a.variants@[i])),
    }
}

/// A map from nodes to handles, as a map from nodes to trees.
pub open spec fn term_map(tcx: &TyCtx, m: Map<usize, usize>) -> Map<usize, Term> {
    Map::new(|k: usize| m.contains_key(k), |k: usize| tcx.term(Ty(m[k])))
}

/// Whether every value of the map is a handle of the store.
pub open spec fn map_ok(tcx: &TyCtx, m: Map<usize, usize>) -> bool {
    forall|k: usize| m.contains_key(k) ==> tcx.has(Ty(#[trigger] m[k]))
}

pub open spec fn err_view(tcx: &TyCtx, e: TypeError) -> ErrView {
    match e {
        TypeError::Mismatch(a, b) => ErrView::Mismatch(tcx.term(a), tcx.term(b)),
        TypeError::FieldAlreadyDeclared(f, o) => ErrView::FieldAlreadyDeclared(f, o),
        TypeError::UnknownField(t, i) => ErrView::UnknownField(tcx.term(t), i),
        TypeError::BadFieldAccess(t) => ErrView::BadFieldAccess(tcx.term(t)),
        TypeError::TupleOutOfBounds(i, n) => ErrView::TupleOutOfBounds(i, n),
        TypeError::GenericArgCount(e, f) => ErrView::GenericArgCount(e, f),
        TypeError::InferenceFailure => ErrView::InferenceFailure,
        TypeError::RequireUnsafeCtx => ErrView::RequireUnsafeCtx,
        TypeError::InvalidAssociatedItem(i) => ErrView::InvalidAssociatedItem(i),
        TypeError::ExpectedLvalue => ErrView::ExpectedLvalue,
        TypeError::ExpectedStructPath => ErrView::ExpectedStructPath,
        TypeError::FieldSetTwice(i) => ErrView::FieldSetTwice(i),
        TypeError::UnknownStructField(i) => ErrView::UnknownStructField(i),
        TypeError::IncompleteFields => ErrView::IncompleteFields,
    }
}

/// Whether the types of an error are types of the store.
pub open spec fn err_ok(tcx: &TyCtx, e: TypeError) -> bool {
    match e {
        TypeError::Mismatch(a, b) => tcx.has(a) && tcx.has(b),
        TypeError::UnknownField(t, _) => tcx.has(t),
        TypeError::BadFieldAccess(t) => tcx.has(t),
        _ => true,
    }
}

pub open spec fn diag_view(tcx: &TyCtx, d: Diagnostic) -> DiagView {
    DiagView { span: d.span, related: d.related, error: err_view(tcx, d.error) }
}

pub open spec fn diags_view(tcx: &TyCtx, ds: Seq<Diagnostic>) -> Seq<DiagView> {
    Seq::new(ds.len(), |i: int| diag_view(tcx, ds[i]))
}

pub open spec fn diags_ok(tcx: &TyCtx, ds: Seq<Diagnostic>) -> bool {
    forall|i: int| 0 <= i < ds.len() ==> err_ok(tcx, (#[trigger] ds[i]).error)
}

impl TyCtx {
    /// The program around the item, over trees.
    pub open spec fn globals(&self) -> Globals {
        Globals {
            adts: Seq::new(self.spec_adts().len(), |i: int| adt_view(self, self.spec_adts()[i])),
            items: term_map(self, self.items()),
            sigs: term_map(self, self.sigs()),
            generics: term_map(self, self.generic_counts()),
        }
    }
}

/// A grown store stands for the same trees.
pub proof fn lemma_term_map_extends(new: &TyCtx, old: &TyCtx, m: Map<usize, usize>)
    requires
        is_prefix(old.nodes(), new.nodes()),
        map_ok(old, m),
    ensures
        map_ok(new, m),
        term_map(new, m) == term_map(old, m),
{
    assert forall|k: usize| m.contains_key(k) implies new.has(Ty(#[trigger] m[k])) && new.term(
        Ty(m[k]),
    ) == old.term(Ty(m[k])) by {
        lemma_term_extends(old.nodes(), new.nodes(), Ty(m[k]));
    }
    assert(term_map(new, m) =~= term_map(old, m));
}

pub proof fn lemma_diags_extend(new: &TyCtx, old: &TyCtx, ds: Seq<Diagnostic>)
    requires
        is_prefix(old.nodes(), new.nodes()),
        diags_ok(old, ds),
    ensures
        diags_ok(new, ds),
        diags_view(new, ds) == diags_view(old, ds),
{
    assert forall|i: int| 0 <= i < ds.len() implies err_ok(new, (#[trigger] ds[i]).error)
        && diag_view(new, ds[i]) == diag_view(old, ds[i]) by {
        match ds[i].error {
            TypeError::Mismatch(a, b) => {
                lemma_term_extends(old.nodes(), new.nodes(), a);
                lemma_term_extends(old.nodes(), new.nodes(), b);
            },
            TypeError::UnknownField(t, _) => {
                lemma_term_extends(old.nodes(), new.nodes(), t);
            },
            TypeError::BadFieldAccess(t) => {
                lemma_term_extends(old.nodes(), new.nodes(), t);
            },
            _ => {},
        }
    }
    assert(diags_view(new, ds) =~= diags_view(old, ds));
}

/// A grown store describes the structs and enums as before.
pub proof fn lemma_adts_extend(new: &TyCtx, old: &TyCtx)
    requires
        is_prefix(old.nodes(), new.nodes()),
        new.spec_adts() == old.spec_adts(),
        old.wf(),
    ensures
        new.globals().adts == old.globals().adts,
{
    let adts = old.spec_adts();
    assert forall|a: int| 0 <= a < adts.len() implies adt_view(new, adts[a]) == adt_view(
        old,
        adts[a],
    ) by {
        let x = adts[a];
        assert forall|v: int| 0 <= v < x.variants@.len() implies variant_view(new, x.variants@[v])
            == variant_view(old, x.variants@[v]) by {
            let y = x.variants@[v];
            assert forall|f: int| 0 <= f < y.fields@.len() implies field_view(new, y.fields@[f])
                == field_view(old, y.fields@[f]) by {
                assert(adts[a].variants@[v].fields@[f].ty.0 < old.nodes().len());
                lemma_term_extends(old.nodes(), new.nodes(), y.fields@[f].ty);
            }
            assert(variant_view(new, y).fields =~= variant_view(old, y).fields);
        }
        assert(adt_view(new, x).variants =~= adt_view(old, x).variants);
    }
    assert(new.globals().adts =~= old.globals().adts);
}

/// A grown store knows the same program.
pub proof fn lemma_globals_extend(new: &TyCtx, old: &TyCtx)
    requires
        new.extends(old),
        old.wf(),
    ensures
        new.globals() == old.globals(),
{
    old.lemma_tables_valid();
    lemma_term_map_extends(new, old, old.items());
    lemma_term_map_extends(new, old, old.sigs());
    lemma_term_map_extends(new, old, old.generic_counts());
    lemma_adts_extend(new, old);
}

} // verus!
