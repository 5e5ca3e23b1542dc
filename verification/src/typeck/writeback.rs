//! The end of checking: every recorded type is made final.

use crate::fxmap::{fx_get, fx_insert, fx_keys, fx_new, lookup};
use crate::infer::InferCtx;
use crate::span::Span;
use crate::ty::error::{Diagnostic, TypeError};
use crate::ty::kind::Ty;
use crate::ty::store::TyCtx;
use crate::ty::term::Term;
use crate::typeck::fcx::{
    adjustments_ok, adjustments_view, AdjView, Adjustment, FnCtx, FnView,
};
use crate::typeck::view::{
    diags_ok, diags_view, lemma_diags_extend, lemma_term_map_extends, map_ok, term_map, DiagView,
    ErrView,
};
use rustc_hash::FxHashMap;
use vstd::prelude::*;

verus! {

/// What checking one item leaves behind: the final type of every node, the
/// positions of the fields that nodes name, and the conversions that were
/// found.
pub struct TypeckTables {
    pub node_types: FxHashMap<usize, usize>,
    pub field_indices: FxHashMap<usize, usize>,
    pub adjustments: Vec<(usize, Adjustment)>,
}

/// The model of the tables.
pub struct TablesView {
    pub node_types: Map<usize, Term>,
    pub field_indices: Map<usize, usize>,
    pub adjustments: Seq<(usize, AdjView)>,
}

/// The final form of a type: the bindings applied, and every variable that
/// is still open replaced by the error sentinel.
pub open spec fn close(b: Seq<Option<Term>>, t: Term) -> Term {
    t.apply(b).erase_vars()
}

/// The complaints about the variables from `i` on that are still open: one
/// for each, at the place that the variable came from.
pub open spec fn ambiguities(b: Seq<Option<Term>>, origins: Seq<Span>, i: int) -> Seq<DiagView>
    decreases b.len() - i,
{
    if i < 0 || i >= b.len() || i >= origins.len() {
        Seq::empty()
    } else if b[i] is None {
        seq![DiagView { span: origins[i], related: None, error: ErrView::InferenceFailure }]
            + ambiguities(b, origins, i + 1)
    } else {
        ambiguities(b, origins, i + 1)
    }
}

/// The final tables of a checking context.
pub open spec fn resolve_tables(v: FnView) -> TablesView {
    TablesView {
        node_types: Map::new(
            |k: usize| v.node_types.contains_key(k),
            |k: usize| close(v.bindings, v.node_types[k]),
        ),
        field_indices: v.field_indices,
        adjustments: Seq::new(
            v.adjustments.len(),
            |i: int|
                (
                    v.adjustments[i].0,
                    AdjView {
                        ty: close(v.bindings, v.adjustments[i].1.ty),
                        kind: v.adjustments[i].1.kind,
                    },
                ),
        ),
    }
}

impl TypeckTables {
    pub open spec fn view_in(&self, tcx: &TyCtx) -> TablesView {
        TablesView {
            node_types: term_map(tcx, self.node_types@),
            field_indices: self.field_indices@,
            adjustments: adjustments_view(tcx, self.adjustments@),
        }
    }

    /// The tables speak of types of the store only.
    pub open spec fn wf(&self, tcx: &TyCtx) -> bool {
        &&& map_ok(tcx, self.node_types@)
        &&& adjustments_ok(tcx, self.adjustments@)
    }

    /// The type of a node, if it was recorded.
    pub fn node_type(&self, id: crate::ir::Id) -> (t: Option<Ty>)
        ensures
            t == match lookup(self.node_types@, id.local.0) {
                Some(h) => Some(Ty(h)),
                None => None,
            },
    {
        match fx_get(&self.node_types, id.local.0) {
            Some(h) => Some(Ty(h)),
            None => None,
        }
    }

    /// The position of the field that a node names, if it was recorded.
    pub fn field_index(&self, id: crate::ir::Id) -> (i: Option<usize>)
        ensures
            i == lookup(self.field_indices@, id.local.0),
    {
        fx_get(&self.field_indices, id.local.0)
    }

    /// The first conversion of a node, if one was recorded.
    pub fn adjustment(&self, id: crate::ir::Id) -> (a: Option<Adjustment>)
        ensures
            a == first_adjustment(self.adjustments@, id.local.0, 0),
    {
        let mut i: usize = 0;
        while i < self.adjustments.len()
            invariant
                i <= self.adjustments@.len(),
                first_adjustment(self.adjustments@, id.local.0, 0) == first_adjustment(
                    self.adjustments@,
                    id.local.0,
                    i as int,
                ),
            decreases self.adjustments.len() - i,
        {
            if self.adjustments[i].0 == id.local.0 {
                return Some(self.adjustments[i].1);
            }
            i += 1;
        }
        None
    }
}

/// The first conversion of a node from a position on.
pub open spec fn first_adjustment(a: Seq<(usize, Adjustment)>, node: usize, from: int) -> Option<
    Adjustment,
>
    decreases a.len() - from,
{
    if from < 0 || from >= a.len() {
        None
    } else if a[from].0 == node {
        Some(a[from].1)
    } else {
        first_adjustment(a, node, from + 1)
    }
}

impl InferCtx {
    /// Makes the types of a table final.
    pub fn close_map(&mut self, m: &FxHashMap<usize, usize>) -> (r: FxHashMap<usize, usize>)
        requires
            old(self).wf(),
            map_ok(&old(self).tcx, m@),
        ensures
            final(self).wf(),
            final(self).extends(old(self)),
            final(self).vars@ == old(self).vars@,
            final(self).origins@ == old(self).origins@,
            final(self).bindings() == old(self).bindings(),
            map_ok(&final(self).tcx, r@),
            term_map(&final(self).tcx, r@) == Map::new(
                |k: usize| m@.contains_key(k),
                |k: usize| close(old(self).bindings(), old(self).tcx.term(Ty(m@[k]))),
            ),
    {
        let ghost pre = *self;
        let ghost b = pre.bindings();
        let keys = fx_keys(m);
        let mut r = fx_new();
        let mut i: usize = 0;
        proof {
            assert(self.origins@.take(pre.origins@.len() as int) =~= pre.origins@);
        }
        while i < keys.len()
            invariant
                i <= keys.len(),
                keys@.to_set() == m@.dom(),
                pre.wf(),
                map_ok(&pre.tcx, m@),
                b == pre.bindings(),
                self.wf(),
                self.extends(&pre),
                self.vars@ == pre.vars@,
                self.origins@ == pre.origins@,
                self.bindings() == b,
                map_ok(&self.tcx, r@),
                forall|k: usize| r@.contains_key(k) <==> exists|j: int| 0 <= j < i && keys@[j] == k,
                forall|k: usize|
                    r@.contains_key(k) ==> self.tcx.term(Ty(#[trigger] r@[k])) == close(
                        b,
                        pre.tcx.term(Ty(m@[k])),
                    ),
            decreases keys.len() - i,
        {
            let ghost mid = *self;
            let ghost before = r@;
            let k = keys[i];
            proof {
                assert(keys@.contains(k));
                assert(keys@.to_set().contains(k));
                assert(m@.contains_key(k));
                assert(pre.tcx.has(Ty(m@[k])));
                self.tcx.lemma_extends(&pre.tcx, Ty(m@[k]));
            }
            let h = match fx_get(m, k) {
                Some(h) => h,
                None => 0,
            };
            let closed = self.close_ty(Ty(h));
            let _ = fx_insert(&mut r, k, closed.0.0);
            proof {
                self.tcx.lemma_extends_trans(&mid.tcx, &pre.tcx);
                assert(self.origins@.take(pre.origins@.len() as int) =~= pre.origins@);
                assert forall|x: usize| r@.contains_key(x) implies self.tcx.has(
                    Ty(#[trigger] r@[x]),
                ) && self.tcx.term(Ty(r@[x])) == close(b, pre.tcx.term(Ty(m@[x]))) by {
                    if x != k {
                        assert(before.contains_key(x));
                        self.tcx.lemma_extends(&mid.tcx, Ty(before[x]));
                    }
                }
                assert forall|x: usize| r@.contains_key(x) <==> exists|j: int|
                    0 <= j < i + 1 && keys@[j] == x by {
                    if r@.contains_key(x) {
                        if x == k {
                            assert(keys@[i as int] == x);
                        } else {
                            assert(before.contains_key(x));
                            let j = choose|j: int| 0 <= j < i && keys@[j] == x;
                            assert(0 <= j < i + 1 && keys@[j] == x);
                        }
                    }
                    if exists|j: int| 0 <= j < i + 1 && keys@[j] == x {
                        let j = choose|j: int| 0 <= j < i + 1 && keys@[j] == x;
                        if j < i {
                            assert(before.contains_key(x));
                        }
                    }
                }
            }
            i += 1;
        }
        proof {
            assert forall|k: usize| r@.contains_key(k) <==> m@.contains_key(k) by {
                if r@.contains_key(k) {
                    let j = choose|j: int| 0 <= j < keys@.len() && keys@[j] == k;
                    assert(keys@.contains(k));
                    assert(keys@.to_set().contains(k));
                }
                if m@.contains_key(k) {
                    assert(keys@.to_set().contains(k));
                    assert(keys@.contains(k));
                }
            }
            assert(term_map(&self.tcx, r@) =~= Map::new(
                |k: usize| m@.contains_key(k),
                |k: usize| close(b, pre.tcx.term(Ty(m@[k]))),
            ));
        }
        r
    }

    /// Makes the types of the conversions final.
    pub fn close_adjustments(&mut self, a: &Vec<(usize, Adjustment)>) -> (r: Vec<(usize, Adjustment)>)
        requires
            old(self).wf(),
            adjustments_ok(&old(self).tcx, a@),
        ensures
            final(self).wf(),
            final(self).extends(old(self)),
            final(self).vars@ == old(self).vars@,
            final(self).origins@ == old(self).origins@,
            final(self).bindings() == old(self).bindings(),
            adjustments_ok(&final(self).tcx, r@),
            adjustments_view(&final(self).tcx, r@) == Seq::new(
                a@.len(),
                |i: int|
                    (
                        a@[i].0,
                        AdjView {
                            ty: close(old(self).bindings(), old(self).tcx.term(a@[i].1.ty)),
                            kind: a@[i].1.kind,
                        },
                    ),
            ),
    {
        let ghost pre = *self;
        let ghost b = pre.bindings();
        let mut r: Vec<(usize, Adjustment)> = Vec::new();
        let mut i: usize = 0;
        proof {
            assert(self.origins@.take(pre.origins@.len() as int) =~= pre.origins@);
        }
        while i < a.len()
            invariant
                i <= a.len(),
                r@.len() == i,
                pre.wf(),
                adjustments_ok(&pre.tcx, a@),
                b == pre.bindings(),
                self.wf(),
                self.extends(&pre),
                self.vars@ == pre.vars@,
                self.origins@ == pre.origins@,
                self.bindings() == b,
                adjustments_ok(&self.tcx, r@),
                forall|j: int|
                    0 <= j < i ==> (#[trigger] r@[j]).0 == a@[j].0 && r@[j].1.kind == a@[j].1.kind
                        && self.tcx.term(r@[j].1.ty) == close(b, pre.tcx.term(a@[j].1.ty)),
            decreases a.len() - i,
        {
            let ghost mid = *self;
            let ghost before = r@;
            let (node, adj) = a[i];
            proof {
                self.tcx.lemma_extends(&pre.tcx, adj.ty);
            }
            let closed = self.close_ty(adj.ty);
            r.push((node, Adjustment { ty: closed.0, kind: adj.kind }));
            proof {
                self.tcx.lemma_extends_trans(&mid.tcx, &pre.tcx);
                assert(self.origins@.take(pre.origins@.len() as int) =~= pre.origins@);
                assert forall|j: int| 0 <= j < i + 1 implies self.tcx.has((#[trigger] r@[j]).1.ty)
                    && r@[j].0 == a@[j].0 && r@[j].1.kind == a@[j].1.kind && self.tcx.term(
                    r@[j].1.ty,
                ) == close(b, pre.tcx.term(a@[j].1.ty)) by {
                    if j < i {
                        assert(r@[j] == before[j]);
                        self.tcx.lemma_extends(&mid.tcx, before[j].1.ty);
                    }
                }
            }
            i += 1;
        }
        proof {
            assert(adjustments_view(&self.tcx, r@) =~= Seq::new(
                a@.len(),
                |i: int|
                    (
                        a@[i].0,
                        AdjView { ty: close(b, pre.tcx.term(a@[i].1.ty)), kind: a@[i].1.kind },
                    ),
            ));
        }
        r
    }

    /// Complains about every variable that is still open.
    pub fn report_ambiguities(&self, errors: &mut Vec<Diagnostic>)
        requires
            self.wf(),
            diags_ok(&self.tcx, old(errors)@),
        ensures
            diags_ok(&self.tcx, final(errors)@),
            diags_view(&self.tcx, final(errors)@) == diags_view(&self.tcx, old(errors)@)
                + ambiguities(self.bindings(), self.origins@, 0),
    {
        let ghost start = errors@;
        let n = self.vars.len();
        let mut i: usize = n;
        let ghost b = self.bindings();
        proof {
            assert(diags_view(&self.tcx, errors@) + ambiguities(b, self.origins@, n as int)
                =~= diags_view(&self.tcx, errors@));
        }
        // the complaints are collected from the last variable down, and put
        // in front of each other
        let mut found: Vec<Diagnostic> = Vec::new();
        while i > 0
            invariant
                i <= n,
                n == self.vars@.len(),
                self.wf(),
                b == self.bindings(),
                diags_ok(&self.tcx, found@),
                diags_view(&self.tcx, found@).reverse() == ambiguities(b, self.origins@, i as int),
            decreases i,
        {
            i -= 1;
            let is_open = match self.vars[i] {
                Some(_) => false,
                None => true,
            };
            if is_open {
                let d = Diagnostic::new(self.origins[i], TypeError::InferenceFailure);
                let ghost before = found@;
                found.push(d);
                proof {
                    let dv = DiagView {
                        span: self.origins@[i as int],
                        related: None,
                        error: ErrView::InferenceFailure,
                    };
                    assert(diags_view(&self.tcx, found@) =~= diags_view(&self.tcx, before).push(dv));
                    assert(diags_view(&self.tcx, before).push(dv).reverse() =~= seq![dv]
                        + diags_view(&self.tcx, before).reverse());
                }
            }
        }
        let mut k: usize = found.len();
        let ghost all = diags_view(&self.tcx, found@).reverse();
        proof {
            assert(all.take(0) =~= Seq::<DiagView>::empty());
            assert(diags_view(&self.tcx, errors@) + all.take(0) =~= diags_view(&self.tcx, errors@));
        }
        while k > 0
            invariant
                k <= found@.len(),
                self.wf(),
                diags_ok(&self.tcx, found@),
                diags_ok(&self.tcx, errors@),
                all == diags_view(&self.tcx, found@).reverse(),
                diags_view(&self.tcx, errors@) == diags_view(&self.tcx, start) + all.take(
                    found@.len() - k,
                ),
            decreases k,
        {
            k -= 1;
            let ghost before = errors@;
            errors.push(found[k]);
            proof {
                let m = found@.len() - k - 1;
                assert(all[m] == diags_view(&self.tcx, found@)[k as int]);
                assert(all.take(m + 1) =~= all.take(m).push(all[m]));
                assert(diags_view(&self.tcx, errors@) =~= diags_view(&self.tcx, before).push(
                    all[m],
                ));
                assert(diags_view(&self.tcx, start) + all.take(m + 1) =~= (diags_view(
                    &self.tcx,
                    start,
                ) + all.take(m)).push(all[m]));
            }
        }
        proof {
            assert(all.take(found@.len() as int) =~= all);
        }
    }
}

/// What checking hands back: the store, the tables, and the complaints.
pub struct Checked {
    pub tcx: TyCtx,
    pub tables: TypeckTables,
    pub errors: Vec<Diagnostic>,
}

impl<'a> FnCtx<'a> {
    /// The terminal step: every type that was recorded gets its final form.
    /// A variable that is still open is complained about, and the error
    /// sentinel stands in for it.
    pub fn resolve_inference_variables(self) -> (r: Checked)
        requires
            self.wf(),
        ensures
            r.tcx.wf(),
            r.tcx.extends(&self.infcx.tcx),
            r.tables.wf(&r.tcx),
            diags_ok(&r.tcx, r.errors@),
            r.tables.view_in(&r.tcx) == resolve_tables(self@),
            diags_view(&r.tcx, r.errors@) == self@.errors + ambiguities(
                self@.bindings,
                self@.origins,
                0,
            ),
    {
        let ghost pre = self;
        let mut this = self;
        this.infcx.report_ambiguities(&mut this.errors);
        let node_types = this.infcx.close_map(&this.node_types);
        let ghost mid = this;
        let adjustments = this.infcx.close_adjustments(&this.adjustments);
        proof {
            lemma_term_map_extends(&this.infcx.tcx, &mid.infcx.tcx, node_types@);
            lemma_diags_extend(&mid.infcx.tcx, &pre.infcx.tcx, mid.errors@);
            lemma_diags_extend(&this.infcx.tcx, &mid.infcx.tcx, mid.errors@);
            this.infcx.tcx.lemma_extends_trans(&mid.infcx.tcx, &pre.infcx.tcx);
            assert(term_map(&this.infcx.tcx, node_types@) =~= resolve_tables(pre@).node_types);
            assert forall|i: int| 0 <= i < pre.adjustments@.len() implies mid.infcx.tcx.term(
                (#[trigger] pre.adjustments@[i]).1.ty,
            ) == pre.infcx.tcx.term(pre.adjustments@[i].1.ty) by {
                mid.infcx.tcx.lemma_extends(&pre.infcx.tcx, pre.adjustments@[i].1.ty);
            }
            assert(adjustments_view(&this.infcx.tcx, adjustments@) =~= resolve_tables(
                pre@,
            ).adjustments);
        }
        Checked {
            tcx: this.infcx.tcx,
            tables: TypeckTables { node_types, field_indices: this.field_indices, adjustments },
            errors: this.errors,
        }
    }
}

} // verus!
