//! The inference context: inference variables, unification, instantiation
//! and the final resolution of variables.

pub mod sound;
pub mod unify;

use crate::index::TyVid;
use crate::infer::unify::{
    apply_work, arg_pairs, bind, equate_spec, equate_ty, lemma_bind_unbound,
    lemma_decompose_size, open_var, solve, step_binding, unbound_count, work_size, younger,
};
use crate::infer::sound::{lemma_equate_unifies, lemma_fresh_resolved, lemma_term_shaped, resolved};
use crate::span::Span;
use crate::ty::error::TypeMismatch;
use crate::ty::kind::{Forall, InferTy, Ty, TyCon};
use crate::ty::store::{copy_tys, TyCtx};
use crate::ty::subst::TypeFolder;
use crate::ty::term::Term;
use vstd::prelude::*;

verus! {

/// The state of inference for one item: the type store, and for every
/// inference variable where it came from and what it is bound to, if it is
/// bound.
pub struct InferCtx {
    pub tcx: TyCtx,
    pub vars: Vec<Option<Ty>>,
    pub origins: Vec<Span>,
}

/// The trees of a stack of pairs of handles.
pub open spec fn pairs_of(tcx: &TyCtx, w: Seq<(Ty, Ty)>) -> Seq<(Term, Term)> {
    Seq::new(w.len(), |i: int| (tcx.term(w[i].0), tcx.term(w[i].1)))
}

/// Whether every handle of the stack names a slot of the store.
pub open spec fn has_pairs(tcx: &TyCtx, w: Seq<(Ty, Ty)>) -> bool {
    forall|i: int| 0 <= i < w.len() ==> tcx.has((#[trigger] w[i]).0) && tcx.has(w[i].1)
}

pub proof fn lemma_extends_pairs(new: &TyCtx, old: &TyCtx, w: Seq<(Ty, Ty)>)
    requires
        new.extends(old),
        has_pairs(old, w),
    ensures
        has_pairs(new, w),
        pairs_of(new, w) == pairs_of(old, w),
{
    assert forall|i: int| 0 <= i < w.len() implies new.has((#[trigger] w[i]).0) && new.has(w[i].1)
        && new.term(w[i].0) == old.term(w[i].0) && new.term(w[i].1) == old.term(w[i].1) by {
        new.lemma_extends(old, w[i].0);
        new.lemma_extends(old, w[i].1);
    }
    assert(pairs_of(new, w) =~= pairs_of(old, w));
}

/// The fresh variables of an instantiation: `n` of them, from `first` on.
pub open spec fn fresh_vars(first: nat, n: nat) -> Seq<Term> {
    Seq::new(n, |i: int| Term::leaf(TyCon::Infer(InferTy::TyVar(TyVid((first + i) as usize)))))
}

/// Fresh instantiation: the variables of two instantiations in a row are
/// all different, whatever the schemes.
pub proof fn lemma_fresh_vars_distinct(first: nat, n: nat, m: nat)
    requires
        first + n + m <= usize::MAX,
    ensures
        forall|i: int, j: int|
            0 <= i < n && 0 <= j < m ==> #[trigger] fresh_vars(first, n)[i] != #[trigger] fresh_vars(
                first + n,
                m,
            )[j],
        forall|i: int, j: int|
            0 <= i < j < n ==> #[trigger] fresh_vars(first, n)[i] != #[trigger] fresh_vars(
                first,
                n,
            )[j],
{
}

/// A copy of a list of bindings.
fn copy_bindings(b: &Vec<Option<Ty>>) -> (r: Vec<Option<Ty>>)
    ensures
        r@ == b@,
{
    let mut r: Vec<Option<Ty>> = Vec::new();
    let mut i: usize = 0;
    while i < b.len()
        invariant
            i <= b.len(),
            r@ == b@.take(i as int),
        decreases b.len() - i,
    {
        let x: Option<Ty> = match b[i] {
            Some(t) => Some(t),
            None => None,
        };
        r.push(x);
        assert(b@.take(i + 1) == b@.take(i as int).push(b@[i as int]));
        i += 1;
    }
    assert(b@.take(i as int) == b@);
    r
}

impl InferCtx {
    /// The invariant: the store is well formed and every binding names a
    /// type of it.
    pub open spec fn wf(&self) -> bool {
        &&& self.tcx.wf()
        &&& self.tcx.has_bound(self.vars@)
        &&& self.origins@.len() == self.vars@.len()
    }

    /// What each variable is bound to, as a tree.
    pub open spec fn bindings(&self) -> Seq<Option<Term>> {
        self.tcx.bindings(self.vars@)
    }

    /// The tree of a handle.
    pub open spec fn term(&self, t: Ty) -> Term {
        self.tcx.term(t)
    }

    /// Whether no bound variable occurs in what a variable is bound to.
    /// A new context has this, and every operation keeps it.
    pub open spec fn resolved(&self) -> bool {
        resolved(self.bindings())
    }

    /// Whether the context is `old` after more work: the store has grown,
    /// and no variable was lost.
    pub open spec fn extends(&self, old: &InferCtx) -> bool {
        &&& self.tcx.extends(&old.tcx)
        &&& old.vars@.len() <= self.vars@.len()
        &&& self.origins@.take(old.origins@.len() as int) == old.origins@
    }

    /// A context without variables, over a store.
    pub fn new(tcx: TyCtx) -> (infcx: InferCtx)
        requires
            tcx.wf(),
        ensures
            infcx.wf(),
            infcx.tcx == tcx,
            infcx.vars@.len() == 0,
            infcx.resolved(),
    {
        let infcx = InferCtx { tcx, vars: Vec::new(), origins: Vec::new() };
        proof {
            assert(infcx.bindings() =~= Seq::<Option<Term>>::empty());
        }
        infcx
    }

    /// Gives the store back when inference is over.
    pub fn into_tcx(self) -> (tcx: TyCtx)
        ensures
            tcx == self.tcx,
    {
        self.tcx
    }

    /// Allocates a fresh unbound inference variable: its number is the
    /// number of variables there were.
    pub fn new_infer_var(&mut self, span: Span) -> (t: Ty)
        requires
            old(self).wf(),
        ensures
            final(self).wf(),
            final(self).extends(old(self)),
            final(self).tcx.has(t),
            final(self).term(t) == Term::leaf(
                TyCon::Infer(InferTy::TyVar(TyVid(old(self).vars@.len() as usize))),
            ),
            final(self).bindings() == old(self).bindings().push(None),
            final(self).vars@ == old(self).vars@.push(None),
            final(self).origins@ == old(self).origins@.push(span),
            old(self).resolved() ==> final(self).resolved(),
    {
        let ghost pre = *self;
        proof {
            if pre.resolved() {
                lemma_fresh_resolved(pre.bindings(), 1);
                assert(pre.bindings() + Seq::new(1, |i: int| None::<Term>) =~= pre.bindings().push(None));
            }
        }
        let vid = TyVid(self.vars.len());
        let t = self.tcx.mk_node(TyCon::Infer(InferTy::TyVar(vid)), Vec::new());
        self.vars.push(None);
        self.origins.push(span);
        proof {
            self.tcx.lemma_extends_bindings(&pre.tcx, pre.vars@);
            assert(self.bindings() =~= pre.bindings().push(None));
            assert(pre.tcx.terms(Seq::<Ty>::empty()) =~= Seq::<Term>::empty());
            assert(self.origins@.take(pre.origins@.len() as int) =~= pre.origins@);
        }
        t
    }

    /// The type with every bound variable replaced by its binding.
    pub fn resolve_ty(&mut self, t: Ty) -> (r: Ty)
        requires
            old(self).wf(),
            old(self).tcx.has(t),
        ensures
            final(self).wf(),
            final(self).extends(old(self)),
            final(self).vars@ == old(self).vars@,
            final(self).origins@ == old(self).origins@,
            final(self).bindings() == old(self).bindings(),
            final(self).tcx.has(r),
            final(self).term(r) == old(self).term(t).apply(old(self).bindings()),
    {
        let ghost pre = *self;
        let r = self.tcx.fold_ty(t, &TypeFolder::Vars(&self.vars));
        proof {
            self.tcx.lemma_extends_bindings(&pre.tcx, pre.vars@);
            assert(self.origins@.take(pre.origins@.len() as int) =~= pre.origins@);
        }
        r
    }

    /// Opens a universally quantified scheme: the body with the bound
    /// parameters replaced by fresh inference variables, one per parameter.
    /// A type that is no scheme is handed back as it is.
    pub fn instantiate(&mut self, span: Span, scheme: Ty) -> (r: Ty)
        requires
            old(self).wf(),
            old(self).tcx.has(scheme),
        ensures
            final(self).wf(),
            final(self).extends(old(self)),
            final(self).tcx.has(r),
            match old(self).term(scheme).con {
                TyCon::Scheme(forall) => {
                    &&& final(self).vars@.len() == old(self).vars@.len() + forall.binders
                    &&& final(self).bindings() == old(self).bindings() + Seq::new(
                        forall.binders as nat,
                        |i: int| None::<Term>,
                    )
                    &&& final(self).origins@ == old(self).origins@ + Seq::new(
                        forall.binders as nat,
                        |i: int| span,
                    )
                    &&& final(self).term(r) == old(self).term(scheme).args[0].subst(
                        fresh_vars(old(self).vars@.len() as nat, forall.binders as nat),
                    )
                },
                _ => {
                    &&& r == scheme
                    &&& final(self).vars@ == old(self).vars@
                    &&& final(self).origins@ == old(self).origins@
                    &&& final(self).bindings() == old(self).bindings()
                },
            },
            old(self).resolved() ==> final(self).resolved(),
    {
        let ghost pre = *self;
        proof {
            pre.tcx.lemma_args_valid(scheme);
            if pre.resolved() {
                match pre.term(scheme).con {
                    TyCon::Scheme(forall) => {
                        lemma_fresh_resolved(pre.bindings(), forall.binders as nat);
                    },
                    _ => {},
                }
            }
        }
        match self.tcx.con(scheme) {
            TyCon::Scheme(forall) => {
                let body = self.tcx.args(scheme)[0];
                let first = self.vars.len();
                let mut fresh: Vec<Ty> = Vec::new();
                let mut i: usize = 0;
                proof {
                    assert(self.origins@.take(pre.origins@.len() as int) =~= pre.origins@);
                    assert(self.bindings() =~= pre.bindings() + Seq::new(0, |k: int| None::<Term>));
                    assert(self.origins@ =~= pre.origins@ + Seq::new(0, |k: int| span));
                    assert(self.tcx.terms(fresh@) =~= fresh_vars(first as nat, 0));
                }
                while i < forall.binders
                    invariant
                        i <= forall.binders,
                        fresh@.len() == i,
                        self.wf(),
                        self.extends(&pre),
                        pre.wf(),
                        first == pre.vars@.len(),
                        self.vars@.len() == first + i,
                        self.tcx.has_all(fresh@),
                        self.bindings() == pre.bindings() + Seq::new(i as nat, |k: int| None::<Term>),
                        self.origins@ == pre.origins@ + Seq::new(i as nat, |k: int| span),
                        self.tcx.terms(fresh@) == fresh_vars(first as nat, i as nat),
                    decreases forall.binders - i,
                {
                    let ghost mid = *self;
                    let v = self.new_infer_var(span);
                    fresh.push(v);
                    proof {
                        self.tcx.lemma_extends_trans(&mid.tcx, &pre.tcx);
                        self.tcx.lemma_extends_all(&mid.tcx, fresh@.drop_last());
                        assert(self.tcx.terms(fresh@) =~= fresh_vars(first as nat, (i + 1) as nat)) by {
                            assert forall|k: int| 0 <= k < i + 1 implies self.tcx.terms(fresh@)[k]
                                == fresh_vars(first as nat, (i + 1) as nat)[k] by {
                                if k < i {
                                    assert(fresh@[k] == fresh@.drop_last()[k]);
                                    assert(self.tcx.terms(fresh@.drop_last())[k] == mid.tcx.terms(
                                        fresh@.drop_last(),
                                    )[k]);
                                    assert(mid.tcx.terms(fresh@.drop_last()) =~= fresh_vars(
                                        first as nat,
                                        i as nat,
                                    ));
                                }
                            }
                        }
                        assert(self.bindings() =~= pre.bindings() + Seq::new(
                            (i + 1) as nat,
                            |k: int| None::<Term>,
                        ));
                        assert(self.origins@ =~= pre.origins@ + Seq::new(
                            (i + 1) as nat,
                            |k: int| span,
                        ));
                        assert(self.origins@.take(pre.origins@.len() as int) =~= pre.origins@);
                    }
                    i += 1;
                }
                let ghost mid = *self;
                proof {
                    mid.tcx.lemma_extends(&pre.tcx, body);
                    mid.tcx.lemma_extends(&pre.tcx, scheme);
                    assert(pre.term(scheme).args[0] == pre.term(body));
                }
                let r = self.tcx.fold_ty(body, &TypeFolder::Params(&fresh));
                proof {
                    self.tcx.lemma_extends_trans(&mid.tcx, &pre.tcx);
                    self.tcx.lemma_extends_bindings(&mid.tcx, mid.vars@);
                }
                r
            },
            _ => {
                proof {
                    assert(self.origins@.take(pre.origins@.len() as int) =~= pre.origins@);
                }
                scheme
            },
        }
    }

    /// The final form of a type: every bound variable replaced by its
    /// binding, and every variable that is still open by the error
    /// sentinel. The flag says whether there was such a variable: then the
    /// type is ambiguous.
    pub fn close_ty(&mut self, t: Ty) -> (r: (Ty, bool))
        requires
            old(self).wf(),
            old(self).tcx.has(t),
        ensures
            final(self).wf(),
            final(self).extends(old(self)),
            final(self).vars@ == old(self).vars@,
            final(self).origins@ == old(self).origins@,
            final(self).bindings() == old(self).bindings(),
            final(self).tcx.has(r.0),
            final(self).term(r.0) == old(self).term(t).apply(old(self).bindings()).erase_vars(),
            r.1 == old(self).term(t).apply(old(self).bindings()).has_infer(),
    {
        let ghost pre = *self;
        let resolved = self.resolve_ty(t);
        let ghost mid = *self;
        let ambiguous = self.tcx.flags(resolved).has_infer();
        let r = self.tcx.fold_ty(resolved, &TypeFolder::Erase);
        proof {
            self.tcx.lemma_extends_trans(&mid.tcx, &pre.tcx);
            self.tcx.lemma_extends_bindings(&mid.tcx, mid.vars@);
            assert(self.origins@.take(pre.origins@.len() as int) =~= pre.origins@);
        }
        (r, ambiguous)
    }

    /// The variable that a constructor is, where it is one that has a slot
    /// and is still open.
    fn open_var_of(&self, con: TyCon) -> (r: Option<TyVid>)
        requires
            self.wf(),
        ensures
            forall|x: Term| x.con == con ==> r == #[trigger] open_var(self.bindings(), x),
    {
        match con {
            TyCon::Infer(InferTy::TyVar(v)) => {
                if v.0 < self.vars.len() {
                    match self.vars[v.0] {
                        Some(_) => None,
                        None => Some(v),
                    }
                } else {
                    None
                }
            },
            _ => None,
        }
    }

    /// Structural unification. Walks both types in lockstep: equal types
    /// are done, an open variable on either side is bound to the other
    /// side, two applications of one constructor to equally many arguments
    /// are unified argument by argument, from the left. Anything else is a
    /// mismatch: then no variable is bound, and the error carries both types
    /// as the bindings of before make them.
    pub fn equate(&mut self, span: Span, a: Ty, b: Ty) -> (r: Result<Ty, TypeMismatch>)
        requires
            old(self).wf(),
            old(self).tcx.has(a),
            old(self).tcx.has(b),
        ensures
            final(self).wf(),
            final(self).extends(old(self)),
            final(self).vars@.len() == old(self).vars@.len(),
            final(self).origins@ == old(self).origins@,
            match equate_spec(old(self).bindings(), old(self).term(a), old(self).term(b)) {
                Some(nb) => {
                    &&& r is Ok
                    &&& final(self).bindings() == nb
                    &&& final(self).tcx.has(r->Ok_0)
                    &&& final(self).term(r->Ok_0) == equate_ty(
                        old(self).bindings(),
                        old(self).term(a),
                        old(self).term(b),
                    )
                },
                None => {
                    &&& r is Err
                    &&& final(self).bindings() == old(self).bindings()
                    &&& final(self).vars@ == old(self).vars@
                    &&& r->Err_0.span == span
                    &&& final(self).tcx.has(r->Err_0.expected)
                    &&& final(self).tcx.has(r->Err_0.found)
                    &&& final(self).term(r->Err_0.expected) == old(self).term(a).apply(
                        old(self).bindings(),
                    )
                    &&& final(self).term(r->Err_0.found) == old(self).term(b).apply(
                        old(self).bindings(),
                    )
                },
            },
            old(self).resolved() ==> final(self).resolved(),
            r is Ok && old(self).resolved() && !old(self).term(a).apply(old(self).bindings()).has_error()
                && !old(self).term(b).apply(old(self).bindings()).has_error() ==> old(self).term(a).apply(
                final(self).bindings(),
            ) == old(self).term(b).apply(final(self).bindings()),
    {
        let ghost pre = *self;
        let ghost b0 = pre.bindings();
        proof {
            if pre.resolved() {
                lemma_term_shaped(pre.tcx.nodes(), a);
                lemma_term_shaped(pre.tcx.nodes(), b);
                lemma_equate_unifies(b0, pre.term(a), pre.term(b));
            }
        }
        let ra = self.resolve_ty(a);
        let ghost mid_a = *self;
        proof {
            mid_a.tcx.lemma_extends(&pre.tcx, b);
        }
        let rb = self.resolve_ty(b);
        let ghost start = *self;
        proof {
            start.tcx.lemma_extends(&mid_a.tcx, ra);
            start.tcx.lemma_extends_trans(&mid_a.tcx, &pre.tcx);
            start.tcx.lemma_extends(&pre.tcx, a);
        }
        let ghost xa = pre.term(a).apply(b0);
        let ghost ya = pre.term(b).apply(b0);
        assert(start.term(ra) == xa);
        assert(start.term(rb) == ya);
        if self.tcx.flags(ra).has_error() || self.tcx.flags(rb).has_error() {
            return Ok(self.tcx.types().error);
        }
        let saved = copy_bindings(&self.vars);
        let mut work: Vec<(Ty, Ty)> = Vec::new();
        work.push((ra, rb));
        let ghost w0 = seq![(xa, ya)];
        assert(pairs_of(&self.tcx, work@) =~= w0);
        let mut ok = true;
        while ok && work.len() > 0
            invariant
                self.wf(),
                self.tcx.extends(&start.tcx),
                self.vars@.len() == pre.vars@.len(),
                self.origins@ == pre.origins@,
                has_pairs(&self.tcx, work@),
                ok ==> solve(b0, w0) == solve(self.bindings(), pairs_of(&self.tcx, work@)),
                !ok ==> solve(b0, w0) is None,
            decreases unbound_count(self.bindings()), work_size(pairs_of(&self.tcx, work@)),
        {
            let ghost cur = *self;
            let ghost cur_b = self.bindings();
            let ghost cur_w = pairs_of(&self.tcx, work@);
            let ghost cur_work = work@;
            let (x, y) = work.pop().unwrap();
            let ghost tx = cur.term(x);
            let ghost ty = cur.term(y);
            let ghost rest = cur_w.drop_last();
            proof {
                assert(cur_work.last() == (x, y));
                assert(cur_w.last() == (tx, ty));
                assert(pairs_of(&self.tcx, work@) =~= rest);
                assert(work@ =~= cur_work.drop_last());
                assert(has_pairs(&self.tcx, work@)) by {
                    assert forall|i: int| 0 <= i < work@.len() implies self.tcx.has(
                        (#[trigger] work@[i]).0,
                    ) && self.tcx.has(work@[i].1) by {
                        assert(work@[i] == cur_work[i]);
                    }
                }
                assert(self.tcx.has(x) && self.tcx.has(y));
                assert(work_size(rest) < work_size(cur_w));
            }
            if x == y {
                continue ;
            }
            proof {
                if tx == ty {
                    self.tcx.lemma_canonical(x, y);
                }
            }
            let cx = self.tcx.con(x);
            let cy = self.tcx.con(y);
            let vx = self.open_var_of(cx);
            let vy = self.open_var_of(cy);
            proof {
                assert(vx == open_var(cur_b, tx));
                assert(vy == open_var(cur_b, ty));
            }
            let step: Option<(TyVid, Ty)> = match (vx, vy) {
                (Some(v), Some(w)) => if v.0 == w.0 {
                    None
                } else if v.0 > w.0 {
                    Some((v, y))
                } else {
                    Some((w, x))
                },
                (Some(v), None) => Some((v, y)),
                (None, Some(w)) => Some((w, x)),
                (None, None) => None,
            };
            proof {
                match step {
                    Some((v, t)) => {
                        assert(step_binding(cur_b, tx, ty) == Some((v, cur.term(t))));
                    },
                    None => {
                        assert(step_binding(cur_b, tx, ty) is None);
                    },
                }
            }
            match step {
                Some((v, t)) => {
                    if self.tcx.mentions_var(v, t) {
                        ok = false;
                    } else {
                        proof {
                            lemma_bind_unbound(cur_b, v, cur.term(t));
                        }
                        self.bind_var(v, t, &mut work);
                        proof {
                            self.tcx.lemma_extends_trans(&cur.tcx, &start.tcx);
                        }
                    }
                },
                None => {
                    let same_shape = vx.is_none() && vy.is_none() && cx == cy && self.tcx.args(
                        x,
                    ).len() == self.tcx.args(y).len();
                    proof {
                        self.tcx.lemma_args_valid(x);
                        self.tcx.lemma_args_valid(y);
                    }
                    if same_shape {
                        let xs = copy_tys(self.tcx.args(x));
                        let ys = copy_tys(self.tcx.args(y));
                        let n = xs.len();
                        let ghost rest_work = work@;
                        let mut j: usize = 0;
                        while j < n
                            invariant
                                j <= n,
                                n == xs@.len(),
                                n == ys@.len(),
                                self.tcx.has_all(xs@),
                                self.tcx.has_all(ys@),
                                work@ == rest_work + Seq::new(
                                    j as nat,
                                    |k: int| (xs@[n - 1 - k], ys@[n - 1 - k]),
                                ),
                            decreases n - j,
                        {
                            work.push((xs[n - 1 - j], ys[n - 1 - j]));
                            proof {
                                assert(work@ =~= rest_work + Seq::new(
                                    (j + 1) as nat,
                                    |k: int| (xs@[n - 1 - k], ys@[n - 1 - k]),
                                ));
                            }
                            j += 1;
                        }
                        proof {
                            lemma_decompose_size(rest, tx, ty);
                            assert(rest.push((tx, ty)) =~= cur_w);
                            assert(pairs_of(&self.tcx, work@) =~= rest + arg_pairs(
                                tx.args,
                                ty.args,
                                0,
                            ));
                        }
                    } else {
                        ok = false;
                    }
                },
            }
        }
        if ok {
            let ghost fin = *self;
            proof {
                assert(pairs_of(&self.tcx, work@) =~= Seq::<(Term, Term)>::empty());
                fin.tcx.lemma_extends_trans(&start.tcx, &pre.tcx);
                fin.tcx.lemma_extends(&pre.tcx, a);
            }
            let r = self.resolve_ty(a);
            proof {
                self.tcx.lemma_extends_trans(&fin.tcx, &pre.tcx);
                assert(self.origins@.take(pre.origins@.len() as int) =~= pre.origins@);
            }
            Ok(r)
        } else {
            let ghost fin = *self;
            self.vars = saved;
            proof {
                fin.tcx.lemma_extends_trans(&start.tcx, &pre.tcx);
                fin.tcx.lemma_extends_bindings(&pre.tcx, pre.vars@);
                fin.tcx.lemma_extends(&start.tcx, ra);
                fin.tcx.lemma_extends(&start.tcx, rb);
                assert(self.origins@.take(pre.origins@.len() as int) =~= pre.origins@);
            }
            Err(TypeMismatch { span, expected: ra, found: rb })
        }
    }

    /// Binds an open variable, and applies the new binding to every older
    /// one and to the pairs that wait.
    fn bind_var(&mut self, v: TyVid, t: Ty, work: &mut Vec<(Ty, Ty)>)
        requires
            old(self).wf(),
            v.0 < old(self).vars@.len(),
            old(self).vars@[v.0 as int] is None,
            old(self).tcx.has(t),
            has_pairs(&old(self).tcx, old(work)@),
        ensures
            final(self).wf(),
            final(self).tcx.extends(&old(self).tcx),
            final(self).vars@.len() == old(self).vars@.len(),
            final(self).origins@ == old(self).origins@,
            final(self).bindings() == bind(old(self).bindings(), v, old(self).term(t)),
            has_pairs(&final(self).tcx, final(work)@),
            pairs_of(&final(self).tcx, final(work)@) == apply_work(
                pairs_of(&old(self).tcx, old(work)@),
                final(self).bindings(),
            ),
    {
        let ghost pre = *self;
        let ghost pre_work = work@;
        self.vars.set(v.0, Some(t));
        let b1 = copy_bindings(&self.vars);
        let ghost b1t = pre.tcx.bindings(b1@);
        proof {
            assert(b1t =~= pre.bindings().update(v.0 as int, Some(pre.term(t))));
        }
        let n = b1.len();
        let mut u: usize = 0;
        while u < n
            invariant
                u <= n,
                n == b1@.len(),
                self.vars@.len() == n,
                self.origins@ == pre.origins@,
                self.tcx.wf(),
                self.tcx.extends(&pre.tcx),
                pre.tcx.has_bound(b1@),
                b1t == pre.tcx.bindings(b1@),
                self.tcx.has_bound(self.vars@),
                forall|k: int| u <= k < n ==> self.vars@[k] == b1@[k],
                forall|k: int|
                    0 <= k < u ==> ((#[trigger] self.vars@[k]) is Some) == (b1@[k] is Some),
                forall|k: int|
                    0 <= k < u && b1@[k] is Some ==> self.tcx.term(
                        (#[trigger] self.vars@[k])->Some_0,
                    ) == pre.tcx.term(b1@[k]->Some_0).apply(b1t),
            decreases n - u,
        {
            let ghost mid = *self;
            match b1[u] {
                Some(h) => {
                    proof {
                        mid.tcx.lemma_extends(&pre.tcx, h);
                        mid.tcx.lemma_extends_bindings(&pre.tcx, b1@);
                    }
                    let r = self.tcx.fold_ty(h, &TypeFolder::Vars(&b1));
                    self.vars.set(u, Some(r));
                    proof {
                        self.tcx.lemma_extends_trans(&mid.tcx, &pre.tcx);
                        assert forall|k: int|
                            0 <= k < self.vars@.len() && (
                            #[trigger] self.vars@[k]) is Some implies self.tcx.has(
                            self.vars@[k]->Some_0,
                        ) by {
                            if k != u {
                                assert(mid.vars@[k] is Some);
                                self.tcx.lemma_extends(&mid.tcx, mid.vars@[k]->Some_0);
                            }
                        }
                        assert forall|k: int| 0 <= k < u + 1 && b1@[k] is Some implies self.tcx.term(
                            (#[trigger] self.vars@[k])->Some_0,
                        ) == pre.tcx.term(b1@[k]->Some_0).apply(b1t) by {
                            if k != u {
                                assert(mid.vars@[k] is Some);
                                self.tcx.lemma_extends(&mid.tcx, mid.vars@[k]->Some_0);
                            }
                        }
                    }
                },
                None => {},
            }
            u += 1;
        }
        proof {
            assert(self.bindings() =~= bind(pre.bindings(), v, pre.term(t)));
        }
        let b2 = copy_bindings(&self.vars);
        let ghost mid0 = *self;
        let ghost nb = self.bindings();
        let m = work.len();
        let mut i: usize = 0;
        while i < m
            invariant
                i <= m,
                m == work@.len(),
                m == pre_work.len(),
                self.vars@ == mid0.vars@,
                b2@ == mid0.vars@,
                self.origins@ == pre.origins@,
                self.tcx.wf(),
                self.tcx.extends(&mid0.tcx),
                mid0.tcx.extends(&pre.tcx),
                mid0.tcx.has_bound(b2@),
                nb == mid0.tcx.bindings(b2@),
                has_pairs(&pre.tcx, pre_work),
                has_pairs(&self.tcx, work@),
                forall|k: int| i <= k < m ==> work@[k] == pre_work[k],
                forall|k: int|
                    0 <= k < i ==> self.tcx.term((#[trigger] work@[k]).0) == pre.tcx.term(
                        pre_work[k].0,
                    ).apply(nb) && self.tcx.term(work@[k].1) == pre.tcx.term(pre_work[k].1).apply(
                        nb,
                    ),
            decreases m - i,
        {
            let ghost mid = *self;
            let ghost mid_work = work@;
            let (x, y) = work[i];
            proof {
                mid.tcx.lemma_extends_bindings(&mid0.tcx, b2@);
                mid.tcx.lemma_extends_trans(&mid0.tcx, &pre.tcx);
                mid.tcx.lemma_extends(&pre.tcx, x);
                mid.tcx.lemma_extends(&pre.tcx, y);
            }
            let rx = self.tcx.fold_ty(x, &TypeFolder::Vars(&b2));
            let ghost mid2 = *self;
            proof {
                mid2.tcx.lemma_extends(&mid.tcx, y);
                mid2.tcx.lemma_extends_bindings(&mid.tcx, b2@);
            }
            let ry = self.tcx.fold_ty(y, &TypeFolder::Vars(&b2));
            work.set(i, (rx, ry));
            proof {
                self.tcx.lemma_extends_trans(&mid2.tcx, &mid.tcx);
                self.tcx.lemma_extends_trans(&mid.tcx, &mid0.tcx);
                self.tcx.lemma_extends(&mid2.tcx, rx);
                lemma_extends_pairs(&self.tcx, &mid.tcx, mid_work);
                assert forall|k: int| 0 <= k < work@.len() implies self.tcx.has(
                    (#[trigger] work@[k]).0,
                ) && self.tcx.has(work@[k].1) by {
                    if k != i {
                        assert(work@[k] == mid_work[k]);
                    }
                }
                assert forall|k: int| 0 <= k < i + 1 implies self.tcx.term(
                    (#[trigger] work@[k]).0,
                ) == pre.tcx.term(pre_work[k].0).apply(nb) && self.tcx.term(work@[k].1)
                    == pre.tcx.term(pre_work[k].1).apply(nb) by {
                    if k != i {
                        assert(work@[k] == mid_work[k]);
                        assert(pairs_of(&self.tcx, mid_work)[k] == pairs_of(&mid.tcx, mid_work)[k]);
                    }
                }
            }
            i += 1;
        }
        proof {
            self.tcx.lemma_extends_trans(&mid0.tcx, &pre.tcx);
            self.tcx.lemma_extends_bindings(&mid0.tcx, b2@);
            assert(pairs_of(&self.tcx, work@) =~= apply_work(pairs_of(&pre.tcx, pre_work), nb));
        }
    }
}

} // verus!
