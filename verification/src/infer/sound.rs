//! Unification is sound: the bindings that a successful `equate` leaves
//! make both sides the same tree.
//!
//! The bindings are kept resolved: no bound variable occurs in a bound
//! tree. The empty list is resolved, a fresh variable keeps a list
//! resolved, and so does every successful `equate`.

use crate::index::TyVid;
use crate::infer::unify::{
    apply_work, arg_pairs, bind, equate_spec, lemma_bind_unbound, lemma_decompose_size, open_var, solve,
    step_binding, unbound_count, work_size,
};
use crate::ty::kind::{InferTy, Node, Ty, TyCon};
use crate::ty::store::{lemma_term_unfold, nodes_wf, term_of};
use crate::ty::term::Term;
use vstd::prelude::*;

verus! {

/// Whether the variable has a slot and is bound.
pub open spec fn is_bound(b: Seq<Option<Term>>, v: TyVid) -> bool {
    v.0 < b.len() && b[v.0 as int] is Some
}

/// Whether every inference variable of the tree is a leaf.
pub open spec fn shaped(t: Term) -> bool
    decreases t,
{
    &&& t.con is Infer ==> t.args.len() == 0
    &&& forall|i: int| 0 <= i < t.args.len() ==> shaped(#[trigger] t.args[i])
}

/// Whether the tree is shaped and no bound variable occurs in it.
pub open spec fn clean(t: Term, b: Seq<Option<Term>>) -> bool
    decreases t,
{
    match t.con {
        TyCon::Infer(InferTy::TyVar(v)) => t.args.len() == 0 && !is_bound(b, v),
        _ => forall|i: int| 0 <= i < t.args.len() ==> clean(#[trigger] t.args[i], b),
    }
}

/// Whether the bindings are resolved: every bound tree is clean.
pub open spec fn resolved(b: Seq<Option<Term>>) -> bool {
    forall|u: int| 0 <= u < b.len() && (#[trigger] b[u]) is Some ==> clean(b[u]->Some_0, b)
}

/// Whether both sides of every pair are clean.
pub open spec fn work_clean(w: Seq<(Term, Term)>, b: Seq<Option<Term>>) -> bool {
    forall|i: int| 0 <= i < w.len() ==> clean((#[trigger] w[i]).0, b) && clean(w[i].1, b)
}

/// Whether the bindings make both sides of every pair the same tree.
pub open spec fn unified(w: Seq<(Term, Term)>, b: Seq<Option<Term>>) -> bool {
    forall|i: int| 0 <= i < w.len() ==> (#[trigger] w[i]).0.apply(b) == w[i].1.apply(b)
}

/// The bindings leave a clean tree as it is.
pub proof fn lemma_clean_fixed(t: Term, b: Seq<Option<Term>>)
    requires
        clean(t, b),
    ensures
        t.apply(b) == t,
    decreases t,
{
    match t.con {
        TyCon::Infer(InferTy::TyVar(v)) => {},
        _ => {
            assert forall|i: int| 0 <= i < t.args.len() implies (#[trigger] t.args[i]).apply(b)
                == t.args[i] by {
                lemma_clean_fixed(t.args[i], b);
            }
            assert(t.apply(b).args =~= t.args);
        },
    }
}

/// Resolved bindings make a shaped tree clean.
pub proof fn lemma_apply_clean(t: Term, b: Seq<Option<Term>>)
    requires
        resolved(b),
        shaped(t),
    ensures
        clean(t.apply(b), b),
    decreases t,
{
    match t.con {
        TyCon::Infer(InferTy::TyVar(v)) => {
            if is_bound(b, v) {
                assert(b[v.0 as int] is Some);
            }
        },
        _ => {
            assert forall|i: int| 0 <= i < t.apply(b).args.len() implies clean(
                #[trigger] t.apply(b).args[i],
                b,
            ) by {
                lemma_apply_clean(t.args[i], b);
            }
        },
    }
}

/// A tree that is clean stays clean when a variable that it does not
/// mention is bound.
pub proof fn lemma_clean_bind(t: Term, b: Seq<Option<Term>>, v: TyVid, x: Term)
    requires
        clean(t, b),
        !t.mentions(v),
        v.0 < b.len(),
    ensures
        clean(t, bind(b, v, x)),
        t.apply(b.update(v.0 as int, Some(x))) == t,
    decreases t,
{
    let b1 = b.update(v.0 as int, Some(x));
    match t.con {
        TyCon::Infer(InferTy::TyVar(u)) => {
            assert(u != v);
        },
        _ => {
            assert forall|i: int| 0 <= i < t.args.len() implies clean(
                #[trigger] t.args[i],
                bind(b, v, x),
            ) && t.args[i].apply(b1) == t.args[i] by {
                assert(!t.args[i].mentions(v));
                lemma_clean_bind(t.args[i], b, v, x);
            }
            assert(t.apply(b1).args =~= t.args);
        },
    }
}

/// In a clean tree the new binding does what the bindings with it do,
/// and what comes out is clean.
pub proof fn lemma_bind_clean(s: Term, b: Seq<Option<Term>>, v: TyVid, t: Term)
    requires
        clean(s, b),
        clean(t, b),
        !t.mentions(v),
        v.0 < b.len(),
        b[v.0 as int] is None,
    ensures
        s.apply(b.update(v.0 as int, Some(t))) == s.apply(bind(b, v, t)),
        clean(s.apply(bind(b, v, t)), bind(b, v, t)),
    decreases s,
{
    let b1 = b.update(v.0 as int, Some(t));
    let nb = bind(b, v, t);
    match s.con {
        TyCon::Infer(InferTy::TyVar(u)) => {
            if u == v {
                lemma_clean_bind(t, b, v, t);
                assert(nb[v.0 as int] == Some(t.apply(b1)));
            } else {
                if u.0 < b.len() {
                    assert(nb[u.0 as int] is None);
                }
            }
        },
        _ => {
            assert forall|i: int| 0 <= i < s.args.len() implies (#[trigger] s.args[i]).apply(b1)
                == s.args[i].apply(nb) && clean(s.args[i].apply(nb), nb) by {
                lemma_bind_clean(s.args[i], b, v, t);
            }
            assert(s.apply(b1).args =~= s.apply(nb).args);
            assert forall|i: int| 0 <= i < s.apply(nb).args.len() implies clean(
                #[trigger] s.apply(nb).args[i],
                nb,
            ) by {
                assert(s.apply(nb).args[i] == s.args[i].apply(nb));
            }
        },
    }
}

/// Binding an open variable to a clean tree that does not mention it
/// keeps the bindings resolved.
pub proof fn lemma_bind_resolved(b: Seq<Option<Term>>, v: TyVid, t: Term)
    requires
        resolved(b),
        clean(t, b),
        !t.mentions(v),
        v.0 < b.len(),
        b[v.0 as int] is None,
    ensures
        resolved(bind(b, v, t)),
        bind(b, v, t).len() == b.len(),
        bind(b, v, t)[v.0 as int] == Some(t),
{
    let b1 = b.update(v.0 as int, Some(t));
    let nb = bind(b, v, t);
    assert forall|u: int| 0 <= u < nb.len() && (#[trigger] nb[u]) is Some implies clean(
        nb[u]->Some_0,
        nb,
    ) by {
        let x = b1[u]->Some_0;
        if u != v.0 {
            assert(b[u] is Some);
        }
        lemma_bind_clean(x, b, v, t);
        assert(nb[u] == Some(x.apply(b1)));
    }
    lemma_clean_bind(t, b, v, t);
}

/// The bindings with one more variable bound do to a tree what they do
/// to the tree under the bindings of before.
pub proof fn lemma_bind_refines(s: Term, b: Seq<Option<Term>>, v: TyVid, t: Term)
    requires
        resolved(b),
        clean(t, b),
        !t.mentions(v),
        v.0 < b.len(),
        b[v.0 as int] is None,
    ensures
        s.apply(bind(b, v, t)) == s.apply(b).apply(bind(b, v, t)),
    decreases s,
{
    let b1 = b.update(v.0 as int, Some(t));
    let nb = bind(b, v, t);
    match s.con {
        TyCon::Infer(InferTy::TyVar(u)) => {
            if is_bound(b, u) {
                let x = b[u.0 as int]->Some_0;
                assert(b[u.0 as int] is Some);
                assert(nb[u.0 as int] == Some(x.apply(b1)));
                lemma_bind_clean(x, b, v, t);
            }
        },
        _ => {
            assert forall|i: int| 0 <= i < s.args.len() implies (#[trigger] s.args[i]).apply(nb)
                == s.args[i].apply(b).apply(nb) by {
                lemma_bind_refines(s.args[i], b, v, t);
            }
            assert(s.apply(nb).args =~= s.apply(b).apply(nb).args);
        },
    }
}

/// What a pair of different clean trees asks to bind is an open variable
/// and the clean tree on the other side, and the variable is the leaf on
/// its own side.
pub proof fn lemma_step_binding(b: Seq<Option<Term>>, x: Term, y: Term)
    requires
        clean(x, b),
        clean(y, b),
    ensures
        step_binding(b, x, y) matches Some((v, t)) ==> v.0 < b.len() && b[v.0 as int] is None && clean(
            t,
            b,
        ) && ((x == Term::leaf(TyCon::Infer(InferTy::TyVar(v))) && t == y) || (y == Term::leaf(
            TyCon::Infer(InferTy::TyVar(v)),
        ) && t == x)),
{
    match open_var(b, x) {
        Some(v) => {
            assert(x.args =~= Seq::<Term>::empty());
        },
        None => {},
    }
    match open_var(b, y) {
        Some(w) => {
            assert(y.args =~= Seq::<Term>::empty());
        },
        None => {},
    }
}

/// The pairs under resolved bindings are clean.
pub proof fn lemma_apply_work_clean(w: Seq<(Term, Term)>, b: Seq<Option<Term>>, v: TyVid, t: Term)
    requires
        work_clean(w, b),
        resolved(b),
        clean(t, b),
        !t.mentions(v),
        v.0 < b.len(),
        b[v.0 as int] is None,
    ensures
        work_clean(apply_work(w, bind(b, v, t)), bind(b, v, t)),
{
    let nb = bind(b, v, t);
    assert forall|i: int| 0 <= i < w.len() implies clean((#[trigger] apply_work(w, nb)[i]).0, nb)
        && clean(apply_work(w, nb)[i].1, nb) by {
        assert(clean(w[i].0, b) && clean(w[i].1, b));
        lemma_bind_clean(w[i].0, b, v, t);
        lemma_bind_clean(w[i].1, b, v, t);
    }
}

/// The arguments of two clean trees are clean.
pub proof fn lemma_decompose_clean(rest: Seq<(Term, Term)>, x: Term, y: Term, b: Seq<Option<Term>>)
    requires
        work_clean(rest, b),
        clean(x, b),
        clean(y, b),
        x.con == y.con,
        x.args.len() == y.args.len(),
    ensures
        work_clean(rest + arg_pairs(x.args, y.args, 0), b),
{
    let w = rest + arg_pairs(x.args, y.args, 0);
    assert forall|i: int| 0 <= i < w.len() implies clean((#[trigger] w[i]).0, b) && clean(w[i].1, b) by {
        if i < rest.len() {
            assert(w[i] == rest[i]);
        } else {
            let k = i - rest.len();
            let j = x.args.len() - 1 - k;
            assert(w[i] == (x.args[j], y.args[j]));
            assert(clean(x.args[j], b));
            assert(clean(y.args[j], b));
        }
    }
}

/// The bindings that solving leaves do to a tree what they do to the tree
/// under the bindings of before: solving only adds to what is known.
pub proof fn lemma_solve_refines(b: Seq<Option<Term>>, w: Seq<(Term, Term)>, s: Term)
    requires
        resolved(b),
        work_clean(w, b),
    ensures
        solve(b, w) matches Some(b2) ==> s.apply(b2) == s.apply(b).apply(b2),
    decreases unbound_count(b), work_size(w),
{
    if w.len() == 0 {
        lemma_apply_twice(s, b);
    } else {
        let x = w.last().0;
        let y = w.last().1;
        let rest = w.drop_last();
        assert(clean(x, b) && clean(y, b));
        assert(work_clean(rest, b)) by {
            assert forall|i: int| 0 <= i < rest.len() implies clean((#[trigger] rest[i]).0, b) && clean(
                rest[i].1,
                b,
            ) by {
                assert(rest[i] == w[i]);
            }
        }
        if x == y {
            lemma_solve_refines(b, rest, s);
        } else {
            lemma_step_binding(b, x, y);
            match step_binding(b, x, y) {
                Some((v, t)) => {
                    if !t.mentions(v) {
                        let nb = bind(b, v, t);
                        lemma_bind_unbound(b, v, t);
                        lemma_bind_resolved(b, v, t);
                        lemma_apply_work_clean(rest, b, v, t);
                        lemma_solve_refines(nb, apply_work(rest, nb), s);
                        lemma_solve_refines(nb, apply_work(rest, nb), s.apply(b));
                        lemma_bind_refines(s, b, v, t);
                    }
                },
                None => {
                    if open_var(b, x) is None && open_var(b, y) is None && x.con == y.con
                        && x.args.len() == y.args.len() {
                        lemma_decompose_size(rest, x, y);
                        assert(rest.push((x, y)) =~= w);
                        lemma_decompose_clean(rest, x, y, b);
                        lemma_solve_refines(b, rest + arg_pairs(x.args, y.args, 0), s);
                    }
                },
            }
        }
    }
}

/// Resolved bindings, done twice, do what they do once.
pub proof fn lemma_apply_twice(s: Term, b: Seq<Option<Term>>)
    requires
        resolved(b),
    ensures
        s.apply(b).apply(b) == s.apply(b),
    decreases s,
{
    match s.con {
        TyCon::Infer(InferTy::TyVar(u)) => {
            if is_bound(b, u) {
                assert(b[u.0 as int] is Some);
                lemma_clean_fixed(b[u.0 as int]->Some_0, b);
            }
        },
        _ => {
            assert forall|i: int| 0 <= i < s.args.len() implies (#[trigger] s.args[i]).apply(b).apply(b)
                == s.args[i].apply(b) by {
                lemma_apply_twice(s.args[i], b);
            }
            assert(s.apply(b).apply(b).args =~= s.apply(b).args);
        },
    }
}

/// Solving is sound: the bindings that it leaves are resolved, bind the
/// variables of before and no others, and make both sides of every pair
/// the same tree.
pub proof fn lemma_solve_sound(b: Seq<Option<Term>>, w: Seq<(Term, Term)>)
    requires
        resolved(b),
        work_clean(w, b),
    ensures
        solve(b, w) matches Some(b2) ==> b2.len() == b.len() && resolved(b2) && unified(w, b2),
    decreases unbound_count(b), work_size(w),
{
    if w.len() > 0 {
        let x = w.last().0;
        let y = w.last().1;
        let rest = w.drop_last();
        assert(clean(x, b) && clean(y, b));
        assert(work_clean(rest, b)) by {
            assert forall|i: int| 0 <= i < rest.len() implies clean((#[trigger] rest[i]).0, b) && clean(
                rest[i].1,
                b,
            ) by {
                assert(rest[i] == w[i]);
            }
        }
        if x == y {
            lemma_solve_sound(b, rest);
            if let Some(b2) = solve(b, w) {
                assert forall|i: int| 0 <= i < w.len() implies (#[trigger] w[i]).0.apply(b2)
                    == w[i].1.apply(b2) by {
                    if i < rest.len() {
                        assert(w[i] == rest[i]);
                    }
                }
            }
        } else {
            lemma_step_binding(b, x, y);
            match step_binding(b, x, y) {
                Some((v, t)) => {
                    if !t.mentions(v) {
                        let nb = bind(b, v, t);
                        let work = apply_work(rest, nb);
                        lemma_bind_unbound(b, v, t);
                        lemma_bind_resolved(b, v, t);
                        lemma_apply_work_clean(rest, b, v, t);
                        lemma_solve_sound(nb, work);
                        if let Some(b2) = solve(nb, work) {
                            assert forall|i: int| 0 <= i < w.len() implies (#[trigger] w[i]).0.apply(b2)
                                == w[i].1.apply(b2) by {
                                if i < rest.len() {
                                    assert(w[i] == rest[i]);
                                    assert(work[i] == (rest[i].0.apply(nb), rest[i].1.apply(nb)));
                                    lemma_solve_refines(nb, work, rest[i].0);
                                    lemma_solve_refines(nb, work, rest[i].1);
                                } else {
                                    let var = Term::leaf(TyCon::Infer(InferTy::TyVar(v)));
                                    lemma_solve_refines(nb, work, var);
                                    assert(var.apply(nb) == t);
                                    lemma_solve_refines(nb, work, t);
                                    lemma_clean_bind(t, b, v, t);
                                    lemma_clean_fixed(t, nb);
                                }
                            }
                        }
                    }
                },
                None => {
                    if open_var(b, x) is None && open_var(b, y) is None && x.con == y.con
                        && x.args.len() == y.args.len() {
                        lemma_decompose_size(rest, x, y);
                        assert(rest.push((x, y)) =~= w);
                        lemma_decompose_clean(rest, x, y, b);
                        let next = rest + arg_pairs(x.args, y.args, 0);
                        lemma_solve_sound(b, next);
                        if let Some(b2) = solve(b, next) {
                            assert forall|i: int| 0 <= i < w.len() implies (#[trigger] w[i]).0.apply(b2)
                                == w[i].1.apply(b2) by {
                                if i < rest.len() {
                                    assert(w[i] == rest[i]);
                                    assert(next[i] == rest[i]);
                                } else {
                                    assert forall|j: int| 0 <= j < x.args.len() implies (
                                    #[trigger] x.args[j]).apply(b2) == y.args[j].apply(b2) by {
                                        let k = x.args.len() - 1 - j;
                                        assert(next[rest.len() + k] == (x.args[j], y.args[j]));
                                    }
                                    match x.con {
                                        TyCon::Infer(InferTy::TyVar(u)) => {
                                            assert(x.args =~= y.args);
                                        },
                                        _ => {
                                            assert(x.apply(b2).args =~= y.apply(b2).args);
                                        },
                                    }
                                }
                            }
                        }
                    }
                },
            }
        }
    }
}

/// Unification is sound: where `equate` succeeds on shaped trees, with
/// neither side holding the error sentinel, the bindings that it leaves
/// make both sides the same tree; and they are resolved again.
pub proof fn lemma_equate_unifies(b: Seq<Option<Term>>, x: Term, y: Term)
    requires
        resolved(b),
        shaped(x),
        shaped(y),
    ensures
        equate_spec(b, x, y) matches Some(b2) ==> {
            &&& b2.len() == b.len()
            &&& resolved(b2)
            &&& !x.apply(b).has_error() && !y.apply(b).has_error() ==> x.apply(b2) == y.apply(b2)
        },
{
    if !(x.apply(b).has_error() || y.apply(b).has_error()) {
        let w = seq![(x.apply(b), y.apply(b))];
        lemma_apply_clean(x, b);
        lemma_apply_clean(y, b);
        lemma_solve_sound(b, w);
        lemma_solve_refines(b, w, x);
        lemma_solve_refines(b, w, y);
        if let Some(b2) = solve(b, w) {
            assert(w[0].0.apply(b2) == w[0].1.apply(b2));
        }
    }
}

/// A clean tree is clean under bindings that bind no other variable.
pub proof fn lemma_clean_same_bound(t: Term, b: Seq<Option<Term>>, b2: Seq<Option<Term>>)
    requires
        clean(t, b),
        forall|v: TyVid| #[trigger] is_bound(b2, v) ==> is_bound(b, v),
    ensures
        clean(t, b2),
    decreases t,
{
    match t.con {
        TyCon::Infer(InferTy::TyVar(v)) => {
            assert(is_bound(b2, v) ==> is_bound(b, v));
        },
        _ => {
            assert forall|i: int| 0 <= i < t.args.len() implies clean(#[trigger] t.args[i], b2) by {
                lemma_clean_same_bound(t.args[i], b, b2);
            }
        },
    }
}

/// Fresh variables keep bindings resolved; and bindings without a slot
/// are resolved.
pub proof fn lemma_fresh_resolved(b: Seq<Option<Term>>, n: nat)
    requires
        resolved(b),
    ensures
        resolved(b + Seq::new(n, |i: int| None::<Term>)),
        resolved(Seq::<Option<Term>>::empty()),
{
    let nb = b + Seq::new(n, |i: int| None::<Term>);
    assert forall|v: TyVid| #[trigger] is_bound(nb, v) implies is_bound(b, v) by {
        if v.0 >= b.len() {
            assert(nb[v.0 as int] is None);
        } else {
            assert(nb[v.0 as int] == b[v.0 as int]);
        }
    }
    assert forall|u: int| 0 <= u < nb.len() && (#[trigger] nb[u]) is Some implies clean(
        nb[u]->Some_0,
        nb,
    ) by {
        if u < b.len() {
            assert(nb[u] == b[u]);
            assert(b[u] is Some);
            lemma_clean_same_bound(b[u]->Some_0, b, nb);
        }
    }
}

/// The tree of a handle of a well-formed store is shaped.
pub proof fn lemma_term_shaped(nodes: Seq<Node>, t: Ty)
    requires
        nodes_wf(nodes),
        t.0 < nodes.len(),
    ensures
        shaped(term_of(nodes, t)),
    decreases t.0,
{
    lemma_term_unfold(nodes, t);
    let n = nodes[t.0 as int];
    assert(n.con.arity_ok(n.args.len()));
    assert forall|i: int| 0 <= i < term_of(nodes, t).args.len() implies shaped(
        #[trigger] term_of(nodes, t).args[i],
    ) by {
        assert(n.args[i].0 < t.0);
        lemma_term_shaped(nodes, n.args[i]);
    }
}

} // verus!
