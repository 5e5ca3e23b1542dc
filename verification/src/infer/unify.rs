//! Unification of trees, as mathematics: what `equate` computes.
//!
//! The state is a list of bindings, one slot per inference variable, and a
//! stack of pairs of trees still to be made equal. Bindings are kept
//! resolved: when a variable is bound, the new binding is applied to every
//! older one and to the pairs that wait.

use crate::index::TyVid;
use crate::ty::kind::{InferTy, TyCon};
use crate::ty::term::Term;
use vstd::prelude::*;

verus! {

/// The number of variables that are still open.
pub open spec fn unbound_count(b: Seq<Option<Term>>) -> nat
    decreases b.len(),
{
    if b.len() == 0 {
        0
    } else {
        unbound_count(b.drop_last()) + if b.last() is None {
            1nat
        } else {
            0nat
        }
    }
}

/// The sizes of the trees of a stack of pairs, added up.
pub open spec fn work_size(w: Seq<(Term, Term)>) -> nat
    decreases w.len(),
{
    if w.len() == 0 {
        0
    } else {
        work_size(w.drop_last()) + w.last().0.size() + w.last().1.size()
    }
}

/// The variable that a tree is, where it is one that has a slot and is
/// still open.
pub open spec fn open_var(b: Seq<Option<Term>>, x: Term) -> Option<TyVid> {
    match x.con {
        TyCon::Infer(InferTy::TyVar(v)) => if v.0 < b.len() && b[v.0 as int] is None {
            Some(v)
        } else {
            None
        },
        _ => None,
    }
}

/// The bindings with one more variable bound, and the new binding applied to
/// every bound tree.
pub open spec fn bind(b: Seq<Option<Term>>, v: TyVid, t: Term) -> Seq<Option<Term>> {
    let b1 = b.update(v.0 as int, Some(t));
    Seq::new(
        b.len(),
        |u: int|
            match b1[u] {
                Some(x) => Some(x.apply(b1)),
                None => None,
            },
    )
}

/// The pairs with the bindings applied to both sides.
pub open spec fn apply_work(w: Seq<(Term, Term)>, b: Seq<Option<Term>>) -> Seq<(Term, Term)> {
    Seq::new(w.len(), |i: int| (w[i].0.apply(b), w[i].1.apply(b)))
}

/// The arguments of two trees, paired position by position, from position
/// `from` on, the first of them on top of the stack.
pub open spec fn arg_pairs(xs: Seq<Term>, ys: Seq<Term>, from: nat) -> Seq<(Term, Term)> {
    Seq::new(
        (xs.len() - from) as nat,
        |k: int| (xs[xs.len() - 1 - k], ys[xs.len() - 1 - k]),
    )
}

/// Which variable is bound when two open variables meet: the younger one, to
/// the older one. The rule does not look at which side a variable came from.
pub open spec fn younger(v: TyVid, w: TyVid) -> bool {
    v.0 > w.0
}

pub proof fn lemma_unbound_update(b: Seq<Option<Term>>, v: int, t: Option<Term>)
    requires
        0 <= v < b.len(),
    ensures
        unbound_count(b.update(v, t)) + (if b[v] is None {
            1nat
        } else {
            0nat
        }) == unbound_count(b) + (if t is None {
            1nat
        } else {
            0nat
        }),
    decreases b.len(),
{
    let b2 = b.update(v, t);
    if v == b.len() - 1 {
        assert(b2.drop_last() =~= b.drop_last());
    } else {
        assert(b2.drop_last() =~= b.drop_last().update(v, t));
        lemma_unbound_update(b.drop_last(), v, t);
    }
}

/// Two lists that are open at the same slots have equally many open slots.
pub proof fn lemma_unbound_same_shape(a: Seq<Option<Term>>, b: Seq<Option<Term>>)
    requires
        a.len() == b.len(),
        forall|i: int| 0 <= i < a.len() ==> ((#[trigger] a[i]) is None) == (b[i] is None),
    ensures
        unbound_count(a) == unbound_count(b),
    decreases a.len(),
{
    if a.len() > 0 {
        assert(a.last() == a[a.len() - 1]);
        assert(b.last() == b[b.len() - 1]);
        assert forall|i: int| 0 <= i < a.drop_last().len() implies ((
        #[trigger] a.drop_last()[i]) is None) == (b.drop_last()[i] is None) by {
            assert(a.drop_last()[i] == a[i]);
        }
        lemma_unbound_same_shape(a.drop_last(), b.drop_last());
    }
}

/// Binding an open variable closes exactly one slot.
pub proof fn lemma_bind_unbound(b: Seq<Option<Term>>, v: TyVid, t: Term)
    requires
        v.0 < b.len(),
        b[v.0 as int] is None,
    ensures
        unbound_count(bind(b, v, t)) + 1 == unbound_count(b),
        bind(b, v, t).len() == b.len(),
{
    let b1 = b.update(v.0 as int, Some(t));
    lemma_unbound_update(b, v.0 as int, Some(t));
    lemma_unbound_same_shape(bind(b, v, t), b1);
}

pub proof fn lemma_work_size_concat(a: Seq<(Term, Term)>, b: Seq<(Term, Term)>)
    ensures
        work_size(a + b) == work_size(a) + work_size(b),
    decreases b.len(),
{
    if b.len() == 0 {
        assert(a + b =~= a);
    } else {
        assert((a + b).drop_last() =~= a + b.drop_last());
        assert((a + b).last() == b.last());
        lemma_work_size_concat(a, b.drop_last());
    }
}

pub proof fn lemma_arg_pairs_size(xs: Seq<Term>, ys: Seq<Term>, from: nat)
    requires
        xs.len() == ys.len(),
        from <= xs.len(),
    ensures
        work_size(arg_pairs(xs, ys, from)) == Term::size_sum(xs, from) + Term::size_sum(ys, from),
    decreases xs.len() - from,
{
    if from < xs.len() {
        let p = arg_pairs(xs, ys, from);
        assert(p.last() == (xs[from as int], ys[from as int]));
        assert(p.drop_last() =~= arg_pairs(xs, ys, from + 1));
        lemma_arg_pairs_size(xs, ys, from + 1);
    }
}

/// Taking a pair of applications apart makes the stack smaller.
pub proof fn lemma_decompose_size(rest: Seq<(Term, Term)>, x: Term, y: Term)
    requires
        x.args.len() == y.args.len(),
    ensures
        work_size(rest + arg_pairs(x.args, y.args, 0)) < work_size(rest.push((x, y))),
{
    lemma_work_size_concat(rest, arg_pairs(x.args, y.args, 0));
    lemma_arg_pairs_size(x.args, y.args, 0);
    assert(rest.push((x, y)).drop_last() =~= rest);
}

/// Makes the pairs of the stack equal, top first. Two equal trees are done;
/// an open variable is bound to the tree on the other side, unless it occurs
/// in it; two applications of one constructor to equally many arguments are
/// taken apart; anything else is a mismatch, and the result is `None`.
pub open spec fn solve(b: Seq<Option<Term>>, w: Seq<(Term, Term)>) -> Option<Seq<Option<Term>>>
    decreases unbound_count(b), work_size(w),
{
    if w.len() == 0 {
        Some(b)
    } else {
        let x = w.last().0;
        let y = w.last().1;
        let rest = w.drop_last();
        if x == y {
            solve(b, rest)
        } else {
            match step_binding(b, x, y) {
                Some((v, t)) => {
                    if t.mentions(v) {
                        None
                    } else {
                        proof {
                            lemma_bind_unbound(b, v, t);
                        }
                        solve(bind(b, v, t), apply_work(rest, bind(b, v, t)))
                    }
                },
                None => {
                    if open_var(b, x) is None && open_var(b, y) is None && x.con == y.con
                        && x.args.len() == y.args.len() {
                        proof {
                            lemma_decompose_size(rest, x, y);
                            assert(rest.push((x, y)) =~= w);
                        }
                        solve(b, rest + arg_pairs(x.args, y.args, 0))
                    } else {
                        None
                    }
                },
            }
        }
    }
}

/// The binding that a pair of different trees asks for, if one of them is an
/// open variable: the variable and the tree it is to stand for.
pub open spec fn step_binding(b: Seq<Option<Term>>, x: Term, y: Term) -> Option<(TyVid, Term)> {
    match (open_var(b, x), open_var(b, y)) {
        (Some(v), Some(w)) => if v == w {
            None
        } else if younger(v, w) {
            Some((v, y))
        } else {
            Some((w, x))
        },
        (Some(v), None) => Some((v, y)),
        (None, Some(w)) => Some((w, x)),
        (None, None) => None,
    }
}

/// The type that a successful `equate` hands back: the error sentinel where
/// one side holds it, else the first side under the new bindings.
pub open spec fn equate_ty(b: Seq<Option<Term>>, x: Term, y: Term) -> Term {
    if x.apply(b).has_error() || y.apply(b).has_error() {
        Term::leaf(TyCon::Error)
    } else {
        x.apply(equate_spec(b, x, y)->Some_0)
    }
}

/// Whether two stacks hold the same pairs, but for the order of the two
/// sides of some of them.
pub open spec fn same_up_to_sides(w: Seq<(Term, Term)>, w2: Seq<(Term, Term)>) -> bool {
    &&& w.len() == w2.len()
    &&& forall|i: int|
        0 <= i < w.len() ==> (#[trigger] w2[i]) == w[i] || w2[i] == (w[i].1, w[i].0)
}

/// Solving does not look at which side of a pair a tree stands on.
pub proof fn lemma_solve_symmetric(
    b: Seq<Option<Term>>,
    w: Seq<(Term, Term)>,
    w2: Seq<(Term, Term)>,
)
    requires
        same_up_to_sides(w, w2),
    ensures
        solve(b, w) == solve(b, w2),
    decreases unbound_count(b), work_size(w),
{
    if w.len() > 0 {
        let x = w.last().0;
        let y = w.last().1;
        let rest = w.drop_last();
        let rest2 = w2.drop_last();
        assert(w2.last() == w2[w.len() - 1]);
        assert(w.last() == w[w.len() - 1]);
        assert(same_up_to_sides(rest, rest2)) by {
            assert forall|i: int| 0 <= i < rest.len() implies (#[trigger] rest2[i]) == rest[i]
                || rest2[i] == (rest[i].1, rest[i].0) by {
                assert(rest2[i] == w2[i]);
                assert(rest[i] == w[i]);
            }
        }
        if x == y {
            lemma_solve_symmetric(b, rest, rest2);
        } else {
            match step_binding(b, x, y) {
                Some((v, t)) => {
                    assert(step_binding(b, y, x) == Some((v, t)));
                    if !t.mentions(v) {
                        lemma_bind_unbound(b, v, t);
                        let nb = bind(b, v, t);
                        let a1 = apply_work(rest, nb);
                        let a2 = apply_work(rest2, nb);
                        assert(same_up_to_sides(a1, a2)) by {
                            assert forall|i: int| 0 <= i < a1.len() implies (#[trigger] a2[i])
                                == a1[i] || a2[i] == (a1[i].1, a1[i].0) by {
                                assert(rest2[i] == rest[i] || rest2[i] == (rest[i].1, rest[i].0));
                            }
                        }
                        lemma_solve_symmetric(nb, a1, a2);
                    }
                },
                None => {
                    assert(step_binding(b, y, x) is None);
                    if open_var(b, x) is None && open_var(b, y) is None && x.con == y.con
                        && x.args.len() == y.args.len() {
                        lemma_decompose_size(rest, x, y);
                        assert(rest.push((x, y)) =~= w);
                        let n1 = rest + arg_pairs(x.args, y.args, 0);
                        let n2 = if w2.last() == w.last() {
                            rest2 + arg_pairs(x.args, y.args, 0)
                        } else {
                            rest2 + arg_pairs(y.args, x.args, 0)
                        };
                        assert(same_up_to_sides(n1, n2)) by {
                            assert forall|i: int| 0 <= i < n1.len() implies (#[trigger] n2[i])
                                == n1[i] || n2[i] == (n1[i].1, n1[i].0) by {
                                if i < rest.len() {
                                    assert(rest2[i] == rest[i] || rest2[i] == (
                                        rest[i].1,
                                        rest[i].0,
                                    ));
                                }
                            }
                        }
                        lemma_solve_symmetric(b, n1, n2);
                    }
                },
            }
        }
    }
}

/// Unification is symmetric: `equate(a, b)` succeeds exactly when
/// `equate(b, a)` does, and both leave the same bindings.
pub proof fn lemma_equate_symmetric(b: Seq<Option<Term>>, x: Term, y: Term)
    ensures
        equate_spec(b, x, y) == equate_spec(b, y, x),
{
    let w = seq![(x.apply(b), y.apply(b))];
    let w2 = seq![(y.apply(b), x.apply(b))];
    lemma_solve_symmetric(b, w, w2);
}

/// What `equate` does to the bindings: `None` stands for a mismatch. A tree
/// that holds the error sentinel is equal to anything, and binds nothing.
pub open spec fn equate_spec(b: Seq<Option<Term>>, x: Term, y: Term) -> Option<Seq<Option<Term>>> {
    if x.apply(b).has_error() || y.apply(b).has_error() {
        Some(b)
    } else {
        solve(b, seq![(x.apply(b), y.apply(b))])
    }
}

} // verus!
