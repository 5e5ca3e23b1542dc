//! The mathematical model of a type: a finite tree of constructors. Handles
//! are names of such trees; everything the engine promises is stated over
//! them.

use crate::ty::flags::TyFlags;
use crate::index::TyVid;
use crate::ty::kind::{InferTy, TyCon};
use vstd::prelude::*;

verus! {

/// A type as a tree: a constructor applied to argument trees.
pub struct Term {
    pub con: TyCon,
    pub args: Seq<Term>,
}

impl Term {
    /// A constructor without arguments.
    pub open spec fn leaf(con: TyCon) -> Term {
        Term { con, args: Seq::empty() }
    }

    /// The number of constructors in the tree.
    pub open spec fn size(self) -> nat
        decreases self,
    {
        1 + Term::size_sum(self.args, 0)
    }

    /// The sizes of the trees from position `i` on, added up.
    pub open spec fn size_sum(ts: Seq<Term>, i: nat) -> nat
        decreases ts, ts.len() - i,
    {
        if i >= ts.len() {
            0
        } else {
            ts[i as int].size() + Term::size_sum(ts, i + 1)
        }
    }

    /// Whether the error sentinel occurs in the tree.
    pub open spec fn has_error(self) -> bool
        decreases self,
    {
        self.con == TyCon::Error || exists|i: int|
            0 <= i < self.args.len() && (#[trigger] self.args[i]).has_error()
    }

    /// Whether an inference variable occurs in the tree.
    pub open spec fn has_infer(self) -> bool
        decreases self,
    {
        self.con is Infer || exists|i: int|
            0 <= i < self.args.len() && (#[trigger] self.args[i]).has_infer()
    }

    /// Whether a generic parameter occurs in the tree.
    pub open spec fn has_param(self) -> bool
        decreases self,
    {
        self.con is Param || exists|i: int|
            0 <= i < self.args.len() && (#[trigger] self.args[i]).has_param()
    }

    /// The tree with every generic parameter replaced by the element of the
    /// list at the parameter's index. A parameter whose index the list does
    /// not reach stays as it is.
    pub open spec fn subst(self, s: Seq<Term>) -> Term
        decreases self,
    {
        match self.con {
            TyCon::Param(p) => if p.idx.0 < s.len() {
                s[p.idx.0 as int]
            } else {
                self
            },
            _ => Term {
                con: self.con,
                args: Seq::new(
                    self.args.len(),
                    |i: int|
                        if 0 <= i < self.args.len() {
                            self.args[i].subst(s)
                        } else {
                            self
                        },
                ),
            },
        }
    }

    /// The tree with every bound inference variable replaced by what it is
    /// bound to. A variable that the bindings do not reach, or leave open,
    /// stays as it is.
    pub open spec fn apply(self, b: Seq<Option<Term>>) -> Term
        decreases self,
    {
        match self.con {
            TyCon::Infer(InferTy::TyVar(v)) => if v.0 < b.len() && b[v.0 as int] is Some {
                b[v.0 as int]->Some_0
            } else {
                self
            },
            _ => Term {
                con: self.con,
                args: Seq::new(
                    self.args.len(),
                    |i: int|
                        if 0 <= i < self.args.len() {
                            self.args[i].apply(b)
                        } else {
                            self
                        },
                ),
            },
        }
    }

    /// Whether the list maps every parameter of the tree to itself.
    pub open spec fn fixed_by(self, s: Seq<Term>) -> bool
        decreases self,
    {
        match self.con {
            TyCon::Param(p) => p.idx.0 < s.len() && s[p.idx.0 as int] == self,
            _ => forall|i: int| 0 <= i < self.args.len() ==> (#[trigger] self.args[i]).fixed_by(s),
        }
    }

    /// The tree with every inference variable replaced by the error sentinel.
    pub open spec fn erase_vars(self) -> Term
        decreases self,
    {
        match self.con {
            TyCon::Infer(_) => Term::leaf(TyCon::Error),
            _ => Term {
                con: self.con,
                args: Seq::new(
                    self.args.len(),
                    |i: int|
                        if 0 <= i < self.args.len() {
                            self.args[i].erase_vars()
                        } else {
                            self
                        },
                ),
            },
        }
    }

    /// Whether the inference variable occurs in the tree.
    pub open spec fn mentions(self, v: TyVid) -> bool
        decreases self,
    {
        self.con == TyCon::Infer(InferTy::TyVar(v)) || exists|i: int|
            0 <= i < self.args.len() && (#[trigger] self.args[i]).mentions(v)
    }

    /// The property bits of the tree.
    pub open spec fn flags(self) -> TyFlags {
        TyFlags::spec_of(self.has_error(), self.has_infer(), self.has_param())
    }
}

/// Substitution leaves a tree without generic parameters as it is.
pub proof fn lemma_subst_no_param(x: Term, s: Seq<Term>)
    requires
        !x.has_param(),
    ensures
        x.subst(s) == x,
    decreases x,
{
    assert forall|i: int| 0 <= i < x.args.len() implies (#[trigger] x.args[i]).subst(s)
        == x.args[i] by {
        lemma_subst_no_param(x.args[i], s);
    }
    assert(x.subst(s).args =~= x.args);
}

/// Applying bindings leaves a tree without inference variables as it is.
pub proof fn lemma_apply_no_infer(x: Term, b: Seq<Option<Term>>)
    requires
        !x.has_infer(),
    ensures
        x.apply(b) == x,
    decreases x,
{
    assert forall|i: int| 0 <= i < x.args.len() implies (#[trigger] x.args[i]).apply(b)
        == x.args[i] by {
        lemma_apply_no_infer(x.args[i], b);
    }
    assert(x.apply(b).args =~= x.args);
}

/// The identity law of substitution: a list that maps every parameter of a
/// tree to itself leaves the tree as it is.
pub proof fn lemma_subst_identity(x: Term, s: Seq<Term>)
    requires
        x.fixed_by(s),
    ensures
        x.subst(s) == x,
    decreases x,
{
    match x.con {
        TyCon::Param(p) => {},
        _ => {
            assert forall|i: int| 0 <= i < x.args.len() implies (#[trigger] x.args[i]).subst(s)
                == x.args[i] by {
                lemma_subst_identity(x.args[i], s);
            }
            assert(x.subst(s).args =~= x.args);
        },
    }
}

/// Erasing leaves a tree without inference variables as it is.
pub proof fn lemma_erase_no_infer(x: Term)
    requires
        !x.has_infer(),
    ensures
        x.erase_vars() == x,
    decreases x,
{
    assert forall|i: int| 0 <= i < x.args.len() implies (#[trigger] x.args[i]).erase_vars()
        == x.args[i] by {
        lemma_erase_no_infer(x.args[i]);
    }
    assert(x.erase_vars().args =~= x.args);
}

/// A variable that occurs in a tree is an inference variable of the tree.
pub proof fn lemma_mentions_has_infer(x: Term, v: TyVid)
    requires
        x.mentions(v),
    ensures
        x.has_infer(),
    decreases x,
{
    if x.con != TyCon::Infer(InferTy::TyVar(v)) {
        let i = choose|i: int| 0 <= i < x.args.len() && (#[trigger] x.args[i]).mentions(v);
        lemma_mentions_has_infer(x.args[i], v);
    }
}

} // verus!
