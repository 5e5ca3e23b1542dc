//! Folding: rewriting the leaves of a type and rebuilding what is above
//! them. One folder replaces generic parameters, another opens a scheme with
//! fresh variables, a third replaces inference variables by their bindings.

use crate::ty::kind::{InferTy, Ty, TyCon};
use crate::ty::store::{copy_tys, TyCtx};
use crate::ty::term::{
    lemma_apply_no_infer, lemma_erase_no_infer, lemma_mentions_has_infer, lemma_subst_identity,
    lemma_subst_no_param, Term,
};
use crate::index::TyVid;
use vstd::prelude::*;

verus! {

/// A substitution: element `i` stands in for the generic parameter of index
/// `i`.
pub type Substs = Vec<Ty>;

/// What a folder does to a leaf.
pub enum TypeFolder<'a> {
    /// Replaces the generic parameter of index `i` by element `i`.
    Params(&'a Vec<Ty>),
    /// Replaces each bound inference variable by what it is bound to.
    Vars(&'a Vec<Option<Ty>>),
    /// Replaces every inference variable by the error sentinel.
    Erase,
}

impl TyCtx {
    /// The bindings as trees.
    pub open spec fn bindings(&self, b: Seq<Option<Ty>>) -> Seq<Option<Term>> {
        Seq::new(
            b.len(),
            |i: int|
                match b[i] {
                    Some(t) => Some(self.term(t)),
                    None => None,
                },
        )
    }

    /// Whether every bound handle names a slot of this store.
    pub open spec fn has_bound(&self, b: Seq<Option<Ty>>) -> bool {
        forall|i: int| 0 <= i < b.len() && (#[trigger] b[i]) is Some ==> self.has(b[i]->Some_0)
    }

    pub proof fn lemma_extends_bindings(&self, old: &TyCtx, b: Seq<Option<Ty>>)
        requires
            self.extends(old),
            old.has_bound(b),
        ensures
            self.has_bound(b),
            self.bindings(b) == old.bindings(b),
    {
        assert forall|i: int| 0 <= i < b.len() && (#[trigger] b[i]) is Some implies self.has(
            b[i]->Some_0,
        ) && self.term(b[i]->Some_0) == old.term(b[i]->Some_0) by {
            self.lemma_extends(old, b[i]->Some_0);
        }
        assert(self.bindings(b) =~= old.bindings(b));
    }
}

impl<'a> TypeFolder<'a> {
    /// Whether the folder speaks of types of this store only.
    pub open spec fn valid(&self, tcx: &TyCtx) -> bool {
        match self {
            TypeFolder::Params(s) => tcx.has_all(s@),
            TypeFolder::Vars(b) => tcx.has_bound(b@),
            TypeFolder::Erase => true,
        }
    }

    /// What folding makes of a tree.
    pub open spec fn rewrite(&self, tcx: &TyCtx, x: Term) -> Term {
        match self {
            TypeFolder::Params(s) => x.subst(tcx.terms(s@)),
            TypeFolder::Vars(b) => x.apply(tcx.bindings(b@)),
            TypeFolder::Erase => x.erase_vars(),
        }
    }

    pub proof fn lemma_extends(&self, new: &TyCtx, old: &TyCtx, x: Term)
        requires
            new.extends(old),
            self.valid(old),
        ensures
            self.valid(new),
            self.rewrite(new, x) == self.rewrite(old, x),
    {
        match self {
            TypeFolder::Params(s) => {
                new.lemma_extends_all(old, s@);
            },
            TypeFolder::Vars(b) => {
                new.lemma_extends_bindings(old, b@);
            },
            TypeFolder::Erase => {},
        }
    }
}

impl TyCtx {
    /// Rewrites a type with a folder: the leaves as the folder says, every
    /// other type as its constructor applied to its rewritten arguments. A
    /// subtree that holds no leaf of the folder's kind is handed back as it
    /// is, without a visit.
    pub fn fold_ty(&mut self, t: Ty, folder: &TypeFolder) -> (r: Ty)
        requires
            old(self).wf(),
            old(self).has(t),
            folder.valid(old(self)),
        ensures
            final(self).wf(),
            final(self).extends(old(self)),
            final(self).has(r),
            final(self).term(r) == folder.rewrite(old(self), old(self).term(t)),
        decreases t.0,
    {
        let ghost pre = *self;
        let flags = self.flags(t);
        let con = self.con(t);
        proof {
            pre.lemma_args_valid(t);
        }
        match folder {
            TypeFolder::Params(s) => {
                if !flags.has_param() {
                    proof {
                        lemma_subst_no_param(pre.term(t), pre.terms(s@));
                    }
                    return t;
                }
                if let TyCon::Param(p) = con {
                    if p.idx.0 < s.len() {
                        return s[p.idx.0];
                    } else {
                        return t;
                    }
                }
            },
            TypeFolder::Vars(b) => {
                if !flags.has_infer() {
                    proof {
                        lemma_apply_no_infer(pre.term(t), pre.bindings(b@));
                    }
                    return t;
                }
                if let TyCon::Infer(InferTy::TyVar(v)) = con {
                    if v.0 < b.len() {
                        match b[v.0] {
                            Some(x) => {
                                return x;
                            },
                            None => {
                                return t;
                            },
                        }
                    } else {
                        return t;
                    }
                }
            },
            TypeFolder::Erase => {
                if !flags.has_infer() {
                    proof {
                        lemma_erase_no_infer(pre.term(t));
                    }
                    return t;
                }
                if let TyCon::Infer(_) = con {
                    return self.types().error;
                }
            },
        }
        let args = copy_tys(self.args(t));
        let mut out: Vec<Ty> = Vec::new();
        let mut i: usize = 0;
        while i < args.len()
            invariant
                i <= args.len(),
                out@.len() == i,
                self.wf(),
                pre.wf(),
                self.extends(&pre),
                pre.has(t),
                folder.valid(&pre),
                args@ == pre.nodes()[t.0 as int].args,
                pre.has_all(args@),
                forall|k: int| 0 <= k < args@.len() ==> (#[trigger] args@[k]).0 < t.0,
                self.has_all(out@),
                forall|k: int|
                    0 <= k < i ==> self.term(#[trigger] out@[k]) == folder.rewrite(
                        &pre,
                        pre.term(args@[k]),
                    ),
            decreases args.len() - i,
        {
            let ghost mid = *self;
            let c = args[i];
            proof {
                mid.lemma_extends(&pre, c);
                folder.lemma_extends(&mid, &pre, pre.term(c));
            }
            let r = self.fold_ty(c, folder);
            proof {
                self.lemma_extends_trans(&mid, &pre);
                assert forall|k: int| 0 <= k < i implies self.has(#[trigger] out@[k]) && self.term(
                    out@[k],
                ) == folder.rewrite(&pre, pre.term(args@[k])) by {
                    self.lemma_extends(&mid, out@[k]);
                }
            }
            out.push(r);
            i += 1;
        }
        let ghost mid = *self;
        let r = self.mk_node(con, out);
        proof {
            self.lemma_extends_trans(&mid, &pre);
            let x = pre.term(t);
            let y = folder.rewrite(&pre, x);
            assert(mid.terms(out@) =~= y.args);
        }
        r
    }

    /// Rewrites every type of a list with a folder.
    pub fn fold_tys(&mut self, ts: &Vec<Ty>, folder: &TypeFolder) -> (out: Vec<Ty>)
        requires
            old(self).wf(),
            old(self).has_all(ts@),
            folder.valid(old(self)),
        ensures
            final(self).wf(),
            final(self).extends(old(self)),
            final(self).has_all(out@),
            out@.len() == ts@.len(),
            forall|k: int|
                0 <= k < ts@.len() ==> final(self).term(#[trigger] out@[k]) == folder.rewrite(
                    old(self),
                    old(self).term(ts@[k]),
                ),
    {
        let ghost pre = *self;
        let mut out: Vec<Ty> = Vec::new();
        let mut i: usize = 0;
        while i < ts.len()
            invariant
                i <= ts.len(),
                out@.len() == i,
                self.wf(),
                self.extends(&pre),
                folder.valid(&pre),
                pre.has_all(ts@),
                self.has_all(out@),
                forall|k: int|
                    0 <= k < i ==> self.term(#[trigger] out@[k]) == folder.rewrite(
                        &pre,
                        pre.term(ts@[k]),
                    ),
            decreases ts.len() - i,
        {
            let ghost mid = *self;
            let c = ts[i];
            proof {
                mid.lemma_extends(&pre, c);
                folder.lemma_extends(&mid, &pre, pre.term(c));
            }
            let r = self.fold_ty(c, folder);
            proof {
                self.lemma_extends_trans(&mid, &pre);
                assert forall|k: int| 0 <= k < i implies self.has(#[trigger] out@[k]) && self.term(
                    out@[k],
                ) == folder.rewrite(&pre, pre.term(ts@[k])) by {
                    self.lemma_extends(&mid, out@[k]);
                }
            }
            out.push(r);
            i += 1;
        }
        out
    }

    /// Replaces all the type parameters of a type with the appropriate
    /// substitution. Under a list that maps every parameter of the type to
    /// itself the result is the type's own handle.
    pub fn subst(&mut self, t: Ty, substs: &Vec<Ty>) -> (r: Ty)
        requires
            old(self).wf(),
            old(self).has(t),
            old(self).has_all(substs@),
        ensures
            final(self).wf(),
            final(self).extends(old(self)),
            final(self).has(r),
            final(self).term(r) == old(self).term(t).subst(old(self).terms(substs@)),
            old(self).term(t).fixed_by(old(self).terms(substs@)) ==> r == t,
    {
        let ghost pre = *self;
        let r = self.fold_ty(t, &TypeFolder::Params(substs));
        proof {
            if pre.term(t).fixed_by(pre.terms(substs@)) {
                lemma_subst_identity(pre.term(t), pre.terms(substs@));
                self.lemma_extends(&pre, t);
                self.lemma_canonical(r, t);
            }
        }
        r
    }

    /// Whether the inference variable occurs in the type.
    pub fn mentions_var(&self, v: TyVid, t: Ty) -> (r: bool)
        requires
            self.wf(),
            self.has(t),
        ensures
            r == self.term(t).mentions(v),
        decreases t.0,
    {
        proof {
            self.lemma_args_valid(t);
        }
        if !self.flags(t).has_infer() {
            proof {
                if self.term(t).mentions(v) {
                    lemma_mentions_has_infer(self.term(t), v);
                }
            }
            return false;
        }
        if let TyCon::Infer(InferTy::TyVar(w)) = self.con(t) {
            if w == v {
                return true;
            }
        }
        let args = self.args(t);
        let mut i: usize = 0;
        while i < args.len()
            invariant
                i <= args.len(),
                self.wf(),
                self.has(t),
                args@ == self.nodes()[t.0 as int].args,
                self.has_all(args@),
                forall|k: int| 0 <= k < args@.len() ==> (#[trigger] args@[k]).0 < t.0,
                forall|k: int| 0 <= k < i ==> !self.term(#[trigger] args@[k]).mentions(v),
            decreases args.len() - i,
        {
            if self.mentions_var(v, args[i]) {
                proof {
                    assert(self.term(t).args[i as int] == self.term(args@[i as int]));
                }
                return true;
            }
            i += 1;
        }
        proof {
            let x = self.term(t);
            assert forall|k: int| 0 <= k < x.args.len() implies !(#[trigger] x.args[k]).mentions(
                v,
            ) by {
                assert(x.args[k] == self.term(args@[k]));
            }
        }
        false
    }
}

} // verus!
