//! Questions that are asked of an interned type: what it is made of, and
//! what occurs in it.

use crate::ast::Ident;
use crate::index::DefId;
use crate::indexed::Variants;
use crate::ty::adt::{duplicate_fields_of, AdtKind, AdtTy, VariantTy};
use crate::ty::error::Diagnostic;
use crate::ty::flags::TyFlags;
use crate::ty::kind::{AdtId, Forall, Ty, TyCon};
use crate::ty::store::{copy_tys, variants_ok, TyCtx, TyS};
use crate::ty::term::Term;
use vstd::prelude::*;

verus! {

/// What carries the property bits of the types in it.
pub trait TyFlag {
    spec fn spec_ty_flags(&self) -> TyFlags;

    /// The property bits.
    fn ty_flags(&self) -> (f: TyFlags)
        ensures
            f == self.spec_ty_flags(),
    ;
}

/// The first descriptor at or behind `from` that was declared by a
/// definition.
pub open spec fn first_adt_of(adts: Seq<AdtTy>, def: DefId, from: nat) -> Option<int>
    decreases adts.len() - from,
{
    if from >= adts.len() {
        None
    } else if adts[from as int].def_id == def {
        Some(from as int)
    } else {
        first_adt_of(adts, def, from + 1)
    }
}

pub proof fn lemma_first_adt_range(adts: Seq<AdtTy>, def: DefId, from: nat)
    ensures
        first_adt_of(adts, def, from) matches Some(i) ==> from <= i < adts.len() && adts[i].def_id == def,
    decreases adts.len() - from,
{
    if from < adts.len() && adts[from as int].def_id != def {
        lemma_first_adt_range(adts, def, from + 1);
    }
}

impl TyFlag for TyS {
    open spec fn spec_ty_flags(&self) -> TyFlags {
        self.cached_flags()
    }

    fn ty_flags(&self) -> (f: TyFlags) {
        self.flags()
    }
}

impl TyCtx {
    /// Whether the type is the empty tuple.
    pub fn is_unit(&self, t: Ty) -> (b: bool)
        requires
            self.wf(),
            self.has(t),
        ensures
            b == (self.term(t) == Term::leaf(TyCon::Tuple)),
    {
        proof {
            crate::ty::store::lemma_term_unfold(self.nodes(), t);
            assert(self.term(t).args.len() == self.nodes()[t.0 as int].args.len());
            if self.term(t).args.len() == 0 {
                assert(self.term(t).args =~= Seq::<Term>::empty());
            }
        }
        match self.con(t) {
            TyCon::Tuple => self.args(t).len() == 0,
            _ => false,
        }
    }

    /// The parts of a scheme: how many parameters it binds, and its body.
    pub fn expect_scheme(&self, t: Ty) -> (r: (Forall, Ty))
        requires
            self.wf(),
            self.has(t),
            self.term(t).con is Scheme,
        ensures
            self.has(r.1),
            self.term(t) == (Term { con: TyCon::Scheme(r.0), args: seq![self.term(r.1)] }),
    {
        proof {
            crate::ty::store::lemma_term_unfold(self.nodes(), t);
            self.lemma_args_valid(t);
        }
        let body = self.args(t)[0];
        proof {
            assert(self.term(t).args =~= seq![self.term(body)]);
        }
        match self.con(t) {
            TyCon::Scheme(forall) => (forall, body),
            _ => (Forall { binders: 0 }, body),
        }
    }

    /// The parts of a function pointer type: the types of its parameters,
    /// and the type of its result.
    pub fn expect_fn(&self, t: Ty) -> (r: (Vec<Ty>, Ty))
        requires
            self.wf(),
            self.has(t),
            self.term(t).con == TyCon::Fn,
        ensures
            self.has_all(r.0@),
            self.has(r.1),
            self.term(t) == (Term { con: TyCon::Fn, args: self.terms(r.0@).push(self.term(r.1)) }),
    {
        proof {
            crate::ty::store::lemma_term_unfold(self.nodes(), t);
            self.lemma_args_valid(t);
        }
        let mut params = copy_tys(self.args(t));
        let ghost all = params@;
        let ret = params.pop().unwrap();
        proof {
            assert(params@ =~= all.drop_last());
            assert(self.term(t).args =~= self.terms(params@).push(self.term(ret)));
        }
        (params, ret)
    }

    /// The descriptor that a type instantiates.
    pub fn expect_adt(&self, t: Ty) -> (a: AdtId)
        requires
            self.has(t),
            self.term(t).con is Adt,
        ensures
            self.term(t).con == TyCon::Adt(a),
    {
        match self.con(t) {
            TyCon::Adt(a) => a,
            _ => AdtId(0),
        }
    }

    /// The descriptor that a definition declared, if it declared one: the
    /// first, where it declared several.
    pub fn adt_of_def(&self, def: DefId) -> (a: Option<AdtId>)
        ensures
            a is Some <==> first_adt_of(self.spec_adts(), def, 0) is Some,
            a matches Some(id) ==> first_adt_of(self.spec_adts(), def, 0) == Some(id.0 as int)
                && self.has_adt(id) && self.spec_adts()[id.0 as int].def_id == def,
    {
        let n = self.adt_count();
        let mut i: usize = 0;
        proof {
            lemma_first_adt_range(self.spec_adts(), def, 0);
        }
        while i < n
            invariant
                i <= n,
                n == self.spec_adts().len(),
                first_adt_of(self.spec_adts(), def, 0) == first_adt_of(self.spec_adts(), def, i as nat),
            decreases n - i,
        {
            if self.adt(AdtId(i)).def_id == def {
                return Some(AdtId(i));
            }
            i += 1;
        }
        None
    }

    /// Whether one of the given property bits is set in the type.
    pub fn has_flags(&self, t: Ty, flags: TyFlags) -> (b: bool)
        requires
            self.wf(),
            self.has(t),
        ensures
            b == self.term(t).flags().spec_intersects(flags),
    {
        self.flags(t).intersects(flags)
    }

    /// Whether an inference variable occurs in the type.
    pub fn has_infer_vars(&self, t: Ty) -> (b: bool)
        requires
            self.wf(),
            self.has(t),
        ensures
            b == self.term(t).has_infer(),
    {
        self.flags(t).has_infer()
    }

    /// Whether a generic parameter occurs in the type.
    pub fn has_ty_params(&self, t: Ty) -> (b: bool)
        requires
            self.wf(),
            self.has(t),
        ensures
            b == self.term(t).has_param(),
    {
        self.flags(t).has_param()
    }

    /// Whether the error sentinel occurs in the type.
    pub fn contains_err(&self, t: Ty) -> (b: bool)
        requires
            self.wf(),
            self.has(t),
        ensures
            b == self.term(t).has_error(),
    {
        self.flags(t).has_error()
    }

    /// The type of an item that was collected.
    pub fn item_ty(&self, def_id: DefId) -> (t: Ty)
        requires
            self.wf(),
            self.items().contains_key(def_id.0),
        ensures
            t == Ty(self.items()[def_id.0]),
            self.has(t),
    {
        self.collected_ty(def_id)
    }

    /// The type of arrays of `n` elements of a type.
    pub fn mk_array_ty(&mut self, ty: Ty, n: usize) -> (t: Ty)
        requires
            old(self).wf(),
            old(self).has(ty),
        ensures
            final(self).wf(),
            final(self).extends(old(self)),
            final(self).has(t),
            final(self).term(t) == (Term { con: TyCon::Array(n), args: seq![old(self).term(ty)] }),
    {
        self.mk_unary(TyCon::Array(n), ty)
    }

    /// Records the descriptor of a struct, which has the one variant.
    pub fn mk_struct_ty(&mut self, def_id: DefId, ident: Ident, variant: VariantTy) -> (r: (
        AdtId,
        Vec<Diagnostic>,
    ))
        requires
            old(self).wf(),
            variants_ok(seq![variant], old(self).nodes().len()),
        ensures
            final(self).wf(),
            final(self).nodes() == old(self).nodes(),
            final(self).spec_types() == old(self).spec_types(),
            final(self).items() == old(self).items(),
            final(self).sigs() == old(self).sigs(),
            final(self).generic_counts() == old(self).generic_counts(),
            final(self).spec_adts().len() == old(self).spec_adts().len() + 1,
            final(self).spec_adts().drop_last() == old(self).spec_adts(),
            final(self).spec_adts().last().def_id == def_id,
            final(self).spec_adts().last().kind == AdtKind::Struct,
            final(self).spec_adts().last().ident == ident,
            final(self).spec_adts().last().variants@ == seq![variant],
            r.0 == AdtId(old(self).spec_adts().len() as usize),
            r.1@ == duplicate_fields_of(ident, seq![variant], 1),
    {
        let mut variants = Variants::new();
        variants.push(variant);
        proof {
            assert(variants@ =~= seq![variant]);
        }
        let ghost before = self.spec_adts();
        let r = self.mk_adt(def_id, AdtKind::Struct, ident, variants);
        proof {
            assert(self.spec_adts().drop_last() =~= before);
        }
        r
    }

    /// Records the descriptor of an enum.
    pub fn mk_enum_ty(&mut self, def_id: DefId, ident: Ident, variants: Variants) -> (r: (
        AdtId,
        Vec<Diagnostic>,
    ))
        requires
            old(self).wf(),
            variants_ok(variants@, old(self).nodes().len()),
        ensures
            final(self).wf(),
            final(self).nodes() == old(self).nodes(),
            final(self).spec_types() == old(self).spec_types(),
            final(self).items() == old(self).items(),
            final(self).sigs() == old(self).sigs(),
            final(self).generic_counts() == old(self).generic_counts(),
            final(self).spec_adts() == old(self).spec_adts().push(
                (AdtTy { def_id, kind: AdtKind::Enum, ident, variants }),
            ),
            r.0 == AdtId(old(self).spec_adts().len() as usize),
            r.1@ == duplicate_fields_of(ident, variants@, variants@.len() as int),
    {
        self.mk_adt(def_id, AdtKind::Enum, ident, variants)
    }
}

} // verus!
