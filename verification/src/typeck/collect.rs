//! Collection: the declared types of the items, found before any body is
//! checked; and the entry point of checking.

use crate::index::DefId;
use crate::infer::InferCtx;
use crate::ir;
use crate::symbol::Interner;
use crate::ty::error::Diagnostic;
use crate::ty::kind::{Forall, ParamTy, Ty, TyCon};
use crate::ty::store::{copy_tys, TyCtx};
use crate::ty::term::Term;
use crate::typeck::fcx::{step, FnCtx, FnView};
use crate::typeck::spec;
use crate::typeck::view::{diags_ok, diags_view, term_map, DiagView, Globals};
use crate::lowering::IrLoweringCtx;
use crate::tir;
use crate::typeck::writeback::{ambiguities, resolve_tables, Checked, TypeckTables};
use vstd::prelude::*;

verus! {

/// The state of a checker that has done nothing yet.
pub open spec fn empty_view(ret: Term) -> FnView {
    FnView {
        bindings: Seq::empty(),
        origins: Seq::empty(),
        locals: Map::empty(),
        mutable: Map::empty(),
        node_types: Map::empty(),
        field_indices: Map::empty(),
        adjustments: Seq::empty(),
        errors: Seq::empty(),
        ret_ty: ret,
        unsafe_ctx: false,
    }
}

/// The generic parameters of an item, as types: the identity substitution.
pub open spec fn params_of(generics: &ir::Generics) -> Seq<Term> {
    Seq::new(
        generics.params@.len(),
        |i: int|
            Term::leaf(
                TyCon::Param(
                    ParamTy {
                        def_id: generics.params@[i].id.def,
                        idx: generics.params@[i].index,
                    },
                ),
            ),
    )
}

/// What collection finds out about a function: its signature, the tuple of
/// its generic parameters, and its type, the scheme over the parameters of
/// the function item at its own parameters.
pub struct Collected {
    pub sig: Term,
    pub generics: Term,
    pub ty: Term,
    pub errors: Seq<DiagView>,
}

pub open spec fn collect_fn_model(g: Globals, def: DefId, sig: &ir::FnSig, generics: &ir::Generics) -> Collected {
    let (v1, inputs) = spec::conv_tys(g, empty_view(spec::ty_unit()), false, sig.inputs@, 0);
    let (v2, output) = match &sig.output {
        // an unspecified return type on a function item implies unit
        Some(t) => spec::conv_ty(g, v1, false, t),
        None => (v1, spec::ty_unit()),
    };
    let ids = params_of(generics);
    Collected {
        sig: spec::fn_ptr(inputs, output),
        generics: spec::tuple(ids),
        ty: spec::unary(
            TyCon::Scheme(Forall { binders: generics.params@.len() as usize }),
            Term { con: TyCon::FnDef(def), args: ids },
        ),
        errors: v2.errors,
    }
}

/// Whether a store is `old` with what was collected about a function
/// written to its tables: the function has the signature, the generic
/// parameters and the type, and nothing else has changed.
pub open spec fn collected(old: &TyCtx, new: &TyCtx, def: DefId, m: Collected) -> bool {
    &&& new.sigs().contains_key(def.0)
    &&& new.term(Ty(new.sigs()[def.0])) == m.sig
    &&& new.sigs().remove(def.0) == old.sigs()
    &&& new.generic_counts().contains_key(def.0)
    &&& new.term(Ty(new.generic_counts()[def.0])) == m.generics
    &&& new.generic_counts().remove(def.0) == old.generic_counts()
    &&& new.items().contains_key(def.0)
    &&& new.term(Ty(new.items()[def.0])) == m.ty
    &&& new.items().remove(def.0) == old.items()
}

/// The generic parameters of an item as types.
pub fn lower_generics(tcx: &mut TyCtx, generics: &ir::Generics) -> (ids: Vec<Ty>)
    requires
        old(tcx).wf(),
    ensures
        final(tcx).wf(),
        final(tcx).extends(old(tcx)),
        final(tcx).has_all(ids@),
        final(tcx).terms(ids@) == params_of(generics),
{
    let ghost pre = *tcx;
    let mut ids: Vec<Ty> = Vec::new();
    let mut i: usize = 0;
    proof {
        assert(tcx.terms(ids@) =~= params_of(generics).take(0));
    }
    while i < generics.params.len()
        invariant
            i <= generics.params.len(),
            ids@.len() == i,
            tcx.wf(),
            tcx.extends(&pre),
            tcx.has_all(ids@),
            tcx.terms(ids@) == params_of(generics).take(i as int),
        decreases generics.params.len() - i,
    {
        let ghost mid = *tcx;
        let p = &generics.params[i];
        let t = tcx.mk_ty_param(p.id.def, p.index);
        proof {
            tcx.lemma_extends_all(&mid, ids@);
            tcx.lemma_extends_trans(&mid, &pre);
            assert(tcx.terms(ids@.push(t)) =~= params_of(generics).take(i + 1));
        }
        ids.push(t);
        i += 1;
    }
    proof {
        assert(params_of(generics).take(generics.params@.len() as int) =~= params_of(generics));
    }
    ids
}

/// Collects the type of a function item: its signature, its generic
/// parameters and its type are written to the store. A type that is left
/// to infer in the signature is complained about.
pub fn collect_fn(tcx: TyCtx, interner: &Interner, def: DefId, sig: &ir::FnSig, generics: &ir::Generics) -> (r:
    (TyCtx, Vec<Diagnostic>))
    requires
        tcx.wf(),
        !tcx.items().contains_key(def.0),
        !tcx.sigs().contains_key(def.0),
        !tcx.generic_counts().contains_key(def.0),
    ensures
        r.0.wf(),
        crate::ty::store::is_prefix(tcx.nodes(), r.0.nodes()),
        r.0.spec_types() == tcx.spec_types(),
        r.0.spec_adts() == tcx.spec_adts(),
        diags_ok(&r.0, r.1@),
        collected(&tcx, &r.0, def, collect_fn_model(tcx.globals(), def, sig, generics)),
        diags_view(&r.0, r.1@) == collect_fn_model(tcx.globals(), def, sig, generics).errors,
{
    broadcast use {TyCtx::lemma_extends_auto, TyCtx::lemma_extends_all_auto};

    let ghost g = tcx.globals();
    let infcx = InferCtx::new(tcx);
    let unit = infcx.tcx.types().unit;
    let mut fcx = FnCtx::new(infcx, interner, unit);
    let ghost start = fcx;
    proof {
        assert(fcx@.bindings =~= Seq::<Option<Term>>::empty());
        assert(fcx@.origins =~= Seq::<crate::span::Span>::empty());
        assert(fcx@ == empty_view(spec::ty_unit()));
    }
    let inputs = fcx.lower_tys(false, &sig.inputs);
    let output = match &sig.output {
        Some(t) => fcx.ir_ty_to_ty(false, t),
        None => fcx.infcx.tcx.types().unit,
    };
    let sig_ty = fcx.mk_fn_ptr(inputs, output);
    let ghost done = fcx;
    let errors = fcx.errors;
    let mut tcx = fcx.infcx.tcx;
    let ghost conv = tcx;
    let ids = lower_generics(&mut tcx, generics);
    let ghost s1 = tcx;
    let params = tcx.mk_tup(copy_tys(&ids));
    let ghost s2 = tcx;
    let fn_def = tcx.mk_fn_def(def, ids);
    let ghost s3 = tcx;
    let n = generics.params.len();
    let item_ty = tcx.mk_ty_scheme(Forall { binders: n }, fn_def);
    let ghost s4 = tcx;
    proof {
        s4.lemma_extends_trans(&s3, &s2);
        s4.lemma_extends_trans(&s2, &s1);
        s4.lemma_extends_trans(&s1, &conv);
        s4.lemma_extends_trans(&conv, &start.infcx.tcx);
        crate::typeck::view::lemma_globals_extend(&s4, &start.infcx.tcx);
        crate::typeck::view::lemma_diags_extend(&s4, &conv, errors@);
        s4.lemma_extends(&conv, sig_ty);
        s4.lemma_extends(&s2, params);
    }
    let ghost sig_term = s4.term(sig_ty);
    let ghost params_term = s4.term(params);
    tcx.record_fn_sig(def, sig_ty);
    tcx.cache_generics(def, params);
    let ty = tcx.collect_ty(def, item_ty);
    proof {
        let m = collect_fn_model(g, def, sig, generics);
        assert(tcx.nodes() == s4.nodes());
        assert(tcx.term(sig_ty) == sig_term);
        assert(tcx.term(params) == params_term);
        assert(sig_term == m.sig);
        assert(params_term == m.generics);
        assert(tcx.sigs().remove(def.0) =~= s4.sigs());
        assert(tcx.generic_counts().remove(def.0) =~= s4.generic_counts());
        assert(tcx.items().remove(def.0) =~= s4.items());
        assert(diags_view(&tcx, errors@) =~= diags_view(&s4, errors@));
        assert forall|i: int| 0 <= i < errors@.len() implies crate::typeck::view::err_ok(
            &tcx,
            (#[trigger] errors@[i]).error,
        ) by {
            assert(crate::typeck::view::err_ok(&s4, errors@[i].error));
        }
    }
    (tcx, errors)
}

/// Collects the type of an item. Only the types of functions are found
/// here: the descriptors of structs and enums are written to the store as
/// they are declared.
pub fn collect_item(tcx: TyCtx, interner: &Interner, item: &ir::Item) -> (r: (TyCtx, Vec<Diagnostic>))
    requires
        tcx.wf(),
        item.kind is Fn ==> !tcx.items().contains_key(item.id.def.0),
        item.kind is Fn ==> !tcx.sigs().contains_key(item.id.def.0),
        item.kind is Fn ==> !tcx.generic_counts().contains_key(item.id.def.0),
    ensures
        r.0.wf(),
        crate::ty::store::is_prefix(tcx.nodes(), r.0.nodes()),
        r.0.spec_types() == tcx.spec_types(),
        r.0.spec_adts() == tcx.spec_adts(),
        diags_ok(&r.0, r.1@),
        match &item.kind {
            ir::ItemKind::Fn(sig, generics, _) => {
                let m = collect_fn_model(tcx.globals(), item.id.def, sig, generics);
                &&& collected(&tcx, &r.0, item.id.def, m)
                &&& diags_view(&r.0, r.1@) == m.errors
            },
            _ => r.0 == tcx && r.1@.len() == 0,
        },
{
    match &item.kind {
        ir::ItemKind::Fn(sig, generics, _) => collect_fn(tcx, interner, item.id.def, sig, generics),
        _ => (tcx, Vec::new()),
    }
}

/// The parameter types and the return type of a signature; of anything that
/// is no function pointer type, no parameters and the error sentinel.
pub open spec fn sig_parts(sig: Term) -> (Seq<Term>, Term) {
    if sig.con == TyCon::Fn && sig.args.len() >= 1 {
        (sig.args.drop_last(), sig.args.last())
    } else {
        (Seq::empty(), spec::ty_err())
    }
}

/// What checking the body of a function makes of the empty state.
pub open spec fn typeck_model(g: Globals, names: &Interner, def: DefId, body: &ir::Body) -> FnView {
    let (params, ret) = if g.sigs.contains_key(def.0) {
        sig_parts(g.sigs[def.0])
    } else {
        (Seq::empty(), spec::ty_err())
    };
    spec::check_body(g, names, empty_view(ret), params, body)
}

/// Checks the body of a function item against its collected signature, and
/// makes every recorded type final. The type parameters of the function are
/// not instantiated: the body is checked with the parameters themselves.
pub fn typeck(tcx: TyCtx, interner: &Interner, def_id: DefId, body: &ir::Body) -> (r: Checked)
    requires
        tcx.wf(),
    ensures
        r.tcx.wf(),
        r.tcx.extends(&tcx),
        r.tables.wf(&r.tcx),
        diags_ok(&r.tcx, r.errors@),
        ({
            let v = typeck_model(tcx.globals(), interner, def_id, body);
            &&& r.tables.view_in(&r.tcx) == resolve_tables(v)
            &&& diags_view(&r.tcx, r.errors@) == v.errors + ambiguities(v.bindings, v.origins, 0)
        }),
{
    let ghost g = tcx.globals();
    let infcx = InferCtx::new(tcx);
    let sig = infcx.tcx.fn_sig(def_id);
    let (params, ret): (Vec<Ty>, Ty) = match sig {
        Some(s) => {
            proof {
                infcx.tcx.lemma_args_valid(s);
            }
            let is_fn = match infcx.tcx.con(s) {
                TyCon::Fn => true,
                _ => false,
            };
            let mut args = copy_tys(infcx.tcx.args(s));
            if is_fn && args.len() >= 1 {
                let ghost all = args@;
                let ret = args.pop().unwrap();
                proof {
                    assert(args@ =~= all.drop_last());
                    assert(infcx.tcx.terms(args@) =~= infcx.tcx.term(s).args.drop_last());
                    assert(infcx.tcx.term(ret) == infcx.tcx.term(s).args.last());
                }
                (args, ret)
            } else {
                proof {
                    assert(infcx.tcx.terms(Seq::<Ty>::empty()) =~= Seq::<Term>::empty());
                }
                (Vec::new(), infcx.tcx.mk_ty_err())
            }
        },
        None => {
            proof {
                assert(infcx.tcx.terms(Seq::<Ty>::empty()) =~= Seq::<Term>::empty());
            }
            (Vec::new(), infcx.tcx.mk_ty_err())
        },
    };
    let mut fcx = FnCtx::new(infcx, interner, ret);
    proof {
        assert(fcx@.bindings =~= Seq::<Option<Term>>::empty());
        assert(fcx@.origins =~= Seq::<crate::span::Span>::empty());
        assert(fcx@ == empty_view(fcx.term(ret)));
    }
    fcx.check_body(&params, body);
    fcx.resolve_inference_variables()
}

/// What checking an item makes of the empty state: a function has its
/// body checked, a struct and an enum have nothing to check.
pub open spec fn item_model(g: Globals, names: &Interner, item: &ir::Item) -> FnView {
    match &item.kind {
        ir::ItemKind::Fn(_, _, body) => typeck_model(g, names, item.id.def, body),
        _ => empty_view(spec::ty_unit()),
    }
}

/// Checks one item and makes every recorded type final.
pub fn check_item(tcx: TyCtx, interner: &Interner, item: &ir::Item) -> (r: Checked)
    requires
        tcx.wf(),
    ensures
        r.tcx.wf(),
        r.tcx.extends(&tcx),
        r.tables.wf(&r.tcx),
        diags_ok(&r.tcx, r.errors@),
        ({
            let v = item_model(tcx.globals(), interner, item);
            &&& r.tables.view_in(&r.tcx) == resolve_tables(v)
            &&& diags_view(&r.tcx, r.errors@) == v.errors + ambiguities(v.bindings, v.origins, 0)
        }),
{
    match &item.kind {
        ir::ItemKind::Fn(_, _, body) => typeck(tcx, interner, item.id.def, body),
        _ => {
            let infcx = InferCtx::new(tcx);
            let unit = infcx.tcx.types().unit;
            let fcx = FnCtx::new(infcx, interner, unit);
            proof {
                assert(fcx@.bindings =~= Seq::<Option<Term>>::empty());
                assert(fcx@.origins =~= Seq::<crate::span::Span>::empty());
                assert(fcx@ == empty_view(spec::ty_unit()));
            }
            fcx.resolve_inference_variables()
        },
    }
}

/// What typing an item hands back: the store, the tables of the item, the
/// complaints, and the typed item where there was no complaint.
pub struct Typed {
    pub tcx: TyCtx,
    pub tables: TypeckTables,
    pub errors: Vec<Diagnostic>,
    pub item: Option<tir::Item>,
}

/// What lowering makes of a checked item: nothing, where the item was
/// complained about.
pub fn lower_checked(tcx: &TyCtx, tables: &TypeckTables, errors: &Vec<Diagnostic>, item: &ir::Item) -> (r:
    Option<tir::Item>)
    requires
        tcx.wf(),
    ensures
        r is Some <==> errors@.len() == 0 && (IrLoweringCtx { tcx, tables }).item_ok(item),
        r matches Some(x) ==> (IrLoweringCtx { tcx, tables }).item_lowered(item, &x),
{
    if errors.len() == 0 {
        match IrLoweringCtx::new(tcx, tables).lower_item(item) {
            Ok(x) => Some(x),
            Err(_) => None,
        }
    } else {
        None
    }
}

/// Checks one item, makes every recorded type final, and lowers the item
/// into a typed item. An item that was complained about is not lowered.
pub fn type_item(tcx: TyCtx, interner: &Interner, item: &ir::Item) -> (r: Typed)
    requires
        tcx.wf(),
    ensures
        r.tcx.wf(),
        r.tcx.extends(&tcx),
        r.tables.wf(&r.tcx),
        diags_ok(&r.tcx, r.errors@),
        ({
            let v = item_model(tcx.globals(), interner, item);
            &&& r.tables.view_in(&r.tcx) == resolve_tables(v)
            &&& diags_view(&r.tcx, r.errors@) == v.errors + ambiguities(v.bindings, v.origins, 0)
        }),
        r.item is Some <==> r.errors@.len() == 0 && (IrLoweringCtx {
            tcx: &r.tcx,
            tables: &r.tables,
        }).item_ok(item),
        r.item matches Some(x) ==> (IrLoweringCtx { tcx: &r.tcx, tables: &r.tables }).item_lowered(
            item,
            &x,
        ),
{
    let Checked { tcx, tables, errors } = check_item(tcx, interner, item);
    let item = lower_checked(&tcx, &tables, &errors, item);
    Typed { tcx, tables, errors, item }
}

} // verus!
