//! Checking a whole program: the types of all items are collected, then
//! every item is checked, and the items without complaint are lowered.

use crate::ir;
use crate::lowering::IrLoweringCtx;
use crate::symbol::Interner;
use crate::tir;
use crate::ty::error::Diagnostic;
use crate::ty::kind::Ty;
use crate::ty::store::{is_prefix, lemma_term_extends, TyCtx};
use crate::typeck::collect::{
    check_item, collect_fn_model, collect_item, collected, item_model, lower_checked, Collected,
};
use crate::typeck::fcx::{adjustments_ok, adjustments_view};
use crate::typeck::view::{
    diags_ok, diags_view, lemma_adts_extend, lemma_diags_extend, lemma_globals_extend,
    lemma_term_map_extends, term_map, DiagView, Globals,
};
use crate::typeck::writeback::{ambiguities, resolve_tables, Checked, TypeckTables};
use vstd::prelude::*;

verus! {

/// What the program is known to hold once an item is collected, and the
/// complaints of collecting it.
pub open spec fn collect_one(g: Globals, item: &ir::Item) -> (Globals, Seq<DiagView>) {
    match &item.kind {
        ir::ItemKind::Fn(sig, generics, _) => {
            let m = collect_fn_model(g, item.id.def, sig, generics);
            (with_fn(g, item.id.def.0, m), m.errors)
        },
        _ => (g, Seq::empty()),
    }
}

/// The program with one more function.
pub open spec fn with_fn(g: Globals, def: usize, m: Collected) -> Globals {
    Globals {
        adts: g.adts,
        items: g.items.insert(def, m.ty),
        sigs: g.sigs.insert(def, m.sig),
        generics: g.generics.insert(def, m.generics),
    }
}

/// What the program is known to hold once the first `n` items are
/// collected, and the complaints of collecting them, in their order.
pub open spec fn collect_upto(g: Globals, items: Seq<ir::Item>, n: nat) -> (Globals, Seq<DiagView>)
    decreases n,
{
    if n == 0 || n > items.len() {
        (g, Seq::empty())
    } else {
        let (g1, e1) = collect_upto(g, items, (n - 1) as nat);
        let (g2, e2) = collect_one(g1, &items[n - 1]);
        (g2, e1 + e2)
    }
}

/// Whether a function among the first `n` items is the definition `k`.
pub open spec fn seen(items: Seq<ir::Item>, n: int, k: usize) -> bool {
    exists|j: int| 0 <= j < n && j < items.len() && (#[trigger] items[j]).kind is Fn && items[j].id.def.0 == k
}

/// Whether the functions of a program can be collected into a store: no
/// two of them are the same definition, and the store knows none of them.
pub open spec fn defs_fresh(tcx: &TyCtx, items: Seq<ir::Item>) -> bool {
    &&& forall|i: int|
        0 <= i < items.len() && (#[trigger] items[i]).kind is Fn ==> !tcx.items().contains_key(
            items[i].id.def.0,
        ) && !tcx.sigs().contains_key(items[i].id.def.0) && !tcx.generic_counts().contains_key(
            items[i].id.def.0,
        )
    &&& forall|i: int, j: int|
        0 <= i < j < items.len() && (#[trigger] items[i]).kind is Fn && (#[trigger] items[j]).kind is Fn
            ==> items[i].id.def != items[j].id.def
}

/// A store to which a function was collected knows the program with that
/// function.
pub proof fn lemma_collected(old: &TyCtx, new: &TyCtx, def: crate::index::DefId, m: Collected)
    requires
        old.wf(),
        is_prefix(old.nodes(), new.nodes()),
        new.spec_adts() == old.spec_adts(),
        collected(old, new, def, m),
    ensures
        new.globals() == with_fn(old.globals(), def.0, m),
{
    old.lemma_tables_valid();
    lemma_adts_extend(new, old);
    lemma_term_map_extends(new, old, old.items());
    lemma_term_map_extends(new, old, old.sigs());
    lemma_term_map_extends(new, old, old.generic_counts());
    assert(term_map(new, new.items()) =~= term_map(old, old.items()).insert(def.0, m.ty)) by {
        assert forall|k: usize| k != def.0 && old.items().contains_key(k) implies new.items().contains_key(k)
            && new.items()[k] == old.items()[k] by {
            assert(new.items().remove(def.0).contains_key(k));
            assert(new.items().remove(def.0)[k] == old.items()[k]);
        }
        assert forall|k: usize| k != def.0 && new.items().contains_key(k) implies old.items().contains_key(k) by {
            assert(new.items().remove(def.0).contains_key(k));
        }
    }
    assert(term_map(new, new.sigs()) =~= term_map(old, old.sigs()).insert(def.0, m.sig)) by {
        assert forall|k: usize| k != def.0 && old.sigs().contains_key(k) implies new.sigs().contains_key(k)
            && new.sigs()[k] == old.sigs()[k] by {
            assert(new.sigs().remove(def.0).contains_key(k));
            assert(new.sigs().remove(def.0)[k] == old.sigs()[k]);
        }
        assert forall|k: usize| k != def.0 && new.sigs().contains_key(k) implies old.sigs().contains_key(k) by {
            assert(new.sigs().remove(def.0).contains_key(k));
        }
    }
    assert(term_map(new, new.generic_counts()) =~= term_map(old, old.generic_counts()).insert(
        def.0,
        m.generics,
    )) by {
        assert forall|k: usize|
            k != def.0 && old.generic_counts().contains_key(k) implies new.generic_counts().contains_key(k)
            && new.generic_counts()[k] == old.generic_counts()[k] by {
            assert(new.generic_counts().remove(def.0).contains_key(k));
            assert(new.generic_counts().remove(def.0)[k] == old.generic_counts()[k]);
        }
        assert forall|k: usize|
            k != def.0 && new.generic_counts().contains_key(k) implies old.generic_counts().contains_key(k) by {
            assert(new.generic_counts().remove(def.0).contains_key(k));
        }
    }
}

/// Collects the types of the items of a program, in their order.
pub fn collect(tcx: TyCtx, interner: &Interner, items: &Vec<ir::Item>) -> (r: (TyCtx, Vec<Diagnostic>))
    requires
        tcx.wf(),
        defs_fresh(&tcx, items@),
    ensures
        r.0.wf(),
        is_prefix(tcx.nodes(), r.0.nodes()),
        r.0.spec_types() == tcx.spec_types(),
        r.0.spec_adts() == tcx.spec_adts(),
        diags_ok(&r.0, r.1@),
        (r.0.globals(), diags_view(&r.0, r.1@)) == collect_upto(tcx.globals(), items@, items@.len()),
{
    let ghost start = tcx;
    let mut tcx = tcx;
    let mut errors: Vec<Diagnostic> = Vec::new();
    let mut i: usize = 0;
    proof {
        assert(diags_view(&tcx, errors@) =~= Seq::<DiagView>::empty());
    }
    while i < items.len()
        invariant
            i <= items.len(),
            tcx.wf(),
            defs_fresh(&start, items@),
            is_prefix(start.nodes(), tcx.nodes()),
            tcx.spec_types() == start.spec_types(),
            tcx.spec_adts() == start.spec_adts(),
            diags_ok(&tcx, errors@),
            (tcx.globals(), diags_view(&tcx, errors@)) == collect_upto(start.globals(), items@, i as nat),
            forall|k: usize|
                tcx.items().contains_key(k) ==> start.items().contains_key(k) || seen(items@, i as int, k),
            forall|k: usize|
                tcx.sigs().contains_key(k) ==> start.sigs().contains_key(k) || seen(items@, i as int, k),
            forall|k: usize|
                tcx.generic_counts().contains_key(k) ==> start.generic_counts().contains_key(k) || seen(
                    items@,
                    i as int,
                    k,
                ),
        decreases items.len() - i,
    {
        let item = &items[i];
        let ghost before = tcx;
        let ghost before_errors = errors@;
        proof {
            if item.kind is Fn {
                let d = item.id.def.0;
                if seen(items@, i as int, d) {
                    let j = choose|j: int|
                        0 <= j < i && j < items@.len() && (#[trigger] items@[j]).kind is Fn
                            && items@[j].id.def.0 == d;
                    assert(items@[j].id.def != items@[i as int].id.def);
                }
            }
        }
        let (next, mut found) = collect_item(tcx, interner, item);
        tcx = next;
        proof {
            lemma_diags_extend(&tcx, &before, before_errors);
            assert(diags_view(&tcx, before_errors + found@) =~= diags_view(&before, before_errors)
                + diags_view(&tcx, found@));
            match &item.kind {
                ir::ItemKind::Fn(sig, generics, _) => {
                    let m = collect_fn_model(before.globals(), item.id.def, sig, generics);
                    lemma_collected(&before, &tcx, item.id.def, m);
                    let d = item.id.def.0;
                    assert(seen(items@, i + 1, d)) by {
                        assert(items@[i as int].kind is Fn && items@[i as int].id.def.0 == d);
                    }
                    assert forall|k: usize| tcx.items().contains_key(k) implies start.items().contains_key(k)
                        || seen(items@, i + 1, k) by {
                        if k != d {
                            assert(tcx.items().remove(d).contains_key(k));
                            lemma_seen_more(items@, i as int, k);
                        }
                    }
                    assert forall|k: usize| tcx.sigs().contains_key(k) implies start.sigs().contains_key(k)
                        || seen(items@, i + 1, k) by {
                        if k != d {
                            assert(tcx.sigs().remove(d).contains_key(k));
                            lemma_seen_more(items@, i as int, k);
                        }
                    }
                    assert forall|k: usize|
                        tcx.generic_counts().contains_key(k) implies start.generic_counts().contains_key(k)
                        || seen(items@, i + 1, k) by {
                        if k != d {
                            assert(tcx.generic_counts().remove(d).contains_key(k));
                            lemma_seen_more(items@, i as int, k);
                        }
                    }
                },
                _ => {
                    assert(diags_view(&tcx, found@) =~= Seq::<DiagView>::empty());
                    assert forall|k: usize| seen(items@, i as int, k) implies seen(items@, i + 1, k) by {
                        lemma_seen_more(items@, i as int, k);
                    }
                },
            }
        }
        errors.append(&mut found);
        i += 1;
    }
    (tcx, errors)
}

/// What was seen among fewer items is seen among more.
pub proof fn lemma_seen_more(items: Seq<ir::Item>, n: int, k: usize)
    ensures
        seen(items, n, k) ==> seen(items, n + 1, k),
{
    if seen(items, n, k) {
        let j = choose|j: int|
            0 <= j < n && j < items.len() && (#[trigger] items[j]).kind is Fn && items[j].id.def.0 == k;
        assert(0 <= j < n + 1 && items[j].kind is Fn && items[j].id.def.0 == k);
    }
}

/// The tables of an item keep their meaning when the store grows.
pub proof fn lemma_tables_extend(new: &TyCtx, old: &TyCtx, tables: &TypeckTables)
    requires
        is_prefix(old.nodes(), new.nodes()),
        tables.wf(old),
    ensures
        tables.wf(new),
        tables.view_in(new) == tables.view_in(old),
{
    lemma_term_map_extends(new, old, tables.node_types@);
    let a = tables.adjustments@;
    assert forall|i: int| 0 <= i < a.len() implies new.has((#[trigger] a[i]).1.ty) && new.term(a[i].1.ty)
        == old.term(a[i].1.ty) by {
        lemma_term_extends(old.nodes(), new.nodes(), a[i].1.ty);
    }
    assert(adjustments_view(new, a) =~= adjustments_view(old, a));
}

/// The tables and the complaints of one item.
pub struct ItemTables {
    pub tables: TypeckTables,
    pub errors: Vec<Diagnostic>,
}

/// A program that went through collection, checking and lowering.
pub struct TypedProg {
    pub tcx: TyCtx,
    /// The complaints of collection.
    pub errors: Vec<Diagnostic>,
    /// The tables and the complaints of every item, in the order of the
    /// items.
    pub checked: Vec<ItemTables>,
    /// The typed items, in the order of the items; nothing at the place of
    /// an item that was complained about.
    pub items: Vec<Option<tir::Item>>,
}

/// Whether the tables and the complaints are those of checking the item
/// in a program.
pub open spec fn checked_as(tcx: &TyCtx, c: &ItemTables, g: Globals, names: &Interner, item: &ir::Item) -> bool {
    let v = item_model(g, names, item);
    &&& c.tables.wf(tcx)
    &&& diags_ok(tcx, c.errors@)
    &&& c.tables.view_in(tcx) == resolve_tables(v)
    &&& diags_view(tcx, c.errors@) == v.errors + ambiguities(v.bindings, v.origins, 0)
}

/// Whether the typed item is what lowering makes of a checked item:
/// nothing, where the item was complained about.
pub open spec fn lowered_as(tcx: &TyCtx, c: &ItemTables, item: &ir::Item, x: Option<tir::Item>) -> bool {
    let ctx = IrLoweringCtx { tcx, tables: &c.tables };
    &&& x is Some <==> c.errors@.len() == 0 && ctx.item_ok(item)
    &&& x matches Some(t) ==> ctx.item_lowered(item, &t)
}

/// Checks every item of a program against the collected types.
pub fn check_items(tcx: TyCtx, interner: &Interner, items: &Vec<ir::Item>) -> (r: (TyCtx, Vec<ItemTables>))
    requires
        tcx.wf(),
    ensures
        r.0.wf(),
        r.0.extends(&tcx),
        r.1@.len() == items@.len(),
        forall|j: int|
            0 <= j < items@.len() ==> checked_as(&r.0, #[trigger] &r.1@[j], tcx.globals(), interner, &items@[j]),
{
    let ghost start = tcx;
    let ghost g = tcx.globals();
    let mut tcx = tcx;
    let mut checked: Vec<ItemTables> = Vec::new();
    let mut i: usize = 0;
    while i < items.len()
        invariant
            i <= items.len(),
            start.wf(),
            g == start.globals(),
            tcx.wf(),
            tcx.extends(&start),
            checked@.len() == i,
            forall|j: int| 0 <= j < i ==> checked_as(&tcx, #[trigger] &checked@[j], g, interner, &items@[j]),
        decreases items.len() - i,
    {
        let ghost before = tcx;
        let ghost done = checked@;
        proof {
            lemma_globals_extend(&tcx, &start);
        }
        let Checked { tcx: next, tables, errors } = check_item(tcx, interner, &items[i]);
        tcx = next;
        proof {
            tcx.lemma_extends_trans(&before, &start);
            assert forall|j: int| 0 <= j < i implies checked_as(&tcx, #[trigger] &done[j], g, interner, &items@[j]) by {
                assert(checked_as(&before, &done[j], g, interner, &items@[j]));
                lemma_tables_extend(&tcx, &before, &done[j].tables);
                lemma_diags_extend(&tcx, &before, done[j].errors@);
            }
        }
        checked.push(ItemTables { tables, errors });
        i += 1;
    }
    (tcx, checked)
}

/// Lowers every item that was checked without complaint.
pub fn lower_items(tcx: &TyCtx, checked: &Vec<ItemTables>, items: &Vec<ir::Item>) -> (r: Vec<Option<tir::Item>>)
    requires
        tcx.wf(),
        checked@.len() == items@.len(),
    ensures
        r@.len() == items@.len(),
        forall|j: int| 0 <= j < items@.len() ==> lowered_as(tcx, &checked@[j], &items@[j], #[trigger] r@[j]),
{
    let mut out: Vec<Option<tir::Item>> = Vec::new();
    let mut i: usize = 0;
    while i < items.len()
        invariant
            i <= items.len(),
            tcx.wf(),
            checked@.len() == items@.len(),
            out@.len() == i,
            forall|j: int| 0 <= j < i ==> lowered_as(tcx, &checked@[j], &items@[j], #[trigger] out@[j]),
        decreases items.len() - i,
    {
        let c = &checked[i];
        let x = lower_checked(tcx, &c.tables, &c.errors, &items[i]);
        out.push(x);
        i += 1;
    }
    out
}

/// Collects the types of the items of a program, checks every item, and
/// lowers the items that were not complained about.
pub fn run_typeck(tcx: TyCtx, interner: &Interner, prog: &ir::Ir) -> (r: TypedProg)
    requires
        tcx.wf(),
        defs_fresh(&tcx, prog.items@),
    ensures
        r.tcx.wf(),
        is_prefix(tcx.nodes(), r.tcx.nodes()),
        r.tcx.spec_types() == tcx.spec_types(),
        r.tcx.spec_adts() == tcx.spec_adts(),
        diags_ok(&r.tcx, r.errors@),
        (r.tcx.globals(), diags_view(&r.tcx, r.errors@)) == collect_upto(
            tcx.globals(),
            prog.items@,
            prog.items@.len(),
        ),
        r.checked@.len() == prog.items@.len(),
        r.items@.len() == prog.items@.len(),
        forall|j: int|
            0 <= j < prog.items@.len() ==> checked_as(
                &r.tcx,
                #[trigger] &r.checked@[j],
                r.tcx.globals(),
                interner,
                &prog.items@[j],
            ),
        forall|j: int|
            0 <= j < prog.items@.len() ==> lowered_as(
                &r.tcx,
                &r.checked@[j],
                &prog.items@[j],
                #[trigger] r.items@[j],
            ),
{
    let (collected, errors) = collect(tcx, interner, &prog.items);
    let ghost mid = collected;
    let (tcx, checked) = check_items(collected, interner, &prog.items);
    proof {
        lemma_globals_extend(&tcx, &mid);
        lemma_diags_extend(&tcx, &mid, errors@);
    }
    let items = lower_items(&tcx, &checked, &prog.items);
    TypedProg { tcx, errors, checked, items }
}

} // verus!
