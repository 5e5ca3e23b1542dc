//! The type store: every type is interned once and named by its handle.

use crate::ast::Ident;
use crate::fxmap::{fx_get, fx_insert, fx_new, lookup};
use crate::index::{DefId, ParamIdx};
use crate::indexed::Variants;
use crate::ty::adt::{check_duplicates, duplicate_fields_of, AdtKind, AdtTy, VariantTy};
use crate::ty::error::Diagnostic;
use crate::ty::flags::{lemma_flags_ext, lemma_of_bits, lemma_union, TyFlags};
use crate::ty::kind::{AdtId, Forall, ParamTy};
use rustc_hash::FxHashMap;
use crate::ty::kind::{Node, Ty, TyCon, TyKind};
use crate::ty::term::Term;
use vstd::prelude::*;

verus! {

/// One slot of the store: a constructor, its arguments, and the property
/// bits of the type, computed when it was interned.
pub struct TyS {
    flags: TyFlags,
    con: TyCon,
    args: Vec<Ty>,
}

impl TyS {
    pub closed spec fn cached_flags(&self) -> TyFlags {
        self.flags
    }

    /// The property bits that were computed when the type was interned.
    pub fn flags(&self) -> (f: TyFlags)
        ensures
            f == self.cached_flags(),
    {
        self.flags
    }
}

/// Handles of the types that every program uses.
#[derive(Debug, Clone, Copy, PartialEq, Eq, Structural)]
pub struct CommonTypes {
    pub bool: Ty,
    pub char: Ty,
    pub unit: Ty,
    pub discr: Ty,
    pub float: Ty,
    pub int: Ty,
    pub never: Ty,
    pub error: Ty,
}

/// The typing context: the store of interned types, the descriptors of the
/// algebraic data types, and what collection found out about the items.
pub struct TyCtx {
    interned: Vec<TyS>,
    common: CommonTypes,
    adts: Vec<AdtTy>,
    /// Maps an item to its type.
    collected_tys: FxHashMap<usize, usize>,
    /// Maps a function to its signature, a function pointer type.
    fn_sigs: FxHashMap<usize, usize>,
    /// Maps an item to the tuple of its generic parameters: the identity
    /// substitution of the item.
    generics: FxHashMap<usize, usize>,
}

/// Whether every field of every variant has a type of a store of `n` slots.
pub open spec fn adts_ok(adts: Seq<AdtTy>, n: nat) -> bool {
    forall|a: int, v: int, f: int|
        0 <= a < adts.len() && 0 <= v < adts[a].variants@.len() && 0 <= f
            < adts[a].variants@[v].fields@.len() ==> (
        #[trigger] adts[a].variants@[v].fields@[f]).ty.0 < n
}

/// Whether every variant's fields have types of a store of `n` slots.
pub open spec fn variants_ok(variants: Seq<VariantTy>, n: nat) -> bool {
    forall|v: int, f: int|
        0 <= v < variants.len() && 0 <= f < variants[v].fields@.len() ==> (
        #[trigger] variants[v].fields@[f]).ty.0 < n
}

/// Whether every value of the map is a handle of a store of `n` slots.
pub open spec fn items_ok(items: Map<usize, usize>, n: nat) -> bool {
    forall|k: usize| items.contains_key(k) ==> (#[trigger] items[k]) < n
}

/// The tree that a handle stands for in a store.
pub open spec fn term_of(nodes: Seq<Node>, t: Ty) -> Term
    decreases t.0,
{
    if t.0 < nodes.len() {
        Term {
            con: nodes[t.0 as int].con,
            args: Seq::new(
                nodes[t.0 as int].args.len(),
                |i: int|
                    {
                        let c = nodes[t.0 as int].args[i];
                        if c.0 < t.0 {
                            term_of(nodes, c)
                        } else {
                            Term::leaf(TyCon::Error)
                        }
                    },
            ),
        }
    } else {
        Term::leaf(TyCon::Error)
    }
}

/// The trees that a list of handles stands for.
pub open spec fn terms_of(nodes: Seq<Node>, ts: Seq<Ty>) -> Seq<Term> {
    Seq::new(ts.len(), |i: int| term_of(nodes, ts[i]))
}

/// Every slot has as many arguments as its constructor takes, every argument
/// was interned before the slot itself, and no two slots hold the same
/// constructor applied to the same arguments.
pub open spec fn nodes_wf(nodes: Seq<Node>) -> bool {
    &&& forall|t: int|
        0 <= t < nodes.len() ==> (#[trigger] nodes[t]).con.arity_ok(nodes[t].args.len())
    &&& forall|t: int, i: int|
        0 <= t < nodes.len() && 0 <= i < nodes[t].args.len() ==> (#[trigger] nodes[t].args[i]).0
            < t
    &&& forall|a: int, b: int|
        0 <= a < nodes.len() && 0 <= b < nodes.len() && (#[trigger] nodes[a]).con == (
        #[trigger] nodes[b]).con && nodes[a].args == nodes[b].args ==> a == b
}

/// Whether `old` is what `new` began with.
pub open spec fn is_prefix(old: Seq<Node>, new: Seq<Node>) -> bool {
    &&& old.len() <= new.len()
    &&& forall|t: int| 0 <= t < old.len() ==> #[trigger] new[t] == old[t]
}

/// Whether the node stands in the store.
pub open spec fn holds(nodes: Seq<Node>, node: Node) -> bool {
    exists|i: int| 0 <= i < nodes.len() && (#[trigger] nodes[i]).con == node.con && nodes[i].args == node.args
}

/// Interning: the handle of the node where the store holds it, else the
/// store with the node appended and the handle of the new slot.
pub open spec fn intern(nodes: Seq<Node>, node: Node) -> (Seq<Node>, Ty) {
    if holds(nodes, node) {
        (
            nodes,
            Ty(
                (choose|i: int|
                    0 <= i < nodes.len() && (#[trigger] nodes[i]).con == node.con && nodes[i].args
                        == node.args) as usize,
            ),
        )
    } else {
        (nodes.push(node), Ty(nodes.len() as usize))
    }
}

/// Interning twice is interning once: the second call finds what the first
/// one left, and hands back the same handle.
pub proof fn lemma_intern_idempotent(nodes: Seq<Node>, node: Node)
    ensures
        intern(intern(nodes, node).0, node) == intern(nodes, node),
{
    if !holds(nodes, node) {
        let grown = nodes.push(node);
        assert(grown[nodes.len() as int] == node);
        assert(holds(grown, node));
        let k = choose|i: int|
            0 <= i < grown.len() && (#[trigger] grown[i]).con == node.con && grown[i].args
                == node.args;
        if k < nodes.len() {
            assert(nodes[k] == grown[k]);
            assert(holds(nodes, node));
        }
    }
}

/// A handle keeps its tree when the store grows.
pub proof fn lemma_term_extends(old: Seq<Node>, new: Seq<Node>, t: Ty)
    requires
        is_prefix(old, new),
        t.0 < old.len(),
    ensures
        term_of(new, t) == term_of(old, t),
    decreases t.0,
{
    let n = old[t.0 as int];
    assert(new[t.0 as int] == n);
    assert forall|i: int| 0 <= i < n.args.len() && n.args[i].0 < t.0 implies term_of(
        new,
        n.args[i],
    ) == term_of(old, n.args[i]) by {
        lemma_term_extends(old, new, n.args[i]);
    }
    assert(term_of(new, t).args =~= term_of(old, t).args);
}

/// The trees of a list of handles stay as they are when the store grows.
pub proof fn lemma_terms_extend(old: Seq<Node>, new: Seq<Node>, ts: Seq<Ty>)
    requires
        is_prefix(old, new),
        forall|i: int| 0 <= i < ts.len() ==> (#[trigger] ts[i]).0 < old.len(),
    ensures
        terms_of(new, ts) == terms_of(old, ts),
{
    assert forall|i: int| 0 <= i < ts.len() implies term_of(new, ts[i]) == term_of(
        old,
        ts[i],
    ) by {
        lemma_term_extends(old, new, ts[i]);
    }
    assert(terms_of(new, ts) =~= terms_of(old, ts));
}

/// The tree of a handle is its constructor applied to the trees of its
/// arguments.
pub proof fn lemma_term_unfold(nodes: Seq<Node>, t: Ty)
    requires
        nodes_wf(nodes),
        t.0 < nodes.len(),
    ensures
        term_of(nodes, t) == (Term {
            con: nodes[t.0 as int].con,
            args: terms_of(nodes, nodes[t.0 as int].args),
        }),
{
    assert(term_of(nodes, t).args =~= terms_of(nodes, nodes[t.0 as int].args));
}

/// Canonical handles: in a well-formed store two handles with the same tree
/// are the same handle.
pub proof fn lemma_term_injective(nodes: Seq<Node>, a: Ty, b: Ty)
    requires
        nodes_wf(nodes),
        a.0 < nodes.len(),
        b.0 < nodes.len(),
        term_of(nodes, a) == term_of(nodes, b),
    ensures
        a == b,
    decreases a.0,
{
    lemma_term_unfold(nodes, a);
    lemma_term_unfold(nodes, b);
    let na = nodes[a.0 as int];
    let nb = nodes[b.0 as int];
    assert(terms_of(nodes, na.args).len() == terms_of(nodes, nb.args).len());
    assert forall|i: int| 0 <= i < na.args.len() implies na.args[i] == nb.args[i] by {
        assert(terms_of(nodes, na.args)[i] == terms_of(nodes, nb.args)[i]);
        lemma_term_injective(nodes, na.args[i], nb.args[i]);
    }
    assert(na.args =~= nb.args);
}

/// The bits that a constructor sets by itself.
pub open spec fn own_flags(con: TyCon) -> TyFlags {
    TyFlags::spec_of(con == TyCon::Error, con is Infer, con is Param)
}

/// A copy of a list of handles.
pub fn copy_tys(ts: &Vec<Ty>) -> (r: Vec<Ty>)
    ensures
        r@ == ts@,
{
    let mut r: Vec<Ty> = Vec::new();
    let mut i: usize = 0;
    while i < ts.len()
        invariant
            i <= ts.len(),
            r@ == ts@.take(i as int),
        decreases ts.len() - i,
    {
        r.push(ts[i]);
        assert(ts@.take(i + 1) == ts@.take(i as int).push(ts@[i as int]));
        i += 1;
    }
    assert(ts@.take(i as int) == ts@);
    r
}

impl TyS {
    pub closed spec fn node(&self) -> Node {
        Node { con: self.con, args: self.args@ }
    }
}

/// The content of a run of slots.
pub closed spec fn slots_nodes(slots: Seq<TyS>) -> Seq<Node> {
    Seq::new(slots.len(), |i: int| slots[i].node())
}

/// The cached bits of every slot are those of its tree.
pub closed spec fn slots_flags_ok(slots: Seq<TyS>) -> bool {
    forall|t: int|
        0 <= t < slots.len() ==> (#[trigger] slots[t]).flags == term_of(
            slots_nodes(slots),
            Ty(t as usize),
        ).flags()
}

/// Whether two lists of handles are the same list.
fn ty_list_eq(a: &Vec<Ty>, b: &Vec<Ty>) -> (r: bool)
    ensures
        r == (a@ == b@),
{
    if a.len() != b.len() {
        return false;
    }
    let mut i: usize = 0;
    while i < a.len()
        invariant
            i <= a.len(),
            a.len() == b.len(),
            forall|j: int| 0 <= j < i ==> a@[j] == b@[j],
        decreases a.len() - i,
    {
        if a[i] != b[i] {
            return false;
        }
        i += 1;
    }
    assert(a@ =~= b@);
    true
}

/// The bits that a constructor sets by itself.
fn own_flags_of(con: TyCon) -> (f: TyFlags)
    ensures
        f == own_flags(con),
{
    proof {
        lemma_of_bits(false, false, false);
    }
    match con {
        TyCon::Error => TyFlags::has_error_flag(),
        TyCon::Infer(_) => TyFlags::has_infer_flag(),
        TyCon::Param(_) => TyFlags::has_param_flag(),
        _ => TyFlags::empty(),
    }
}

/// Interns a constructor applied to arguments into a run of slots.
fn intern_into(slots: &mut Vec<TyS>, con: TyCon, args: Vec<Ty>) -> (t: Ty)
    requires
        nodes_wf(slots_nodes(old(slots)@)),
        slots_flags_ok(old(slots)@),
        con.arity_ok(args@.len()),
        forall|i: int| 0 <= i < args@.len() ==> (#[trigger] args@[i]).0 < old(slots)@.len(),
    ensures
        nodes_wf(slots_nodes(final(slots)@)),
        slots_flags_ok(final(slots)@),
        is_prefix(slots_nodes(old(slots)@), slots_nodes(final(slots)@)),
        (slots_nodes(final(slots)@), t) == intern(
            slots_nodes(old(slots)@),
            (Node { con, args: args@ }),
        ),
        t.0 < final(slots)@.len(),
        term_of(slots_nodes(final(slots)@), t) == (Term {
            con,
            args: terms_of(slots_nodes(old(slots)@), args@),
        }),
{
    let ghost old_nodes = slots_nodes(slots@);
    let ghost node = Node { con, args: args@ };
    let n = slots.len();
    let mut i: usize = 0;
    while i < n
        invariant
            i <= n,
            n == slots@.len(),
            slots@ == old(slots)@,
            old_nodes == slots_nodes(slots@),
            nodes_wf(old_nodes),
            slots_flags_ok(slots@),
            node == (Node { con, args: args@ }),
            forall|j: int|
                0 <= j < i ==> !((#[trigger] old_nodes[j]).con == con && old_nodes[j].args
                    == args@),
        decreases n - i,
    {
        if slots[i].con == con && ty_list_eq(&slots[i].args, &args) {
            proof {
                assert(old_nodes[i as int].con == con && old_nodes[i as int].args == args@);
                assert(holds(old_nodes, node));
                let k = choose|k: int|
                    0 <= k < old_nodes.len() && (#[trigger] old_nodes[k]).con == node.con
                        && old_nodes[k].args == node.args;
                assert(k == i);
                lemma_term_unfold(old_nodes, Ty(i));
            }
            return Ty(i);
        }
        i += 1;
    }
    assert(!holds(old_nodes, node));
    let mut flags = own_flags_of(con);
    let mut j: usize = 0;
    proof {
        lemma_of_bits(con == TyCon::Error, con is Infer, con is Param);
    }
    while j < args.len()
        invariant
            j <= args.len(),
            slots@ == old(slots)@,
            old_nodes == slots_nodes(slots@),
            slots_flags_ok(slots@),
            forall|i: int| 0 <= i < args@.len() ==> (#[trigger] args@[i]).0 < slots@.len(),
            flags.in_range(),
            flags.spec_has_error() == (con == TyCon::Error || exists|k: int|
                0 <= k < j && (#[trigger] terms_of(old_nodes, args@)[k]).has_error()),
            flags.spec_has_infer() == (con is Infer || exists|k: int|
                0 <= k < j && (#[trigger] terms_of(old_nodes, args@)[k]).has_infer()),
            flags.spec_has_param() == (con is Param || exists|k: int|
                0 <= k < j && (#[trigger] terms_of(old_nodes, args@)[k]).has_param()),
        decreases args.len() - j,
    {
        let c = args[j];
        let cf = slots[c.0].flags;
        proof {
            let x = term_of(old_nodes, c);
            assert(slots@[c.0 as int].flags == term_of(old_nodes, Ty(c.0)).flags());
            assert(terms_of(old_nodes, args@)[j as int] == x);
            lemma_of_bits(x.has_error(), x.has_infer(), x.has_param());
            lemma_union(flags, cf);
        }
        flags = flags.union(cf);
        j += 1;
    }
    let ghost args_seq = args@;
    slots.push(TyS { flags, con, args });
    let t = Ty(n);
    proof {
        let new_nodes = slots_nodes(slots@);
        assert(new_nodes =~= old_nodes.push(node));
        assert(is_prefix(old_nodes, new_nodes));
        assert(nodes_wf(new_nodes)) by {
            assert forall|a: int, b: int|
                0 <= a < new_nodes.len() && 0 <= b < new_nodes.len() && (
                #[trigger] new_nodes[a]).con == (#[trigger] new_nodes[b]).con && new_nodes[a].args
                    == new_nodes[b].args implies a == b by {
                if a < n && b < n {
                    assert(old_nodes[a] == new_nodes[a]);
                    assert(old_nodes[b] == new_nodes[b]);
                } else if a < n {
                    assert(old_nodes[a] == new_nodes[a]);
                } else if b < n {
                    assert(old_nodes[b] == new_nodes[b]);
                }
            }
            assert forall|u: int, i: int|
                0 <= u < new_nodes.len() && 0 <= i < new_nodes[u].args.len() implies (
                #[trigger] new_nodes[u].args[i]).0 < u by {
                if u < n {
                    assert(old_nodes[u] == new_nodes[u]);
                }
            }
            assert forall|u: int| 0 <= u < new_nodes.len() implies (
            #[trigger] new_nodes[u]).con.arity_ok(new_nodes[u].args.len()) by {
                if u < n {
                    assert(old_nodes[u] == new_nodes[u]);
                }
            }
        }
        lemma_term_unfold(new_nodes, t);
        lemma_terms_extend(old_nodes, new_nodes, args_seq);
        let x = term_of(new_nodes, t);
        assert(x.args == terms_of(old_nodes, args_seq));
        lemma_of_bits(x.has_error(), x.has_infer(), x.has_param());
        lemma_flags_ext(flags, x.flags());
        assert forall|u: int| 0 <= u < slots@.len() implies (#[trigger] slots@[u]).flags == term_of(
            new_nodes,
            Ty(u as usize),
        ).flags() by {
            if u < n {
                lemma_term_extends(old_nodes, new_nodes, Ty(u as usize));
                assert(slots@[u] == old(slots)@[u]);
            }
        }
    }
    t
}

impl TyCtx {
    /// The content of the store, slot by slot.
    pub closed spec fn nodes(&self) -> Seq<Node> {
        slots_nodes(self.interned@)
    }

    /// The handles of the common types.
    pub closed spec fn spec_types(&self) -> CommonTypes {
        self.common
    }

    /// The descriptors of the algebraic data types.
    pub closed spec fn spec_adts(&self) -> Seq<AdtTy> {
        self.adts@
    }

    /// The collected types of the items, by definition.
    pub closed spec fn items(&self) -> Map<usize, usize> {
        self.collected_tys@
    }

    /// The signatures of the functions, by definition.
    pub closed spec fn sigs(&self) -> Map<usize, usize> {
        self.fn_sigs@
    }

    /// The tuples of the generic parameters of the items, by definition.
    pub closed spec fn generic_counts(&self) -> Map<usize, usize> {
        self.generics@
    }

    /// Whether the handle names a descriptor of this store.
    pub open spec fn has_adt(&self, a: AdtId) -> bool {
        a.0 < self.spec_adts().len()
    }

    /// Whether the handle names a slot of this store.
    pub open spec fn has(&self, t: Ty) -> bool {
        t.0 < self.nodes().len()
    }

    /// Whether every handle of the list names a slot of this store.
    pub open spec fn has_all(&self, ts: Seq<Ty>) -> bool {
        forall|i: int| 0 <= i < ts.len() ==> self.has(#[trigger] ts[i])
    }

    /// The tree that the handle stands for.
    pub open spec fn term(&self, t: Ty) -> Term {
        term_of(self.nodes(), t)
    }

    /// The trees that the handles stand for.
    pub open spec fn terms(&self, ts: Seq<Ty>) -> Seq<Term> {
        terms_of(self.nodes(), ts)
    }

    /// The cached bits of every slot are those of its tree.
    pub closed spec fn flags_cached(&self) -> bool {
        slots_flags_ok(self.interned@)
    }

    /// The common types are interned and are what their names say.
    pub open spec fn common_ok(&self) -> bool {
        let c = self.spec_types();
        &&& self.has(c.bool) && self.term(c.bool) == Term::leaf(TyCon::Bool)
        &&& self.has(c.char) && self.term(c.char) == Term::leaf(TyCon::Char)
        &&& self.has(c.unit) && self.term(c.unit) == Term::leaf(TyCon::Tuple)
        &&& self.has(c.discr) && self.term(c.discr) == Term::leaf(TyCon::Discr)
        &&& self.has(c.float) && self.term(c.float) == Term::leaf(TyCon::Float)
        &&& self.has(c.int) && self.term(c.int) == Term::leaf(TyCon::Int)
        &&& self.has(c.never) && self.term(c.never) == Term::leaf(TyCon::Never)
        &&& self.has(c.error) && self.term(c.error) == Term::leaf(TyCon::Error)
    }

    /// The invariant of the store.
    pub open spec fn wf(&self) -> bool {
        &&& nodes_wf(self.nodes())
        &&& self.flags_cached()
        &&& self.common_ok()
        &&& adts_ok(self.spec_adts(), self.nodes().len())
        &&& items_ok(self.items(), self.nodes().len())
        &&& items_ok(self.sigs(), self.nodes().len())
        &&& items_ok(self.generic_counts(), self.nodes().len())
    }

    /// Whether this store is `old` with types appended.
    pub open spec fn extends(&self, old: &TyCtx) -> bool {
        &&& is_prefix(old.nodes(), self.nodes())
        &&& self.spec_types() == old.spec_types()
        &&& self.spec_adts() == old.spec_adts()
        &&& self.items() == old.items()
        &&& self.sigs() == old.sigs()
        &&& self.generic_counts() == old.generic_counts()
    }

    /// What a grown store keeps: handles, and the tree of each.
    pub proof fn lemma_extends(&self, old: &TyCtx, t: Ty)
        requires
            self.extends(old),
            old.has(t),
        ensures
            self.has(t),
            self.term(t) == old.term(t),
    {
        lemma_term_extends(old.nodes(), self.nodes(), t);
    }

    /// The same, for the solver to use by itself.
    pub broadcast proof fn lemma_extends_auto(&self, old: &TyCtx, t: Ty)
        requires
            #[trigger] self.extends(old),
            old.has(t),
        ensures
            self.has(t),
            #[trigger] self.term(t) == old.term(t),
    {
        lemma_term_extends(old.nodes(), self.nodes(), t);
    }

    /// The same for lists of handles.
    pub broadcast proof fn lemma_extends_all_auto(&self, old: &TyCtx, ts: Seq<Ty>)
        requires
            #[trigger] self.extends(old),
            old.has_all(ts),
        ensures
            self.has_all(ts),
            #[trigger] self.terms(ts) == old.terms(ts),
    {
        lemma_terms_extend(old.nodes(), self.nodes(), ts);
    }

    pub proof fn lemma_extends_all(&self, old: &TyCtx, ts: Seq<Ty>)
        requires
            self.extends(old),
            old.has_all(ts),
        ensures
            self.has_all(ts),
            self.terms(ts) == old.terms(ts),
    {
        lemma_terms_extend(old.nodes(), self.nodes(), ts);
    }

    pub proof fn lemma_extends_trans(&self, mid: &TyCtx, old: &TyCtx)
        requires
            self.extends(mid),
            mid.extends(old),
        ensures
            self.extends(old),
    {
    }

    /// Handles are canonical: equal trees, equal handles.
    pub proof fn lemma_canonical(&self, a: Ty, b: Ty)
        requires
            self.wf(),
            self.has(a),
            self.has(b),
            self.term(a) == self.term(b),
        ensures
            a == b,
    {
        lemma_term_injective(self.nodes(), a, b);
    }

    /// The arguments of an interned type are interned too.
    pub proof fn lemma_args_valid(&self, t: Ty)
        requires
            self.wf(),
            self.has(t),
        ensures
            self.has_all(self.nodes()[t.0 as int].args),
            self.nodes()[t.0 as int].con.arity_ok(self.nodes()[t.0 as int].args.len()),
            self.term(t) == (Term {
                con: self.nodes()[t.0 as int].con,
                args: self.terms(self.nodes()[t.0 as int].args),
            }),
            forall|i: int|
                0 <= i < self.nodes()[t.0 as int].args.len() ==> (
                #[trigger] self.nodes()[t.0 as int].args[i]).0 < t.0,
    {
        lemma_term_unfold(self.nodes(), t);
    }

    /// A store that holds the common types and nothing else.
    pub fn new() -> (tcx: TyCtx)
        ensures
            tcx.wf(),
    {
        let mut slots: Vec<TyS> = Vec::new();
        assert(slots_nodes(slots@) =~= Seq::<Node>::empty());
        let bool = intern_into(&mut slots, TyCon::Bool, Vec::new());
        let ghost s1 = slots_nodes(slots@);
        let char = intern_into(&mut slots, TyCon::Char, Vec::new());
        let ghost s2 = slots_nodes(slots@);
        let unit = intern_into(&mut slots, TyCon::Tuple, Vec::new());
        let ghost s3 = slots_nodes(slots@);
        let discr = intern_into(&mut slots, TyCon::Discr, Vec::new());
        let ghost s4 = slots_nodes(slots@);
        let float = intern_into(&mut slots, TyCon::Float, Vec::new());
        let ghost s5 = slots_nodes(slots@);
        let int_ty = intern_into(&mut slots, TyCon::Int, Vec::new());
        let ghost s6 = slots_nodes(slots@);
        let never = intern_into(&mut slots, TyCon::Never, Vec::new());
        let ghost s7 = slots_nodes(slots@);
        let error = intern_into(&mut slots, TyCon::Error, Vec::new());
        let ghost s8 = slots_nodes(slots@);
        proof {
            lemma_term_extends(s1, s8, bool);
            lemma_term_extends(s2, s8, char);
            lemma_term_extends(s3, s8, unit);
            lemma_term_extends(s4, s8, discr);
            lemma_term_extends(s5, s8, float);
            lemma_term_extends(s6, s8, int_ty);
            lemma_term_extends(s7, s8, never);
            let e = Seq::<Ty>::empty();
            assert(terms_of(Seq::<Node>::empty(), e) =~= Seq::<Term>::empty());
            assert(terms_of(s1, e) =~= Seq::<Term>::empty());
            assert(terms_of(s2, e) =~= Seq::<Term>::empty());
            assert(terms_of(s3, e) =~= Seq::<Term>::empty());
            assert(terms_of(s4, e) =~= Seq::<Term>::empty());
            assert(terms_of(s5, e) =~= Seq::<Term>::empty());
            assert(terms_of(s6, e) =~= Seq::<Term>::empty());
            assert(terms_of(s7, e) =~= Seq::<Term>::empty());
        }
        TyCtx {
            interned: slots,
            common: CommonTypes { bool, char, unit, discr, float, int: int_ty, never, error },
            adts: Vec::new(),
            collected_tys: fx_new(),
            fn_sigs: fx_new(),
            generics: fx_new(),
        }
    }

    /// Records the descriptor of an algebraic data type. A field name that
    /// is declared twice in one variant is complained about; the field is
    /// recorded all the same.
    pub fn mk_adt(&mut self, def_id: DefId, kind: AdtKind, ident: Ident, variants: Variants) -> (r:
        (AdtId, Vec<Diagnostic>))
        requires
            old(self).wf(),
            AdtTy::shape_ok(kind, variants@),
            variants_ok(variants@, old(self).nodes().len()),
        ensures
            final(self).wf(),
            final(self).nodes() == old(self).nodes(),
            final(self).spec_types() == old(self).spec_types(),
            final(self).items() == old(self).items(),
            final(self).sigs() == old(self).sigs(),
            final(self).generic_counts() == old(self).generic_counts(),
            final(self).spec_adts() == old(self).spec_adts().push(
                (AdtTy { def_id, kind, ident, variants }),
            ),
            r.0 == AdtId(old(self).spec_adts().len() as usize),
            r.1@ == duplicate_fields_of(ident, variants@, variants@.len() as int),
    {
        let errors = check_duplicates(ident, &variants);
        let id = AdtId(self.adts.len());
        self.adts.push(AdtTy { def_id, kind, ident, variants });
        (id, errors)
    }

    /// The number of descriptors.
    pub fn adt_count(&self) -> (n: usize)
        ensures
            n == self.spec_adts().len(),
    {
        self.adts.len()
    }

    /// The descriptor of an algebraic data type.
    pub fn adt(&self, a: AdtId) -> (d: &AdtTy)
        requires
            self.has_adt(a),
        ensures
            *d == self.spec_adts()[a.0 as int],
    {
        &self.adts[a.0]
    }

    /// Writes the collected type of an item.
    pub fn collect_ty(&mut self, def: DefId, ty: Ty) -> (t: Ty)
        requires
            old(self).wf(),
            old(self).has(ty),
            !old(self).items().contains_key(def.0),
        ensures
            t == ty,
            final(self).wf(),
            final(self).nodes() == old(self).nodes(),
            final(self).spec_types() == old(self).spec_types(),
            final(self).spec_adts() == old(self).spec_adts(),
            final(self).generic_counts() == old(self).generic_counts(),
            final(self).sigs() == old(self).sigs(),
            final(self).items() == old(self).items().insert(def.0, ty.0),
    {
        let _ = fx_insert(&mut self.collected_tys, def.0, ty.0);
        ty
    }

    /// Finds the type of an item that was obtained during the collection
    /// phase, if the item was collected.
    pub fn collected_ty_opt(&self, def_id: DefId) -> (t: Option<Ty>)
        requires
            self.wf(),
        ensures
            t == match lookup(self.items(), def_id.0) {
                Some(h) => Some(Ty(h)),
                None => None,
            },
            t matches Some(h) ==> self.has(h),
    {
        match fx_get(&self.collected_tys, def_id.0) {
            Some(h) => Some(Ty(h)),
            None => None,
        }
    }

    /// Finds the type of an item that was collected.
    pub fn collected_ty(&self, def_id: DefId) -> (t: Ty)
        requires
            self.wf(),
            self.items().contains_key(def_id.0),
        ensures
            t == Ty(self.items()[def_id.0]),
            self.has(t),
    {
        self.collected_ty_opt(def_id).unwrap()
    }

    /// Records the signature of a function.
    pub fn record_fn_sig(&mut self, def: DefId, sig: Ty)
        requires
            old(self).wf(),
            old(self).has(sig),
        ensures
            final(self).wf(),
            final(self).nodes() == old(self).nodes(),
            final(self).spec_types() == old(self).spec_types(),
            final(self).spec_adts() == old(self).spec_adts(),
            final(self).generic_counts() == old(self).generic_counts(),
            final(self).items() == old(self).items(),
            final(self).sigs() == old(self).sigs().insert(def.0, sig.0),
    {
        let _ = fx_insert(&mut self.fn_sigs, def.0, sig.0);
    }

    /// The signature of a function, if it was recorded.
    pub fn fn_sig(&self, def: DefId) -> (t: Option<Ty>)
        requires
            self.wf(),
        ensures
            t == match lookup(self.sigs(), def.0) {
                Some(h) => Some(Ty(h)),
                None => None,
            },
            t matches Some(h) ==> self.has(h),
    {
        match fx_get(&self.fn_sigs, def.0) {
            Some(h) => Some(Ty(h)),
            None => None,
        }
    }

    /// What the invariant says of the tables, in the words of the models.
    pub proof fn lemma_tables_valid(&self)
        requires
            self.wf(),
        ensures
            forall|k: usize| self.items().contains_key(k) ==> self.has(Ty(#[trigger] self.items()[k])),
            forall|k: usize| self.sigs().contains_key(k) ==> self.has(Ty(#[trigger] self.sigs()[k])),
            forall|k: usize|
                self.generic_counts().contains_key(k) ==> self.has(
                    Ty(#[trigger] self.generic_counts()[k]),
                ),
    {
    }

    /// Records the generic parameters of an item, as the tuple of them.
    pub fn cache_generics(&mut self, def_id: DefId, params: Ty)
        requires
            old(self).wf(),
            old(self).has(params),
            !old(self).generic_counts().contains_key(def_id.0),
        ensures
            final(self).wf(),
            final(self).nodes() == old(self).nodes(),
            final(self).spec_types() == old(self).spec_types(),
            final(self).spec_adts() == old(self).spec_adts(),
            final(self).items() == old(self).items(),
            final(self).sigs() == old(self).sigs(),
            final(self).generic_counts() == old(self).generic_counts().insert(def_id.0, params.0),
    {
        let _ = fx_insert(&mut self.generics, def_id.0, params.0);
    }

    /// The tuple of the generic parameters of an item, if it was recorded.
    pub fn generics_of(&self, def_id: DefId) -> (t: Option<Ty>)
        requires
            self.wf(),
        ensures
            t == match lookup(self.generic_counts(), def_id.0) {
                Some(h) => Some(Ty(h)),
                None => None,
            },
            t matches Some(h) ==> self.has(h),
    {
        match fx_get(&self.generics, def_id.0) {
            Some(h) => Some(Ty(h)),
            None => None,
        }
    }

    pub fn mk_tup(&mut self, tys: Vec<Ty>) -> (t: Ty)
        requires
            old(self).wf(),
            old(self).has_all(tys@),
        ensures
            final(self).wf(),
            final(self).extends(old(self)),
            final(self).has(t),
            final(self).term(t) == (Term { con: TyCon::Tuple, args: old(self).terms(tys@) }),
    {
        self.mk_node(TyCon::Tuple, tys)
    }

    pub fn mk_fn_ty(&mut self, params: Vec<Ty>, ret: Ty) -> (t: Ty)
        requires
            old(self).wf(),
            old(self).has_all(params@),
            old(self).has(ret),
        ensures
            final(self).wf(),
            final(self).extends(old(self)),
            final(self).has(t),
            final(self).term(t) == (Term {
                con: TyCon::Fn,
                args: old(self).terms(params@).push(old(self).term(ret)),
            }),
    {
        let mut args = params;
        args.push(ret);
        proof {
            assert(self.terms(args@) =~= self.terms(params@).push(self.term(ret)));
        }
        self.mk_node(TyCon::Fn, args)
    }

    /// The type made of one constructor applied to one type: a box, a
    /// pointer, an array, a scheme.
    pub fn mk_unary(&mut self, con: TyCon, ty: Ty) -> (t: Ty)
        requires
            old(self).wf(),
            old(self).has(ty),
            con.arity_ok(1),
        ensures
            final(self).wf(),
            final(self).extends(old(self)),
            final(self).has(t),
            final(self).term(t) == (Term { con, args: seq![old(self).term(ty)] }),
    {
        let mut args: Vec<Ty> = Vec::new();
        args.push(ty);
        proof {
            assert(self.terms(args@) =~= seq![self.term(ty)]);
        }
        self.mk_node(con, args)
    }

    pub fn mk_box_ty(&mut self, ty: Ty) -> (t: Ty)
        requires
            old(self).wf(),
            old(self).has(ty),
        ensures
            final(self).wf(),
            final(self).extends(old(self)),
            final(self).has(t),
            final(self).term(t) == (Term { con: TyCon::Box, args: seq![old(self).term(ty)] }),
    {
        self.mk_unary(TyCon::Box, ty)
    }

    pub fn mk_ptr_ty(&mut self, ty: Ty) -> (t: Ty)
        requires
            old(self).wf(),
            old(self).has(ty),
        ensures
            final(self).wf(),
            final(self).extends(old(self)),
            final(self).has(t),
            final(self).term(t) == (Term { con: TyCon::Ptr, args: seq![old(self).term(ty)] }),
    {
        self.mk_unary(TyCon::Ptr, ty)
    }

    pub fn mk_ty_scheme(&mut self, forall: Forall, ty: Ty) -> (t: Ty)
        requires
            old(self).wf(),
            old(self).has(ty),
        ensures
            final(self).wf(),
            final(self).extends(old(self)),
            final(self).has(t),
            final(self).term(t) == (Term {
                con: TyCon::Scheme(forall),
                args: seq![old(self).term(ty)],
            }),
    {
        self.mk_unary(TyCon::Scheme(forall), ty)
    }

    pub fn mk_ty_param(&mut self, def_id: DefId, idx: ParamIdx) -> (t: Ty)
        requires
            old(self).wf(),
        ensures
            final(self).wf(),
            final(self).extends(old(self)),
            final(self).has(t),
            final(self).term(t) == Term::leaf(TyCon::Param(ParamTy { def_id, idx })),
    {
        proof {
            assert(self.terms(Seq::<Ty>::empty()) =~= Seq::<Term>::empty());
        }
        self.mk_node(TyCon::Param(ParamTy { def_id, idx }), Vec::new())
    }

    pub fn mk_adt_ty(&mut self, adt: AdtId, substs: Vec<Ty>) -> (t: Ty)
        requires
            old(self).wf(),
            old(self).has_all(substs@),
        ensures
            final(self).wf(),
            final(self).extends(old(self)),
            final(self).has(t),
            final(self).term(t) == (Term { con: TyCon::Adt(adt), args: old(self).terms(substs@) }),
    {
        self.mk_node(TyCon::Adt(adt), substs)
    }

    pub fn mk_fn_def(&mut self, def_id: DefId, substs: Vec<Ty>) -> (t: Ty)
        requires
            old(self).wf(),
            old(self).has_all(substs@),
        ensures
            final(self).wf(),
            final(self).extends(old(self)),
            final(self).has(t),
            final(self).term(t) == (Term {
                con: TyCon::FnDef(def_id),
                args: old(self).terms(substs@),
            }),
    {
        self.mk_node(TyCon::FnDef(def_id), substs)
    }

    pub fn mk_ty_err(&self) -> (t: Ty)
        requires
            self.wf(),
        ensures
            t == self.spec_types().error,
            self.has(t),
            self.term(t) == Term::leaf(TyCon::Error),
    {
        self.common.error
    }

    /// Whether the handle names a slot of this store.
    pub fn contains(&self, t: Ty) -> (b: bool)
        ensures
            b == self.has(t),
    {
        t.0 < self.interned.len()
    }

    /// Whether the type is a reference counted heap cell.
    pub fn is_box(&self, t: Ty) -> (b: bool)
        requires
            self.has(t),
        ensures
            b == (self.term(t).con == TyCon::Box),
    {
        assert(self.term(t).con == self.nodes()[t.0 as int].con);
        match self.interned[t.0].con {
            TyCon::Box => true,
            _ => false,
        }
    }

    /// Interns a constructor applied to arguments: the handle of the type,
    /// which is an old handle where the store held the type already.
    pub fn mk_node(&mut self, con: TyCon, args: Vec<Ty>) -> (t: Ty)
        requires
            old(self).wf(),
            con.arity_ok(args@.len()),
            old(self).has_all(args@),
        ensures
            final(self).wf(),
            final(self).extends(old(self)),
            final(self).has(t),
            (final(self).nodes(), t) == intern(old(self).nodes(), (Node { con, args: args@ })),
            final(self).term(t) == (Term { con, args: old(self).terms(args@) }),
    {
        let ghost old_nodes = self.nodes();
        let t = intern_into(&mut self.interned, con, args);
        proof {
            let c = self.spec_types();
            lemma_term_extends(old_nodes, self.nodes(), c.bool);
            lemma_term_extends(old_nodes, self.nodes(), c.char);
            lemma_term_extends(old_nodes, self.nodes(), c.unit);
            lemma_term_extends(old_nodes, self.nodes(), c.discr);
            lemma_term_extends(old_nodes, self.nodes(), c.float);
            lemma_term_extends(old_nodes, self.nodes(), c.int);
            lemma_term_extends(old_nodes, self.nodes(), c.never);
            lemma_term_extends(old_nodes, self.nodes(), c.error);
        }
        t
    }

    /// Returns the canonical handle of a structural descriptor, interning it
    /// on first use.
    pub fn mk_ty(&mut self, kind: TyKind) -> (t: Ty)
        requires
            old(self).wf(),
            old(self).has_all(kind.args()),
        ensures
            final(self).wf(),
            final(self).extends(old(self)),
            final(self).has(t),
            (final(self).nodes(), t) == intern(old(self).nodes(), kind.node()),
            final(self).term(t) == (Term { con: kind.con(), args: old(self).terms(kind.args()) }),
    {
        proof {
            kind.lemma_arity();
        }
        let (con, args) = kind.into_parts();
        self.mk_node(con, args)
    }

    /// The structural descriptor of an interned type.
    pub fn kind(&self, t: Ty) -> (k: TyKind)
        requires
            self.wf(),
            self.has(t),
        ensures
            k.node() == self.nodes()[t.0 as int],
    {
        proof {
            self.lemma_args_valid(t);
        }
        let con = self.interned[t.0].con;
        let args = copy_tys(&self.interned[t.0].args);
        TyKind::from_parts(con, args)
    }

    /// The number of interned types.
    pub fn len(&self) -> (n: usize)
        ensures
            n == self.nodes().len(),
    {
        self.interned.len()
    }

    /// The handles of the common types.
    pub fn types(&self) -> (c: CommonTypes)
        ensures
            c == self.spec_types(),
    {
        self.common
    }

    /// The constructor of an interned type.
    pub fn con(&self, t: Ty) -> (c: TyCon)
        requires
            self.has(t),
        ensures
            c == self.nodes()[t.0 as int].con,
            c == self.term(t).con,
    {
        self.interned[t.0].con
    }

    /// The arguments of an interned type.
    pub fn args(&self, t: Ty) -> (a: &Vec<Ty>)
        requires
            self.has(t),
        ensures
            a@ == self.nodes()[t.0 as int].args,
    {
        &self.interned[t.0].args
    }

    /// The property bits of an interned type: they say whether the error
    /// sentinel, an inference variable, a generic parameter occurs in it.
    pub fn flags(&self, t: Ty) -> (f: TyFlags)
        requires
            self.wf(),
            self.has(t),
        ensures
            f == self.term(t).flags(),
            f.spec_has_error() == self.term(t).has_error(),
            f.spec_has_infer() == self.term(t).has_infer(),
            f.spec_has_param() == self.term(t).has_param(),
    {
        proof {
            let x = self.term(t);
            lemma_of_bits(x.has_error(), x.has_infer(), x.has_param());
            assert(self.interned@[t.0 as int].flags == term_of(self.nodes(), Ty(t.0)).flags());
        }
        self.interned[t.0].flags
    }
}

} // verus!
