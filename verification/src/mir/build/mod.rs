//! Lowering of a typed tree into a control-flow graph.
//!
//! The builder is specified by its model, [`BuilderView`]: every operation of
//! the builder is a function on models, and what the builder does to its
//! state is what the function says.

pub mod expr;
pub mod count_laws;
pub mod laws;
pub mod match_laws;
pub mod matches;
pub mod spec;

use crate::fxmap::{fx_get, fx_insert, fx_new, lookup};
use crate::indexed::Vars;
use crate::list::List;
use crate::mir::cfg::{push_stmt, set_terminator, Cfg};
use crate::mir::{
    BasicBlock, BlockId, BlockView, Body, Const, ConstKind, Lvalue, MirError, Operand, Projection,
    ReleaseInfo, Rvalue, SpanInfo, Stmt, StmtKind, Terminator, TerminatorKind, Var, VarId, VarKind,
};
use crate::span::Span;
use crate::tir;
use crate::index::FieldIdx;
use crate::ty::kind::{Ty, TyCon};
use crate::ty::store::TyCtx;
use rustc_hash::FxHashMap;
use vstd::prelude::*;

verus! {

/// The builder of one body.
pub struct Builder<'a> {
    pub tcx: &'a TyCtx,
    pub cfg: Cfg,
    /// Maps the pattern that binds a variable to the variable's slot.
    pub var_ir_map: FxHashMap<usize, usize>,
    pub vars: Vars,
    /// The releases that wait, scope by scope, the innermost scope last.
    pub scopes: Vec<Vec<ReleaseInfo>>,
    pub argc: usize,
}

/// The model of a builder.
pub struct BuilderView {
    pub blocks: Seq<BlockView>,
    pub vars: Seq<Var>,
    pub var_map: Map<usize, usize>,
    pub scopes: Seq<Seq<ReleaseInfo>>,
    pub argc: usize,
}

/// A block to go on in, and a value.
pub struct BlockAnd<T>(pub BlockId, pub T);

impl<T> BlockAnd<T> {
    pub fn unpack(self) -> (r: (BlockId, T))
        ensures
            r == (self.0, self.1),
    {
        let BlockAnd(block, t) = self;
        (block, t)
    }
}

/// Whether a type of the store is a reference counted heap cell.
pub open spec fn is_box_ty(tcx: &TyCtx, t: Ty) -> bool {
    tcx.has(t) && tcx.term(t).con == TyCon::Box
}

/// The release statements of a scope, the release scheduled last first.
pub open spec fn release_stmts(scope: Seq<ReleaseInfo>) -> Seq<Stmt>
    decreases scope.len(),
{
    if scope.len() == 0 {
        Seq::empty()
    } else {
        seq![Stmt { info: scope.last().info, kind: StmtKind::Release(scope.last().var) }]
            + release_stmts(scope.drop_last())
    }
}

/// The release statements of the scopes from `upto` down, the innermost
/// scope first.
pub open spec fn release_stmts_all(scopes: Seq<Seq<ReleaseInfo>>, upto: int) -> Seq<Stmt>
    decreases upto,
{
    if upto <= 0 {
        Seq::empty()
    } else {
        release_stmts(scopes[upto - 1]) + release_stmts_all(scopes, upto - 1)
    }
}

impl BuilderView {
    /// What holds of every builder between two operations: there is a block,
    /// and there is a scope.
    pub open spec fn inv(self) -> bool {
        &&& self.blocks.len() >= 1
        &&& self.scopes.len() >= 1
    }

    /// Whether the block exists and has no terminator yet.
    pub open spec fn open(self, block: BlockId) -> bool {
        block.0 < self.blocks.len() && self.blocks[block.0 as int].terminator is None
    }

    pub open spec fn alloc_var(self, info: SpanInfo, kind: VarKind, ty: Ty) -> (BuilderView, VarId) {
        (
            BuilderView { vars: self.vars.push(Var { info, kind, ty }), ..self },
            VarId(self.vars.len() as usize),
        )
    }

    pub open spec fn bind(self, id: crate::ir::Id, var: VarId) -> BuilderView {
        BuilderView { var_map: self.var_map.insert(id.local.0, var.0), ..self }
    }

    pub open spec fn append_block(self) -> (BuilderView, BlockId) {
        (
            BuilderView { blocks: self.blocks.push(BlockView::empty()), ..self },
            BlockId(self.blocks.len() as usize),
        )
    }

    pub open spec fn push(self, block: BlockId, stmt: Stmt) -> BuilderView {
        BuilderView { blocks: push_stmt(self.blocks, block, stmt), ..self }
    }

    /// The statements appended to a block, one after the other.
    pub open spec fn push_all(self, block: BlockId, stmts: Seq<Stmt>) -> BuilderView {
        BuilderView {
            blocks: self.blocks.update(
                block.0 as int,
                BlockView {
                    stmts: self.blocks[block.0 as int].stmts + stmts,
                    terminator: self.blocks[block.0 as int].terminator,
                },
            ),
            ..self
        }
    }

    pub open spec fn terminate(self, info: SpanInfo, block: BlockId, kind: TerminatorKind) -> BuilderView {
        BuilderView {
            blocks: set_terminator(self.blocks, block, Terminator { info, kind }),
            ..self
        }
    }

    /// A fresh block that ends in `unreachable`.
    pub open spec fn mk_unreachable(self, info: SpanInfo) -> (BuilderView, BlockId) {
        let (v, b) = self.append_block();
        (v.terminate(info, b, TerminatorKind::Unreachable), b)
    }

    pub open spec fn push_scope(self) -> BuilderView {
        BuilderView { scopes: self.scopes.push(Seq::empty()), ..self }
    }

    /// Schedules a release of the variable for the end of the innermost
    /// scope.
    pub open spec fn schedule_release(self, info: SpanInfo, var: VarId) -> BuilderView {
        BuilderView {
            scopes: self.scopes.update(
                self.scopes.len() - 1,
                self.scopes.last().push(ReleaseInfo { info, var }),
            ),
            ..self
        }
    }

    /// Leaves the innermost scope at the end of a block: its releases are
    /// emitted there, the release scheduled last first.
    pub open spec fn exit_scope(self, block: BlockId) -> BuilderView {
        BuilderView { scopes: self.scopes.drop_last(), ..self.push_all(
            block,
            release_stmts(self.scopes.last()),
        ) }
    }

    /// Emits the releases of every scope at the end of a block, the
    /// innermost scope first. The scopes stay as they are.
    pub open spec fn release_all(self, block: BlockId) -> BuilderView {
        self.push_all(block, release_stmts_all(self.scopes, self.scopes.len() as int))
    }

    /// Whether a place is a whole variable of box type.
    pub open spec fn counted(self, tcx: &TyCtx, lvalue: Lvalue) -> bool {
        &&& lvalue.projs == List::<Projection>::Nil
        &&& lvalue.id.0 < self.vars.len()
        &&& is_box_ty(tcx, self.vars[lvalue.id.0 as int].ty)
    }

    /// Appends an assignment. Where the place is a whole variable of box
    /// type, a retain of the variable follows at once, and a release of it
    /// is scheduled for the end of the innermost scope.
    pub open spec fn push_assignment(
        self,
        tcx: &TyCtx,
        info: SpanInfo,
        block: BlockId,
        lvalue: Lvalue,
        rvalue: Rvalue,
    ) -> BuilderView {
        let v = self.push(block, Stmt { info, kind: StmtKind::Assign(lvalue, rvalue) });
        if self.counted(tcx, lvalue) {
            v.push(block, Stmt { info, kind: StmtKind::Retain(lvalue.id) }).schedule_release(
                info,
                lvalue.id,
            )
        } else {
            v
        }
    }
}

/// What every step of the builder keeps: blocks are only added, the blocks
/// of before, but for the one that the step works on, stay as they are, the
/// step ends in a block without terminator, which is the block it started in
/// or a new one, every other block that the step worked on has its
/// terminator, and the depth of the scopes is as before.
pub open spec fn steps(old: BuilderView, new: BuilderView, block: BlockId, out: BlockId) -> bool {
    &&& old.blocks.len() <= new.blocks.len()
    &&& forall|b: int|
        0 <= b < old.blocks.len() && b != block.0 ==> #[trigger] new.blocks[b] == old.blocks[b]
    &&& new.open(out)
    &&& new.scopes.len() == old.scopes.len()
    &&& (out == block || out.0 >= old.blocks.len())
    &&& new.inv()
    &&& forall|b: int|
        (old.blocks.len() <= b < new.blocks.len() || b == block.0) && b != out.0 ==> (
        #[trigger] new.blocks[b]).terminator is Some
}

pub proof fn lemma_steps_trans(
    a: BuilderView,
    b: BuilderView,
    c: BuilderView,
    b0: BlockId,
    b1: BlockId,
    b2: BlockId,
)
    requires
        steps(a, b, b0, b1),
        steps(b, c, b1, b2),
        b0.0 < a.blocks.len(),
    ensures
        steps(a, c, b0, b2),
{
    assert forall|x: int| 0 <= x < a.blocks.len() && x != b0.0 implies #[trigger] c.blocks[x]
        == a.blocks[x] by {
        assert(b.blocks[x] == a.blocks[x]);
    }
    assert forall|x: int|
        (a.blocks.len() <= x < c.blocks.len() || x == b0.0) && x != b2.0 implies (
    #[trigger] c.blocks[x]).terminator is Some by {
        if x < b.blocks.len() && x != b1.0 {
            assert(b.blocks[x].terminator is Some);
            assert(c.blocks[x] == b.blocks[x]);
        }
    }
}

pub proof fn lemma_push_all_twice(v: BuilderView, block: BlockId, a: Seq<Stmt>, b: Seq<Stmt>)
    requires
        block.0 < v.blocks.len(),
    ensures
        v.push_all(block, a).push_all(block, b) == v.push_all(block, a + b),
{
    let st = v.blocks[block.0 as int].stmts;
    assert((st + a) + b =~= st + (a + b));
    assert(v.push_all(block, a).push_all(block, b).blocks =~= v.push_all(block, a + b).blocks);
}

/// What a step that works on two blocks keeps.
pub open spec fn steps2(old: BuilderView, new: BuilderView, a: BlockId, b: BlockId, out: BlockId) -> bool {
    &&& old.blocks.len() <= new.blocks.len()
    &&& forall|x: int|
        0 <= x < old.blocks.len() && x != a.0 && x != b.0 ==> #[trigger] new.blocks[x]
            == old.blocks[x]
    &&& new.open(out)
    &&& new.scopes.len() == old.scopes.len()
    &&& (out == b || out.0 >= old.blocks.len())
    &&& new.inv()
    &&& forall|x: int|
        (old.blocks.len() <= x < new.blocks.len() || x == a.0 || x == b.0) && x != out.0 ==> (
        #[trigger] new.blocks[x]).terminator is Some
}

pub proof fn lemma_step_refl(v: BuilderView, b: BlockId)
    requires
        v.inv(),
        v.open(b),
    ensures
        steps(v, v, b, b),
{
}

pub proof fn lemma_step_alloc(v: BuilderView, info: SpanInfo, kind: VarKind, ty: Ty, b: BlockId)
    requires
        v.inv(),
        v.open(b),
    ensures
        steps(v, v.alloc_var(info, kind, ty).0, b, b),
        steps(v, v.alloc_var(info, kind, ty).0.bind(arbitrary(), arbitrary()), b, b),
        forall|id: crate::ir::Id, var: VarId| #[trigger]
            steps(v, v.alloc_var(info, kind, ty).0.bind(id, var), b, b),
        forall|x: BlockId|
            v.open(x) ==> #[trigger] v.alloc_var(info, kind, ty).0.open(x),
{
}

pub proof fn lemma_step_push_all(v: BuilderView, b: BlockId, s: Seq<Stmt>)
    requires
        v.inv(),
        v.open(b),
    ensures
        steps(v, v.push_all(b, s), b, b),
{
}

pub proof fn lemma_step_assign(
    v: BuilderView,
    tcx: &TyCtx,
    info: SpanInfo,
    b: BlockId,
    lvalue: Lvalue,
    rvalue: Rvalue,
)
    requires
        v.inv(),
        v.open(b),
    ensures
        steps(v, v.push_assignment(tcx, info, b, lvalue, rvalue), b, b),
{
}

/// The models of the scopes.
pub open spec fn scopes_view(scopes: Seq<Vec<ReleaseInfo>>) -> Seq<Seq<ReleaseInfo>> {
    Seq::new(scopes.len(), |i: int| scopes[i]@)
}

impl<'a> View for Builder<'a> {
    type V = BuilderView;

    open spec fn view(&self) -> BuilderView {
        BuilderView {
            blocks: self.cfg@,
            vars: self.vars@,
            var_map: self.var_ir_map@,
            scopes: scopes_view(self.scopes@),
            argc: self.argc,
        }
    }
}

impl<'a> Builder<'a> {
    pub fn span_info(&self, span: Span) -> (info: SpanInfo)
        ensures
            info == (SpanInfo { span }),
    {
        SpanInfo { span }
    }

    pub fn alloc_var(&mut self, info: SpanInfo, kind: VarKind, ty: Ty) -> (id: VarId)
        ensures
            (final(self)@, id) == old(self)@.alloc_var(info, kind, ty),
            id.0 == old(self)@.vars.len(),
            final(self).tcx == old(self).tcx,
    {
        self.vars.push(Var { info, kind, ty })
    }

    pub fn alloc_tmp(&mut self, info: SpanInfo, ty: Ty) -> (id: VarId)
        ensures
            (final(self)@, id) == old(self)@.alloc_var(info, VarKind::Tmp, ty),
            id.0 == old(self)@.vars.len(),
            final(self).tcx == old(self).tcx,
    {
        self.alloc_var(info, VarKind::Tmp, ty)
    }

    /// Creates a variable that stands for a pattern of the tree.
    pub fn alloc_ir_var(&mut self, pat: &tir::Pattern, kind: VarKind) -> (id: VarId)
        ensures
            final(self)@ == old(self)@.alloc_var((SpanInfo { span: pat.span }), kind, pat.ty).0.bind(
                pat.id,
                id,
            ),
            id == old(self)@.alloc_var((SpanInfo { span: pat.span }), kind, pat.ty).1,
            final(self).tcx == old(self).tcx,
    {
        let info = self.span_info(pat.span);
        let id = self.alloc_var(info, kind, pat.ty);
        let _ = fx_insert(&mut self.var_ir_map, pat.id.local.0, id.0);
        id
    }

    pub fn alloc_arg(&mut self, pat: &tir::Pattern) -> (id: VarId)
        ensures
            final(self)@ == old(self)@.alloc_var(
                (SpanInfo { span: pat.span }),
                VarKind::Arg,
                pat.ty,
            ).0.bind(pat.id, id),
            id == old(self)@.alloc_var((SpanInfo { span: pat.span }), VarKind::Arg, pat.ty).1,
            final(self).tcx == old(self).tcx,
    {
        self.alloc_ir_var(pat, VarKind::Arg)
    }

    pub fn alloc_local(&mut self, pat: &tir::Pattern) -> (id: VarId)
        ensures
            final(self)@ == old(self)@.alloc_var(
                (SpanInfo { span: pat.span }),
                VarKind::Local,
                pat.ty,
            ).0.bind(pat.id, id),
            id == old(self)@.alloc_var((SpanInfo { span: pat.span }), VarKind::Local, pat.ty).1,
            final(self).tcx == old(self).tcx,
    {
        self.alloc_ir_var(pat, VarKind::Local)
    }

    pub fn append_basic_block(&mut self) -> (b: BlockId)
        ensures
            (final(self)@, b) == old(self)@.append_block(),
            b.0 == old(self)@.blocks.len(),
            final(self).tcx == old(self).tcx,
    {
        self.cfg.append_basic_block()
    }

    /// Pushes a statement onto the given block.
    pub fn push(&mut self, block: BlockId, stmt: Stmt)
        requires
            block.0 < old(self)@.blocks.len(),
        ensures
            final(self)@ == old(self)@.push(block, stmt),
            final(self).tcx == old(self).tcx,
    {
        self.cfg.push(block, stmt);
    }

    pub fn push_retain(&mut self, info: SpanInfo, block: BlockId, var: VarId)
        requires
            block.0 < old(self)@.blocks.len(),
        ensures
            final(self)@ == old(self)@.push(block, (Stmt { info, kind: StmtKind::Retain(var) })),
            final(self).tcx == old(self).tcx,
    {
        self.push(block, Stmt { info, kind: StmtKind::Retain(var) });
    }

    pub fn push_release(&mut self, block: BlockId, release: ReleaseInfo)
        requires
            block.0 < old(self)@.blocks.len(),
        ensures
            final(self)@ == old(self)@.push(
                block,
                (Stmt { info: release.info, kind: StmtKind::Release(release.var) }),
            ),
            final(self).tcx == old(self).tcx,
    {
        let ReleaseInfo { info, var } = release;
        self.push(block, Stmt { info, kind: StmtKind::Release(var) });
    }

    pub fn terminate(&mut self, info: SpanInfo, block: BlockId, kind: TerminatorKind)
        requires
            old(self)@.open(block),
        ensures
            final(self)@ == old(self)@.terminate(info, block, kind),
            final(self).tcx == old(self).tcx,
    {
        self.cfg.terminate(info, block, kind);
    }

    /// Branch instruction.
    pub fn branch(&mut self, info: SpanInfo, from: BlockId, to: BlockId)
        requires
            old(self)@.open(from),
        ensures
            final(self)@ == old(self)@.terminate(info, from, TerminatorKind::Branch(to)),
            final(self).tcx == old(self).tcx,
    {
        self.terminate(info, from, TerminatorKind::Branch(to));
    }

    pub fn mk_unreachable(&mut self, info: SpanInfo) -> (b: BlockId)
        ensures
            (final(self)@, b) == old(self)@.mk_unreachable(info),
            b.0 == old(self)@.blocks.len(),
            final(self).tcx == old(self).tcx,
    {
        let b = self.append_basic_block();
        self.terminate(info, b, TerminatorKind::Unreachable);
        b
    }

    pub fn push_scope(&mut self)
        ensures
            final(self)@ == old(self)@.push_scope(),
            final(self).tcx == old(self).tcx,
    {
        self.scopes.push(Vec::new());
        assert(self@.scopes =~= old(self)@.scopes.push(Seq::empty()));
    }

    pub fn schedule_release(&mut self, info: SpanInfo, var: VarId)
        requires
            old(self)@.scopes.len() >= 1,
        ensures
            final(self)@ == old(self)@.schedule_release(info, var),
            final(self).tcx == old(self).tcx,
    {
        let mut top = self.scopes.pop().unwrap();
        top.push(ReleaseInfo { info, var });
        self.scopes.push(top);
        assert(self@.scopes =~= old(self)@.scopes.update(
            old(self)@.scopes.len() - 1,
            old(self)@.scopes.last().push(ReleaseInfo { info, var }),
        ));
    }

    /// Emits the releases of one scope at the end of a block.
    fn push_releases(&mut self, block: BlockId, scope: &Vec<ReleaseInfo>)
        requires
            block.0 < old(self)@.blocks.len(),
        ensures
            final(self)@ == old(self)@.push_all(block, release_stmts(scope@)),
            final(self).tcx == old(self).tcx,
    {
        let mut i: usize = scope.len();
        proof {
            assert(scope@.take(scope@.len() as int) =~= scope@);
            assert(self@.blocks =~= old(self)@.push_all(block, Seq::empty()).blocks);
        }
        let ghost all = release_stmts(scope@);
        let ghost mut done: Seq<Stmt> = Seq::empty();
        while i > 0
            invariant
                i <= scope.len(),
                block.0 < old(self)@.blocks.len(),
                self.tcx == old(self).tcx,
                self@ == old(self)@.push_all(block, done),
                done + release_stmts(scope@.take(i as int)) == all,
            decreases i,
        {
            i -= 1;
            let ghost before = self@;
            self.push_release(block, scope[i]);
            proof {
                let s = Stmt { info: scope@[i as int].info, kind: StmtKind::Release(scope@[i as int].var) };
                let t = scope@.take(i + 1);
                assert(t.last() == scope@[i as int]);
                assert(t.drop_last() =~= scope@.take(i as int));
                assert(done.push(s) + release_stmts(scope@.take(i as int)) =~= done
                    + release_stmts(t));
                assert(self@.blocks =~= old(self)@.push_all(block, done.push(s)).blocks);
                done = done.push(s);
            }
        }
        proof {
            assert(scope@.take(0) =~= Seq::<ReleaseInfo>::empty());
            assert(done + Seq::<Stmt>::empty() =~= done);
        }
    }

    /// Leaves the innermost scope at the end of a block.
    pub fn exit_scope(&mut self, block: BlockId)
        requires
            block.0 < old(self)@.blocks.len(),
            old(self)@.scopes.len() >= 1,
        ensures
            final(self)@ == old(self)@.exit_scope(block),
            final(self).tcx == old(self).tcx,
    {
        let top = self.scopes.pop().unwrap();
        assert(self@.scopes =~= old(self)@.scopes.drop_last());
        self.push_releases(block, &top);
    }

    /// Emits the releases of every scope at the end of a block.
    pub fn release_all(&mut self, block: BlockId)
        requires
            block.0 < old(self)@.blocks.len(),
        ensures
            final(self)@ == old(self)@.release_all(block),
            final(self).tcx == old(self).tcx,
    {
        let mut i: usize = self.scopes.len();
        let ghost all = release_stmts_all(self@.scopes, self@.scopes.len() as int);
        let ghost mut done: Seq<Stmt> = Seq::empty();
        proof {
            assert(self@.blocks =~= old(self)@.push_all(block, Seq::empty()).blocks);
        }
        while i > 0
            invariant
                i <= self.scopes@.len(),
                block.0 < old(self)@.blocks.len(),
                self.tcx == old(self).tcx,
                self@.scopes == old(self)@.scopes,
                self@ == old(self)@.push_all(block, done),
                done + release_stmts_all(old(self)@.scopes, i as int) == all,
            decreases i,
        {
            i -= 1;
            let scope = copy_releases(&self.scopes[i]);
            let ghost before = self@;
            self.push_releases(block, &scope);
            proof {
                let s = release_stmts(scope@);
                assert(before.scopes[i as int] == scope@);
                assert(old(self)@.scopes[i as int] == scope@);
                assert((done + s) + release_stmts_all(old(self)@.scopes, i as int) =~= done + (s
                    + release_stmts_all(old(self)@.scopes, i as int)));
                lemma_push_all_twice(old(self)@, block, done, s);
                assert(self@.scopes == before.scopes);
                done = done + s;
            }
        }
        proof {
            assert(done + Seq::<Stmt>::empty() =~= done);
        }
    }

    /// Whether a place is a whole variable of box type.
    pub fn is_counted(&self, lvalue: &Lvalue) -> (b: bool)
        ensures
            b == self@.counted(self.tcx, *lvalue),
    {
        if !lvalue.is_whole() {
            return false;
        }
        if lvalue.id.0 >= self.vars.len() {
            return false;
        }
        let ty = self.vars.get(lvalue.id).ty;
        if ty.0 >= self.tcx.len() {
            return false;
        }
        self.tcx.is_box(ty)
    }

    /// Appends an assignment, and does the reference counting that it asks
    /// for.
    pub fn push_assignment(&mut self, info: SpanInfo, block: BlockId, lvalue: Lvalue, rvalue: Rvalue)
        requires
            block.0 < old(self)@.blocks.len(),
            old(self)@.scopes.len() >= 1,
        ensures
            final(self)@ == old(self)@.push_assignment(old(self).tcx, info, block, lvalue, rvalue),
            final(self).tcx == old(self).tcx,
    {
        let counted = self.is_counted(&lvalue);
        let id = lvalue.id;
        self.cfg.push_assignment(info, block, lvalue, rvalue);
        // if the type is a box, the value is reference counted
        if counted {
            self.push_retain(info, block, id);
            self.schedule_release(info, id);
        }
    }

    /// Writes a unit into a place.
    pub fn push_assign_unit(&mut self, info: SpanInfo, block: BlockId, lvalue: Lvalue)
        requires
            block.0 < old(self)@.blocks.len(),
            old(self)@.scopes.len() >= 1,
        ensures
            final(self)@ == old(self)@.push_assignment(
                old(self).tcx,
                info,
                block,
                lvalue,
                Rvalue::Use(Operand::Const(unit_const(old(self).tcx))),
            ),
            final(self).tcx == old(self).tcx,
    {
        let unit = Const { kind: ConstKind::Unit, ty: self.tcx.types().unit };
        self.push_assignment(info, block, lvalue, Rvalue::Use(Operand::Const(unit)));
    }
}

/// Helper struct for building projections of a place.
pub struct LvalueBuilder {
    pub id: VarId,
    pub projs: Vec<Projection>,
}

impl LvalueBuilder {
    /// The place that the builder stands for.
    pub open spec fn spec_lvalue(&self) -> Lvalue {
        Lvalue { id: self.id, projs: List::of(self.projs@) }
    }

    /// The builder of a whole variable.
    pub fn from(id: VarId) -> (b: LvalueBuilder)
        ensures
            b.spec_lvalue() == (Lvalue { id, projs: List::Nil }),
            b.id == id,
            b.projs@ == Seq::<Projection>::empty(),
    {
        LvalueBuilder { id, projs: Vec::new() }
    }

    pub fn lvalue(self) -> (l: Lvalue)
        ensures
            l == self.spec_lvalue(),
    {
        Lvalue { id: self.id, projs: List::from_vec(&self.projs) }
    }

    /// One more step at the end of the path.
    pub fn project(self, proj: Projection) -> (b: LvalueBuilder)
        ensures
            b.id == self.id,
            b.projs@ == self.projs@.push(proj),
            b.spec_lvalue() == (Lvalue {
                id: self.id,
                projs: crate::mir::spec_snoc(self.spec_lvalue().projs, proj),
            }),
    {
        let mut this = self;
        proof {
            lemma_of_push(this.projs@, proj);
        }
        this.projs.push(proj);
        this
    }

    pub fn project_field(self, field: FieldIdx, ty: Ty) -> (b: LvalueBuilder)
        ensures
            b.id == self.id,
            b.projs@ == self.projs@.push(Projection::Field(field, ty)),
            b.spec_lvalue() == (Lvalue {
                id: self.id,
                projs: crate::mir::spec_snoc(
                    self.spec_lvalue().projs,
                    Projection::Field(field, ty),
                ),
            }),
    {
        self.project(Projection::Field(field, ty))
    }
}

/// The list of a sequence with an element at its end is the list of the
/// sequence with the element at its end.
pub proof fn lemma_of_push(s: Seq<Projection>, p: Projection)
    ensures
        List::of(s.push(p)) == crate::mir::spec_snoc(List::of(s), p),
    decreases s.len(),
{
    let e = Seq::<Projection>::empty();
    assert(List::of(e) == List::<Projection>::Nil);
    if s.len() == 0 {
        assert(s.push(p).skip(1) =~= e);
        assert(s =~= e);
        assert(s.push(p)[0] == p);
        assert(List::of(s.push(p)) == List::Cons(p, Box::new(List::of(s.push(p).skip(1)))));
    } else {
        assert(s.push(p).skip(1) =~= s.skip(1).push(p));
        lemma_of_push(s.skip(1), p);
        assert(s.push(p)[0] == s[0]);
        assert(List::of(s.push(p)) == List::Cons(
            s[0],
            Box::new(List::of(s.push(p).skip(1))),
        ));
        assert(List::of(s) == List::Cons(s[0], Box::new(List::of(s.skip(1)))));
    }
}

/// The model of a finished body.
pub struct BodyView {
    pub blocks: Seq<BlockView>,
    pub vars: Seq<Var>,
    pub argc: usize,
}

impl View for Body {
    type V = BodyView;

    open spec fn view(&self) -> BodyView {
        BodyView {
            blocks: crate::mir::blocks_view(self.basic_blocks@),
            vars: self.vars@,
            argc: self.argc,
        }
    }
}

impl<'a> Builder<'a> {
    /// A builder at the start of a body of so many parameters.
    pub fn new(tcx: &'a TyCtx, argc: usize) -> (b: Builder<'a>)
        ensures
            b@ == spec::initial(argc),
            b.tcx == tcx,
    {
        let mut scopes: Vec<Vec<ReleaseInfo>> = Vec::new();
        scopes.push(Vec::new());
        let b = Builder { tcx, cfg: Cfg::new(), var_ir_map: fx_new(), vars: Vars::new(), scopes, argc };
        proof {
            assert(b@.scopes =~= seq![Seq::<ReleaseInfo>::empty()]);
            assert(b@.vars =~= Seq::<Var>::empty());
        }
        b
    }

    /// The body that was built.
    pub fn complete(self) -> (body: Body)
        ensures
            body@ == (BodyView { blocks: self@.blocks, vars: self@.vars, argc: self@.argc }),
    {
        Body { basic_blocks: self.cfg.basic_blocks, vars: self.vars, argc: self.argc }
    }

    /// Lowers a body into the builder.
    #[verifier::loop_isolation(false)]
    pub fn build_body(&mut self, body: &tir::Body) -> (r: Result<(), MirError>)
        requires
            old(self)@ == spec::initial(body.params@.len() as usize),
        ensures
            match spec::build_body(old(self).tcx, body) {
                Ok(v) => {
                    &&& r is Ok
                    &&& final(self)@ == v
                    &&& forall|b: int|
                        0 <= b < v.blocks.len() ==> (#[trigger] v.blocks[b]).terminator is Some
                },
                Err(x) => r is Err && r->Err_0 == x,
            },
    {
        let info = self.span_info(body.expr.span);
        let entry = BlockId(crate::mir::ENTRY_BLOCK);
        let _ = self.alloc_var(info, VarKind::Ret, body.expr.ty);
        let ghost v1 = self@;
        proof {
            lemma_step_refl(v1, entry);
        }
        let mut i: usize = 0;
        while i < body.params.len()
            invariant
                i <= body.params.len(),
                self.tcx == old(self).tcx,
                steps(v1, self@, entry, entry),
                spec::build_params(v1, self.tcx, entry, body.params@, 0) == spec::build_params(
                    self@,
                    self.tcx,
                    entry,
                    body.params@,
                    i as nat,
                ),
            decreases body.params.len() - i,
        {
            let ghost vi = self@;
            let pat = &body.params[i].pat;
            proof {
                lemma_step_alloc(vi, SpanInfo { span: pat.span }, VarKind::Arg, pat.ty, entry);
            }
            let arg = self.alloc_arg(pat);
            let ghost vj = self@;
            let lvalue = Lvalue::new(arg);
            self.bind_pat_to_lvalue(entry, pat, &lvalue);
            proof {
                lemma_steps_trans(vi, vj, self@, entry, entry, entry);
                lemma_steps_trans(v1, vi, self@, entry, entry, entry);
            }
            i += 1;
        }
        let ghost v2 = self@;
        let ret = Lvalue::ret();
        match self.write_expr(entry, &ret, &body.expr) {
            Err(x) => Err(x),
            Ok(b) => {
                let ghost v3 = self@;
                proof {
                    lemma_steps_trans(v1, v2, v3, entry, entry, b);
                }
                self.exit_scope(b);
                self.terminate(info, b, TerminatorKind::Return);
                Ok(())
            },
        }
    }
}

/// Lowers a typed body into a control-flow graph. In the graph every block
/// has its terminator, and block 0 is the entry.
pub fn build_fn(tcx: &TyCtx, body: &tir::Body) -> (r: Result<Body, MirError>)
    ensures
        match spec::build_body(tcx, body) {
            Ok(v) => {
                &&& r is Ok
                &&& r->Ok_0@ == (BodyView { blocks: v.blocks, vars: v.vars, argc: v.argc })
                &&& forall|b: int|
                    0 <= b < v.blocks.len() ==> (#[trigger] v.blocks[b]).terminator is Some
            },
            Err(x) => r is Err && r->Err_0 == x,
        },
{
    let mut builder = Builder::new(tcx, body.params.len());
    match builder.build_body(body) {
        Err(x) => Err(x),
        Ok(()) => Ok(builder.complete()),
    }
}

/// The unit constant.
pub open spec fn unit_const(tcx: &TyCtx) -> Const {
    Const { kind: ConstKind::Unit, ty: tcx.spec_types().unit }
}

fn copy_releases(v: &Vec<ReleaseInfo>) -> (r: Vec<ReleaseInfo>)
    ensures
        r@ == v@,
{
    let mut r: Vec<ReleaseInfo> = Vec::new();
    let mut i: usize = 0;
    while i < v.len()
        invariant
            i <= v.len(),
            r@ == v@.take(i as int),
        decreases v.len() - i,
    {
        r.push(v[i]);
        assert(v@.take(i + 1) == v@.take(i as int).push(v@[i as int]));
        i += 1;
    }
    assert(v@.take(i as int) == v@);
    r
}

} // verus!
