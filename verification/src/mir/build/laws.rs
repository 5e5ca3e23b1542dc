//! What the builder promises about reference counts.

use crate::mir::build::spec::whole;
use crate::mir::build::{release_stmts, release_stmts_all, BuilderView};
use crate::mir::{BlockId, ReleaseInfo, Rvalue, SpanInfo, Stmt, StmtKind, VarId};
use crate::ty::store::TyCtx;
use vstd::prelude::*;

verus! {

/// Whether a statement releases the variable.
pub open spec fn is_release_of(s: Stmt, var: VarId) -> bool {
    s.kind matches StmtKind::Release(x) && x == var
}

/// How often the statements release a variable.
pub open spec fn count_releases(stmts: Seq<Stmt>, var: VarId) -> nat
    decreases stmts.len(),
{
    if stmts.len() == 0 {
        0
    } else {
        count_releases(stmts.drop_first(), var) + if is_release_of(stmts[0], var) {
            1nat
        } else {
            0nat
        }
    }
}

/// How often a release of a variable waits in a scope.
pub open spec fn scheduled(scope: Seq<ReleaseInfo>, var: VarId) -> nat
    decreases scope.len(),
{
    if scope.len() == 0 {
        0
    } else {
        scheduled(scope.drop_last(), var) + if scope.last().var == var {
            1nat
        } else {
            0nat
        }
    }
}

/// How often a release of a variable waits in the scopes below `upto`.
pub open spec fn scheduled_all(scopes: Seq<Seq<ReleaseInfo>>, upto: int, var: VarId) -> nat
    decreases upto,
{
    if upto <= 0 {
        0
    } else {
        scheduled(scopes[upto - 1], var) + scheduled_all(scopes, upto - 1, var)
    }
}

/// Statements after statements release a variable as often as both do.
pub proof fn lemma_count_concat(a: Seq<Stmt>, b: Seq<Stmt>, var: VarId)
    ensures
        count_releases(a + b, var) == count_releases(a, var) + count_releases(b, var),
    decreases a.len(),
{
    if a.len() == 0 {
        assert(a + b =~= b);
    } else {
        assert((a + b).drop_first() =~= a.drop_first() + b);
        lemma_count_concat(a.drop_first(), b, var);
    }
}

/// Leaving a scope releases a variable as often as a release of it waits
/// in the scope.
pub proof fn lemma_scope_releases(scope: Seq<ReleaseInfo>, var: VarId)
    ensures
        count_releases(release_stmts(scope), var) == scheduled(scope, var),
    decreases scope.len(),
{
    if scope.len() > 0 {
        let first = seq![Stmt { info: scope.last().info, kind: StmtKind::Release(scope.last().var) }];
        lemma_scope_releases(scope.drop_last(), var);
        lemma_count_concat(first, release_stmts(scope.drop_last()), var);
        assert(first.drop_first() =~= Seq::<Stmt>::empty());
        assert(count_releases(first.drop_first(), var) == 0);
    }
}

/// Leaving every scope releases a variable as often as a release of it
/// waits in the scopes.
pub proof fn lemma_scopes_release(scopes: Seq<Seq<ReleaseInfo>>, upto: int, var: VarId)
    ensures
        count_releases(release_stmts_all(scopes, upto), var) == scheduled_all(scopes, upto, var),
    decreases upto,
{
    if upto > 0 {
        lemma_scope_releases(scopes[upto - 1], var);
        lemma_scopes_release(scopes, upto - 1, var);
        lemma_count_concat(release_stmts(scopes[upto - 1]), release_stmts_all(scopes, upto - 1), var);
    }
}

/// Scopes that differ in their last scope only hold the same releases
/// below it.
pub proof fn lemma_scheduled_below(a: Seq<Seq<ReleaseInfo>>, b: Seq<Seq<ReleaseInfo>>, upto: int, var: VarId)
    requires
        upto <= a.len(),
        upto <= b.len(),
        forall|i: int| 0 <= i < upto ==> a[i] == b[i],
    ensures
        scheduled_all(a, upto, var) == scheduled_all(b, upto, var),
    decreases upto,
{
    if upto > 0 {
        lemma_scheduled_below(a, b, upto - 1, var);
    }
}

/// Reference counting: a variable of box type that is defined by an
/// assignment, with no release of it waiting yet, is retained by the one
/// statement that follows the assignment; and from then on each way out
/// releases it exactly once: the end of its scope, where the releases of
/// the innermost scope are emitted, and an early return, where the releases
/// of every scope are.
pub proof fn lemma_retained_once_released_once(
    v: BuilderView,
    tcx: &TyCtx,
    info: SpanInfo,
    block: BlockId,
    var: VarId,
    rvalue: Rvalue,
    exit: BlockId,
)
    requires
        v.inv(),
        v.open(block),
        exit.0 < v.blocks.len(),
        v.counted(tcx, whole(var)),
        scheduled_all(v.scopes, v.scopes.len() as int, var) == 0,
    ensures
        ({
            let w = v.push_assignment(tcx, info, block, whole(var), rvalue);
            let before = w.blocks[exit.0 as int].stmts;
            &&& w.blocks[block.0 as int].stmts == v.blocks[block.0 as int].stmts + seq![
                Stmt { info, kind: StmtKind::Assign(whole(var), rvalue) },
                Stmt { info, kind: StmtKind::Retain(var) },
            ]
            &&& w.exit_scope(exit).blocks[exit.0 as int].stmts == before + release_stmts(w.scopes.last())
            &&& count_releases(release_stmts(w.scopes.last()), var) == 1
            &&& w.release_all(exit).blocks[exit.0 as int].stmts == before + release_stmts_all(
                w.scopes,
                w.scopes.len() as int,
            )
            &&& count_releases(release_stmts_all(w.scopes, w.scopes.len() as int), var) == 1
        }),
{
    let w = v.push_assignment(tcx, info, block, whole(var), rvalue);
    let n = v.scopes.len() as int;
    let st = v.blocks[block.0 as int].stmts;
    assert(st.push(Stmt { info, kind: StmtKind::Assign(whole(var), rvalue) }).push(
        Stmt { info, kind: StmtKind::Retain(var) },
    ) =~= st + seq![
        Stmt { info, kind: StmtKind::Assign(whole(var), rvalue) },
        Stmt { info, kind: StmtKind::Retain(var) },
    ]);
    let last = v.scopes.last().push(ReleaseInfo { info, var });
    assert(w.scopes.last() == last);
    assert(last.drop_last() =~= v.scopes.last());
    lemma_scheduled_below(v.scopes, w.scopes, n - 1, var);
    assert(scheduled(v.scopes.last(), var) == 0);
    assert(scheduled(last, var) == 1);
    lemma_scope_releases(last, var);
    lemma_scopes_release(w.scopes, n, var);
}

} // verus!
