//! What a match on a literal means when the graph is run.

use crate::ast::{BinOp, Lit};
use crate::mir::build::spec::{
    and_into, as_lvalue, as_operand, as_rvalue, as_tmp, bool_const, build_arm_predicate, build_arms,
    build_body, build_conjuncts, build_match, build_match_arm, build_params, info_of, initial,
    ret_lvalue, whole, with_blocks, write_expr,
};
use crate::mir::build::{release_stmts, BuilderView};
use crate::mir::run::{run, statements, unset, Env, Value};
use crate::mir::{
    BlockId, BlockView, Const, ConstKind, Lvalue, Operand, Rvalue, SpanInfo, Stmt, StmtKind, Terminator,
    TerminatorKind, Var, VarId, VarKind,
};
use crate::tir::{Arm, Body, Expr, ExprKind, Pattern, PatternKind};
use crate::ty::kind::Ty;
use crate::ty::store::TyCtx;
use vstd::prelude::*;

verus! {

/// Whether the expression is the integer literal `n`, of type `ty`.
pub open spec fn is_int_lit(e: &Expr, n: i64, ty: Ty) -> bool {
    &&& e.kind matches ExprKind::Lit(Lit::Int(k))
    &&& k == n
    &&& e.ty == ty
}

/// The assignment of a constant integer to a place.
pub open spec fn set_int(info: SpanInfo, l: Lvalue, n: i64, ty: Ty) -> Stmt {
    Stmt {
        info,
        kind: StmtKind::Assign(l, Rvalue::Use(Operand::Const(Const { kind: ConstKind::Int(n), ty }))),
    }
}

/// Whether a place is a whole variable that exists and is not of box
/// type.
pub open spec fn plain(v: BuilderView, tcx: &TyCtx, l: Lvalue) -> bool {
    l.id.0 < v.vars.len() && !v.counted(tcx, l)
}

/// An integer literal is written as one assignment of its constant.
pub proof fn lemma_write_lit(v: BuilderView, tcx: &TyCtx, block: BlockId, dest: Lvalue, e: &Expr, n: i64)
    requires
        is_int_lit(e, n, e.ty),
        !v.counted(tcx, dest),
    ensures
        write_expr(v, tcx, block, dest, e) == Ok::<(BuilderView, BlockId), crate::mir::MirError>(
            (v.push(block, set_int(info_of(e), dest, n, e.ty)), block),
        ),
{
    assert(as_operand(v, tcx, block, e) == Ok::<(BuilderView, BlockId, Operand), crate::mir::MirError>(
        (v, block, Operand::Const(Const { kind: ConstKind::Int(n), ty: e.ty })),
    ));
    assert(as_rvalue(v, tcx, block, e) == Ok::<(BuilderView, BlockId, Rvalue), crate::mir::MirError>(
        (v, block, Rvalue::Use(Operand::Const(Const { kind: ConstKind::Int(n), ty: e.ty }))),
    ));
}

/// The variable that follows `k` variables behind those of a model.
pub open spec fn fresh(v: BuilderView, k: nat) -> VarId {
    VarId((v.vars.len() + k) as usize)
}

/// The statements that test a place against the integer literal `l`: the
/// predicate starts as true, the literal goes into a temporary, the
/// comparison into another, and the predicate is anded with it.
pub open spec fn lit_test(tcx: &TyCtx, v: BuilderView, ip: SpanInfo, ix: SpanInfo, place: Lvalue, l: i64) -> Seq<
    Stmt,
> {
    let p = whole(fresh(v, 0));
    let t = whole(fresh(v, 1));
    let c = whole(fresh(v, 2));
    seq![
        Stmt { info: ip, kind: StmtKind::Assign(p, Rvalue::Use(Operand::Const(bool_const(tcx, true)))) },
        set_int(ix, t, l, tcx.spec_types().int),
        Stmt {
            info: ip,
            kind: StmtKind::Assign(c, Rvalue::Bin(BinOp::Eq, Operand::Lvalue(t), Operand::Lvalue(place))),
        },
        Stmt {
            info: ip,
            kind: StmtKind::Assign(p, Rvalue::Bin(BinOp::And, Operand::Lvalue(c), Operand::Lvalue(p))),
        },
    ]
}

/// The model after an arm with a literal pattern and a literal body.
pub open spec fn after_lit_arm(
    v: BuilderView,
    tcx: &TyCtx,
    pb: BlockId,
    bb: BlockId,
    next: BlockId,
    dest: Lvalue,
    info: SpanInfo,
    place: Lvalue,
    ip: SpanInfo,
    ix: SpanInfo,
    ih: SpanInfo,
    l: i64,
    h: i64,
) -> BuilderView {
    let types = tcx.spec_types();
    BuilderView {
        vars: v.vars + seq![
            Var { info: ip, kind: VarKind::Tmp, ty: types.bool },
            Var { info: ip, kind: VarKind::Tmp, ty: types.int },
            Var { info: ip, kind: VarKind::Tmp, ty: types.bool },
        ],
        blocks: v.blocks.update(
            pb.0 as int,
            BlockView {
                stmts: v.blocks[pb.0 as int].stmts + lit_test(tcx, v, ip, ix, place, l),
                terminator: Some(
                    Terminator {
                        info,
                        kind: TerminatorKind::Cond(Operand::Lvalue(whole(fresh(v, 0))), bb, next),
                    },
                ),
            },
        ).update(
            bb.0 as int,
            BlockView {
                stmts: v.blocks[bb.0 as int].stmts.push(set_int(ih, dest, h, types.int)),
                terminator: v.blocks[bb.0 as int].terminator,
            },
        ),
        ..v
    }
}

/// The model after an arm with a wildcard pattern and a literal body.
pub open spec fn after_wild_arm(
    v: BuilderView,
    tcx: &TyCtx,
    pb: BlockId,
    bb: BlockId,
    next: BlockId,
    dest: Lvalue,
    info: SpanInfo,
    ip: SpanInfo,
    ih: SpanInfo,
    h: i64,
) -> BuilderView {
    let types = tcx.spec_types();
    BuilderView {
        vars: v.vars.push(Var { info: ip, kind: VarKind::Tmp, ty: types.bool }),
        blocks: v.blocks.update(
            pb.0 as int,
            BlockView {
                stmts: v.blocks[pb.0 as int].stmts.push(
                    Stmt {
                        info: ip,
                        kind: StmtKind::Assign(
                            whole(fresh(v, 0)),
                            Rvalue::Use(Operand::Const(bool_const(tcx, true))),
                        ),
                    },
                ),
                terminator: Some(
                    Terminator {
                        info,
                        kind: TerminatorKind::Cond(Operand::Lvalue(whole(fresh(v, 0))), bb, next),
                    },
                ),
            },
        ).update(
            bb.0 as int,
            BlockView {
                stmts: v.blocks[bb.0 as int].stmts.push(set_int(ih, dest, h, types.int)),
                terminator: v.blocks[bb.0 as int].terminator,
            },
        ),
        ..v
    }
}

/// Whether the arm has the integer literal `l` as its pattern and the
/// integer literal `h` as its body.
pub open spec fn is_lit_arm(arm: &Arm, l: i64, h: i64, int_ty: Ty) -> bool {
    &&& arm.pat.kind matches PatternKind::Lit(x)
    &&& is_int_lit(&*x, l, int_ty)
    &&& is_int_lit(&arm.body, h, int_ty)
}

/// Whether the arm has a wildcard as its pattern and the integer literal
/// `h` as its body.
pub open spec fn is_wild_arm(arm: &Arm, h: i64, int_ty: Ty) -> bool {
    &&& arm.pat.kind is Wildcard
    &&& is_int_lit(&arm.body, h, int_ty)
}

/// What the builder makes of an arm with a literal pattern.
pub proof fn lemma_lit_arm(
    v: BuilderView,
    tcx: &TyCtx,
    pb: BlockId,
    bb: BlockId,
    next: BlockId,
    dest: Lvalue,
    info: SpanInfo,
    place: Lvalue,
    arm: &Arm,
    l: i64,
    h: i64,
)
    requires
        tcx.wf(),
        is_lit_arm(arm, l, h, tcx.spec_types().int),
        pb != bb,
        pb.0 < v.blocks.len(),
        bb.0 < v.blocks.len(),
        v.vars.len() + 3 <= usize::MAX,
        plain(v, tcx, dest),
    ensures
        build_match_arm(v, tcx, pb, bb, next, dest, info, place, arm) == Ok::<
            (BuilderView, BlockId),
            crate::mir::MirError,
        >(
            (
                after_lit_arm(
                    v,
                    tcx,
                    pb,
                    bb,
                    next,
                    dest,
                    info,
                    place,
                    SpanInfo { span: arm.pat.span },
                    info_of(&*arm.pat.kind->Lit_0),
                    info_of(&arm.body),
                    l,
                    h,
                ),
                bb,
            ),
        ),
{
    let types = tcx.spec_types();
    let pat = &arm.pat;
    let x = &*arm.pat.kind->Lit_0;
    let ip = SpanInfo { span: pat.span };
    let ix = info_of(x);
    let ih = info_of(&arm.body);
    let p = whole(fresh(v, 0));
    let t = whole(fresh(v, 1));
    let c = whole(fresh(v, 2));
    let tests = lit_test(tcx, v, ip, ix, place, l);
    // the predicate starts as true
    let (a1, p_id) = v.alloc_var(ip, VarKind::Tmp, types.bool);
    assert(p_id == fresh(v, 0));
    assert(!a1.counted(tcx, p));
    let a2 = a1.push(pb, tests[0]);
    assert(a2 == a1.push_assignment(tcx, ip, pb, p, Rvalue::Use(Operand::Const(bool_const(tcx, true)))));
    // the literal goes into a temporary
    let (a3, t_id) = a2.alloc_var(ip, VarKind::Tmp, x.ty);
    assert(t_id == fresh(v, 1));
    assert(!a3.counted(tcx, t));
    lemma_write_lit(a3, tcx, pb, t, x, l);
    let a4 = a3.push(pb, tests[1]);
    // the comparison, and the and
    let (a5, c_id) = a4.alloc_var(ip, VarKind::Tmp, types.bool);
    assert(c_id == fresh(v, 2));
    assert(!a5.counted(tcx, c));
    let a6 = a5.push(pb, tests[2]);
    assert(!a6.counted(tcx, p));
    let a7 = a6.push(pb, tests[3]);
    assert(and_into(
        a4,
        tcx,
        ip,
        pb,
        p,
        Rvalue::Bin(BinOp::Eq, Operand::Lvalue(t), Operand::Lvalue(place)),
    ) == a7);
    assert(build_conjuncts(a2, tcx, pb, p, place, pat) == Ok::<(BuilderView, BlockId), crate::mir::MirError>(
        (a7, pb),
    ));
    assert(build_arm_predicate(v, tcx, pb, place, pat) == Ok::<
        (BuilderView, BlockId, Lvalue),
        crate::mir::MirError,
    >((a7, pb, p)));
    let a8 = a7.terminate(info, pb, TerminatorKind::Cond(Operand::Lvalue(p), bb, next));
    assert(a8.vars == a7.vars);
    assert(!a8.counted(tcx, dest));
    lemma_write_lit(a8, tcx, bb, dest, &arm.body, h);
    let a9 = a8.push(bb, set_int(ih, dest, h, types.int));
    let expected = after_lit_arm(v, tcx, pb, bb, next, dest, info, place, ip, ix, ih, l, h);
    assert(a9.vars =~= expected.vars);
    assert(a7.blocks[pb.0 as int].stmts =~= v.blocks[pb.0 as int].stmts + tests);
    assert(a9.blocks =~= expected.blocks);
}

/// What the builder makes of an arm with a wildcard pattern.
pub proof fn lemma_wild_arm(
    v: BuilderView,
    tcx: &TyCtx,
    pb: BlockId,
    bb: BlockId,
    next: BlockId,
    dest: Lvalue,
    info: SpanInfo,
    place: Lvalue,
    arm: &Arm,
    h: i64,
)
    requires
        tcx.wf(),
        is_wild_arm(arm, h, tcx.spec_types().int),
        pb != bb,
        pb.0 < v.blocks.len(),
        bb.0 < v.blocks.len(),
        v.vars.len() + 1 <= usize::MAX,
        plain(v, tcx, dest),
    ensures
        build_match_arm(v, tcx, pb, bb, next, dest, info, place, arm) == Ok::<
            (BuilderView, BlockId),
            crate::mir::MirError,
        >(
            (
                after_wild_arm(
                    v,
                    tcx,
                    pb,
                    bb,
                    next,
                    dest,
                    info,
                    SpanInfo { span: arm.pat.span },
                    info_of(&arm.body),
                    h,
                ),
                bb,
            ),
        ),
{
    let types = tcx.spec_types();
    let pat = &arm.pat;
    let ip = SpanInfo { span: pat.span };
    let ih = info_of(&arm.body);
    let p = whole(fresh(v, 0));
    let (a1, p_id) = v.alloc_var(ip, VarKind::Tmp, types.bool);
    assert(p_id == fresh(v, 0));
    assert(!a1.counted(tcx, p));
    let a2 = a1.push(
        pb,
        Stmt { info: ip, kind: StmtKind::Assign(p, Rvalue::Use(Operand::Const(bool_const(tcx, true)))) },
    );
    assert(a2 == a1.push_assignment(tcx, ip, pb, p, Rvalue::Use(Operand::Const(bool_const(tcx, true)))));
    assert(build_conjuncts(a2, tcx, pb, p, place, pat) == Ok::<(BuilderView, BlockId), crate::mir::MirError>(
        (a2, pb),
    ));
    assert(build_arm_predicate(v, tcx, pb, place, pat) == Ok::<
        (BuilderView, BlockId, Lvalue),
        crate::mir::MirError,
    >((a2, pb, p)));
    let a3 = a2.terminate(info, pb, TerminatorKind::Cond(Operand::Lvalue(p), bb, next));
    assert(a3.vars == a2.vars);
    assert(!a3.counted(tcx, dest));
    lemma_write_lit(a3, tcx, bb, dest, &arm.body, h);
    let a4 = a3.push(bb, set_int(ih, dest, h, types.int));
    let expected = after_wild_arm(v, tcx, pb, bb, next, dest, info, ip, ih, h);
    assert(a4.vars =~= expected.vars);
    assert(a4.blocks =~= expected.blocks);
}

/// Whether the body is `match <s> { <l> => <h>, _ => <m> }` over integer
/// literals, in a function without parameters.
pub open spec fn is_literal_match(body: &Body, int_ty: Ty, s: i64, l: i64, h: i64, m: i64) -> bool {
    &&& body.params@.len() == 0
    &&& body.expr.ty == int_ty
    &&& body.expr.kind matches ExprKind::Match(scrut, arms)
    &&& is_int_lit(&*scrut, s, int_ty)
    &&& arms@.len() == 2
    &&& is_lit_arm(&arms@[0], l, h, int_ty)
    &&& is_wild_arm(&arms@[1], m, int_ty)
}

/// The graph of such a body: the entry block evaluates the scrutinee and
/// goes to the predicate block of the first arm; each predicate block
/// branches to its body block or to what follows; each body block writes
/// the return slot and goes to the join block, which returns.
pub open spec fn literal_match_blocks(
    tcx: &TyCtx,
    ie: SpanInfo,
    is: SpanInfo,
    ip: SpanInfo,
    ix: SpanInfo,
    ih: SpanInfo,
    iq: SpanInfo,
    im: SpanInfo,
    s: i64,
    l: i64,
    h: i64,
    m: i64,
) -> Seq<BlockView> {
    let int_ty = tcx.spec_types().int;
    let ret = whole(VarId(0));
    let place = whole(VarId(1));
    let p = whole(VarId(2));
    let t = whole(VarId(3));
    let c = whole(VarId(4));
    let q = whole(VarId(5));
    seq![
        BlockView {
            stmts: seq![set_int(is, place, s, int_ty)],
            terminator: Some(Terminator { info: ie, kind: TerminatorKind::Branch(BlockId(1)) }),
        },
        BlockView {
            stmts: seq![
                Stmt {
                    info: ip,
                    kind: StmtKind::Assign(p, Rvalue::Use(Operand::Const(bool_const(tcx, true)))),
                },
                set_int(ix, t, l, int_ty),
                Stmt {
                    info: ip,
                    kind: StmtKind::Assign(
                        c,
                        Rvalue::Bin(BinOp::Eq, Operand::Lvalue(t), Operand::Lvalue(place)),
                    ),
                },
                Stmt {
                    info: ip,
                    kind: StmtKind::Assign(p, Rvalue::Bin(BinOp::And, Operand::Lvalue(c), Operand::Lvalue(p))),
                },
            ],
            terminator: Some(
                Terminator {
                    info: ie,
                    kind: TerminatorKind::Cond(Operand::Lvalue(p), BlockId(2), BlockId(3)),
                },
            ),
        },
        BlockView {
            stmts: seq![set_int(ih, ret, h, int_ty)],
            terminator: Some(Terminator { info: ie, kind: TerminatorKind::Branch(BlockId(5)) }),
        },
        BlockView {
            stmts: seq![
                Stmt {
                    info: iq,
                    kind: StmtKind::Assign(q, Rvalue::Use(Operand::Const(bool_const(tcx, true)))),
                },
            ],
            terminator: Some(
                Terminator {
                    info: ie,
                    kind: TerminatorKind::Cond(Operand::Lvalue(q), BlockId(4), BlockId(6)),
                },
            ),
        },
        BlockView {
            stmts: seq![set_int(im, ret, m, int_ty)],
            terminator: Some(Terminator { info: ie, kind: TerminatorKind::Branch(BlockId(5)) }),
        },
        BlockView {
            stmts: Seq::empty(),
            terminator: Some(Terminator { info: ie, kind: TerminatorKind::Return }),
        },
        BlockView {
            stmts: Seq::empty(),
            terminator: Some(Terminator { info: ie, kind: TerminatorKind::Unreachable }),
        },
    ]
}

/// What the builder makes of a match on a literal: the seven blocks above
/// over six variables.
pub proof fn lemma_literal_match_graph(tcx: &TyCtx, body: &Body, s: i64, l: i64, h: i64, m: i64)
    requires
        tcx.wf(),
        is_literal_match(body, tcx.spec_types().int, s, l, h, m),
    ensures
        build_body(tcx, body) matches Ok(v) && v.vars.len() == 6 && ({
            let arms = body.expr.kind->Match_1;
            v.blocks == literal_match_blocks(
                tcx,
                info_of(&body.expr),
                info_of(&*body.expr.kind->Match_0),
                SpanInfo { span: arms@[0].pat.span },
                info_of(&*arms@[0].pat.kind->Lit_0),
                info_of(&arms@[0].body),
                SpanInfo { span: arms@[1].pat.span },
                info_of(&arms@[1].body),
                s,
                l,
                h,
                m,
            )
        }),
{
    let types = tcx.spec_types();
    let e = &body.expr;
    let scrut = &*body.expr.kind->Match_0;
    let arms = body.expr.kind->Match_1@;
    let ie = info_of(e);
    let is = info_of(scrut);
    let entry = BlockId(crate::mir::ENTRY_BLOCK);
    let ret = ret_lvalue();
    let (s0, _) = initial(0).alloc_var(ie, VarKind::Ret, e.ty);
    assert(build_params(s0, tcx, entry, body.params@, 0) == s0);
    // the blocks of the arms
    reveal_with_fuel(with_blocks, 5);
    let s1 = with_blocks(s0, 4);
    assert(s1.blocks =~= Seq::new(5, |i: int| BlockView::empty()));
    assert(s1.vars == s0.vars);
    // the scrutinee
    let (s2, t0) = s1.alloc_var(is, VarKind::Tmp, scrut.ty);
    let place = whole(t0);
    assert(t0 == VarId(1));
    assert(!s2.counted(tcx, place));
    lemma_write_lit(s2, tcx, entry, place, scrut, s);
    let s3 = s2.push(entry, set_int(is, place, s, types.int));
    assert(as_tmp(s1, tcx, entry, scrut) == Ok::<(BuilderView, BlockId, Lvalue), crate::mir::MirError>(
        (s3, entry, place),
    ));
    assert(as_lvalue(s1, tcx, entry, scrut) == Ok::<(BuilderView, BlockId, Lvalue), crate::mir::MirError>(
        (s3, entry, place),
    ));
    let s4 = s3.terminate(ie, entry, TerminatorKind::Branch(BlockId(1)));
    let (s5, join) = s4.append_block();
    assert(join == BlockId(5));
    // the first arm
    assert(!s5.counted(tcx, ret));
    lemma_lit_arm(s5, tcx, BlockId(1), BlockId(2), BlockId(3), ret, ie, place, &arms[0], l, h);
    let ip = SpanInfo { span: arms[0].pat.span };
    let ix = info_of(&*arms[0].pat.kind->Lit_0);
    let ih = info_of(&arms[0].body);
    let a = after_lit_arm(s5, tcx, BlockId(1), BlockId(2), BlockId(3), ret, ie, place, ip, ix, ih, l, h);
    let a1 = a.terminate(ie, BlockId(2), TerminatorKind::Branch(join));
    // the second arm
    let (b0, dead) = a1.mk_unreachable(ie);
    assert(dead == BlockId(6));
    assert(!b0.counted(tcx, ret));
    lemma_wild_arm(b0, tcx, BlockId(3), BlockId(4), dead, ret, ie, place, &arms[1], m);
    let iq = SpanInfo { span: arms[1].pat.span };
    let im = info_of(&arms[1].body);
    let b = after_wild_arm(b0, tcx, BlockId(3), BlockId(4), dead, ret, ie, iq, im, m);
    let b1 = b.terminate(ie, BlockId(4), TerminatorKind::Branch(join));
    reveal_with_fuel(build_arms, 3);
    assert(build_arms(b1, tcx, ret, ie, place, arms, 1, join, 2) == Ok::<BuilderView, crate::mir::MirError>(b1));
    assert(build_arms(a1, tcx, ret, ie, place, arms, 1, join, 1) == Ok::<BuilderView, crate::mir::MirError>(b1));
    assert(build_arms(s5, tcx, ret, ie, place, arms, 1, join, 0) == Ok::<BuilderView, crate::mir::MirError>(b1));
    assert(build_match(s0, tcx, entry, ret, e) == Ok::<(BuilderView, BlockId), crate::mir::MirError>(
        (b1, join),
    ));
    assert(write_expr(s0, tcx, entry, ret, e) == Ok::<(BuilderView, BlockId), crate::mir::MirError>(
        (b1, join),
    ));
    // the end of the body
    assert(b1.scopes =~= seq![Seq::<crate::mir::ReleaseInfo>::empty()]);
    assert(release_stmts(b1.scopes.last()) =~= Seq::<Stmt>::empty());
    let done = b1.exit_scope(join).terminate(ie, join, TerminatorKind::Return);
    assert(build_body(tcx, body) == Ok::<BuilderView, crate::mir::MirError>(done));
    let expected = literal_match_blocks(tcx, ie, is, ip, ix, ih, iq, im, s, l, h, m);
    assert(done.vars.len() == 6);
    assert(done.blocks.len() == 7);
    assert(done.blocks[0] == expected[0]) by {
        assert(done.blocks[0].stmts =~= expected[0].stmts);
    }
    assert(done.blocks[1] == expected[1]) by {
        assert(done.blocks[1].stmts =~= expected[1].stmts);
    }
    assert(done.blocks[2] == expected[2]) by {
        assert(done.blocks[2].stmts =~= expected[2].stmts);
    }
    assert(done.blocks[3] == expected[3]) by {
        assert(done.blocks[3].stmts =~= expected[3].stmts);
    }
    assert(done.blocks[4] == expected[4]) by {
        assert(done.blocks[4].stmts =~= expected[4].stmts);
    }
    assert(done.blocks[5] == expected[5]) by {
        assert(done.blocks[5].stmts =~= expected[5].stmts);
    }
    assert(done.blocks[6] == expected[6]) by {
        assert(done.blocks[6].stmts =~= expected[6].stmts);
    }
    assert(done.blocks =~= expected);
}

/// Running the graph of a match on a literal: the return slot ends up
/// with the body of the first arm where the scrutinee is the literal of
/// its pattern, else with the body of the second arm.
pub proof fn lemma_literal_match_runs(
    tcx: &TyCtx,
    ie: SpanInfo,
    is: SpanInfo,
    ip: SpanInfo,
    ix: SpanInfo,
    ih: SpanInfo,
    iq: SpanInfo,
    im: SpanInfo,
    s: i64,
    l: i64,
    h: i64,
    m: i64,
)
    ensures
        run(tcx, literal_match_blocks(tcx, ie, is, ip, ix, ih, iq, im, s, l, h, m), unset(6), 0, 5) matches Some(
            env,
        ) && env.len() == 6 && env[0] == Some(
            Value::Int(
                if s == l {
                    h
                } else {
                    m
                },
            ),
        ),
{
    let blocks = literal_match_blocks(tcx, ie, is, ip, ix, ih, iq, im, s, l, h, m);
    reveal_with_fuel(statements, 6);
    let e0 = unset(6);
    // the entry block: the scrutinee
    let e1 = e0.update(1, Some(Value::Int(s)));
    assert(statements(tcx, e0, blocks[0].stmts, 0) == Some(e1));
    // the first predicate block
    let e2 = e1.update(2, Some(Value::Bool(true)));
    let e3 = e2.update(3, Some(Value::Int(l)));
    let e4 = e3.update(4, Some(Value::Bool(l == s)));
    let e5 = e4.update(2, Some(Value::Bool(l == s)));
    assert(statements(tcx, e4, blocks[1].stmts, 4) == Some(e4));
    assert(statements(tcx, e4, blocks[1].stmts, 3) == Some(e5));
    assert(statements(tcx, e3, blocks[1].stmts, 2) == Some(e5));
    assert(statements(tcx, e2, blocks[1].stmts, 1) == Some(e5));
    assert(statements(tcx, e1, blocks[1].stmts, 0) == Some(e5));
    // the join block
    assert(forall|env: Env| statements(tcx, env, blocks[5].stmts, 0) == Some(env));
    assert(forall|env: Env| #[trigger] run(tcx, blocks, env, 5, 1) == Some(env));
    if s == l {
        let e6 = e5.update(0, Some(Value::Int(h)));
        assert(statements(tcx, e5, blocks[2].stmts, 0) == Some(e6));
        assert(run(tcx, blocks, e6, 5, 1) == Some(e6));
        assert(run(tcx, blocks, e5, 2, 2) == Some(e6));
        assert(run(tcx, blocks, e5, 2, 3) == Some(e6)) by {
            reveal_with_fuel(run, 4);
        }
        assert(run(tcx, blocks, e1, 1, 4) == Some(e6)) by {
            reveal_with_fuel(run, 4);
        }
        assert(run(tcx, blocks, e0, 0, 5) == Some(e6)) by {
            reveal_with_fuel(run, 6);
        }
    } else {
        let e6 = e5.update(5, Some(Value::Bool(true)));
        let e7 = e6.update(0, Some(Value::Int(m)));
        assert(statements(tcx, e5, blocks[3].stmts, 0) == Some(e6));
        assert(statements(tcx, e6, blocks[4].stmts, 0) == Some(e7));
        assert(run(tcx, blocks, e7, 5, 1) == Some(e7));
        assert(run(tcx, blocks, e6, 4, 2) == Some(e7));
        assert(run(tcx, blocks, e5, 3, 3) == Some(e7));
        assert(run(tcx, blocks, e1, 1, 4) == Some(e7));
        assert(run(tcx, blocks, e0, 0, 5) == Some(e7));
    }
}

/// A match on a literal, built and run: the body
/// `match <s> { <l> => <h>, _ => <m> }` over integer literals returns `h`
/// where `s` is `l`, and `m` where it is not. The arms are tried in their
/// order: the body of the second arm is entered only behind the failed
/// test of the first.
pub proof fn lemma_literal_match(tcx: &TyCtx, body: &Body, s: i64, l: i64, h: i64, m: i64)
    requires
        tcx.wf(),
        is_literal_match(body, tcx.spec_types().int, s, l, h, m),
    ensures
        build_body(tcx, body) matches Ok(v) && run(tcx, v.blocks, unset(v.vars.len()), 0, 5) matches Some(env)
            && env[crate::mir::RETURN as int] == Some(
            Value::Int(
                if s == l {
                    h
                } else {
                    m
                },
            ),
        ),
{
    lemma_literal_match_graph(tcx, body, s, l, h, m);
    let arms = body.expr.kind->Match_1;
    lemma_literal_match_runs(
        tcx,
        info_of(&body.expr),
        info_of(&*body.expr.kind->Match_0),
        SpanInfo { span: arms@[0].pat.span },
        info_of(&*arms@[0].pat.kind->Lit_0),
        info_of(&arms@[0].body),
        SpanInfo { span: arms@[1].pat.span },
        info_of(&arms@[1].body),
        s,
        l,
        h,
        m,
    );
}

} // verus!
