//! Reference counts over a whole body: a binding of box type in a scope
//! that is left on two ways.

use crate::ast::{BinOp, Lit};
use crate::mir::build::match_laws::{
    after_wild_arm, fresh, is_int_lit, is_wild_arm, lemma_wild_arm, lemma_write_lit, lit_test, plain,
    set_int,
};
use crate::mir::build::spec::{
    and_into, as_lvalue, as_operand, as_rvalue, as_tmp, bind_pat, bool_const, build_arm_predicate,
    build_arms, build_block, build_body, build_conjuncts, build_match, build_match_arm, build_params,
    build_stmt, build_stmts, info_of, initial, ret_lvalue, whole, with_blocks, write_expr,
};
use crate::mir::build::{is_box_ty, release_stmts, release_stmts_all, BuilderView};
use crate::mir::run::{released_on_run, releases, retains, retains_in, run, statements, unset, Env, Value};
use crate::mir::{
    BlockId, BlockView, Const, ConstKind, Lvalue, MirError, Operand, ReleaseInfo, Rvalue, SpanInfo, Stmt,
    StmtKind, Terminator, TerminatorKind, Var, VarId, VarKind,
};
use crate::tir;
use crate::tir::{Arm, Body, Expr, ExprKind, PatternKind};
use crate::ty::kind::Ty;
use crate::ty::store::TyCtx;
use vstd::prelude::*;

verus! {

/// Whether the arm has the integer literal `l` as its pattern and
/// `return <h>` as its body.
pub open spec fn is_ret_arm(arm: &Arm, l: i64, h: i64, int_ty: Ty) -> bool {
    &&& arm.pat.kind matches PatternKind::Lit(x)
    &&& is_int_lit(&*x, l, int_ty)
    &&& arm.body.kind matches ExprKind::Ret(Some(r))
    &&& is_int_lit(&*r, h, int_ty)
}

/// The model after an arm with a literal pattern whose body returns a
/// literal: the body block writes the return slot, releases what waits in
/// every scope, and returns; a fresh block follows.
pub open spec fn after_ret_arm(
    v: BuilderView,
    tcx: &TyCtx,
    pb: BlockId,
    bb: BlockId,
    next: BlockId,
    info: SpanInfo,
    place: Lvalue,
    ip: SpanInfo,
    ix: SpanInfo,
    ir: SpanInfo,
    ih: SpanInfo,
    l: i64,
    h: i64,
) -> BuilderView {
    let types = tcx.spec_types();
    BuilderView {
        vars: v.vars + seq![
            Var { info: ip, kind: VarKind::Tmp, ty: types.bool },
            Var { info: ip, kind: VarKind::Tmp, ty: types.int },
            Var { info: ip, kind: VarKind::Tmp, ty: types.bool },
        ],
        blocks: v.blocks.update(
            pb.0 as int,
            BlockView {
                stmts: v.blocks[pb.0 as int].stmts + lit_test(tcx, v, ip, ix, place, l),
                terminator: Some(
                    Terminator {
                        info,
                        kind: TerminatorKind::Cond(Operand::Lvalue(whole(fresh(v, 0))), bb, next),
                    },
                ),
            },
        ).update(
            bb.0 as int,
            BlockView {
                stmts: v.blocks[bb.0 as int].stmts.push(set_int(ih, ret_lvalue(), h, types.int))
                    + release_stmts_all(v.scopes, v.scopes.len() as int),
                terminator: Some(Terminator { info: ir, kind: TerminatorKind::Return }),
            },
        ).push(BlockView::empty()),
        ..v
    }
}

/// What the builder makes of an arm with a literal pattern whose body
/// returns a literal.
pub proof fn lemma_ret_arm(
    v: BuilderView,
    tcx: &TyCtx,
    pb: BlockId,
    bb: BlockId,
    next: BlockId,
    dest: Lvalue,
    info: SpanInfo,
    place: Lvalue,
    arm: &Arm,
    l: i64,
    h: i64,
)
    requires
        tcx.wf(),
        is_ret_arm(arm, l, h, tcx.spec_types().int),
        pb != bb,
        pb.0 < v.blocks.len(),
        bb.0 < v.blocks.len(),
        v.blocks.len() < usize::MAX,
        v.vars.len() + 3 <= usize::MAX,
        plain(v, tcx, ret_lvalue()),
    ensures
        build_match_arm(v, tcx, pb, bb, next, dest, info, place, arm) == Ok::<(BuilderView, BlockId), MirError>(
            (
                after_ret_arm(
                    v,
                    tcx,
                    pb,
                    bb,
                    next,
                    info,
                    place,
                    SpanInfo { span: arm.pat.span },
                    info_of(&*arm.pat.kind->Lit_0),
                    info_of(&arm.body),
                    info_of(&*arm.body.kind->Ret_0->Some_0),
                    l,
                    h,
                ),
                BlockId(v.blocks.len() as usize),
            ),
        ),
{
    let types = tcx.spec_types();
    let pat = &arm.pat;
    let x = &*arm.pat.kind->Lit_0;
    let r = &*arm.body.kind->Ret_0->Some_0;
    let ip = SpanInfo { span: pat.span };
    let ix = info_of(x);
    let ir = info_of(&arm.body);
    let ih = info_of(r);
    let p = whole(fresh(v, 0));
    let t = whole(fresh(v, 1));
    let c = whole(fresh(v, 2));
    let ret = ret_lvalue();
    let tests = lit_test(tcx, v, ip, ix, place, l);
    let (a1, p_id) = v.alloc_var(ip, VarKind::Tmp, types.bool);
    assert(p_id == fresh(v, 0));
    assert(!a1.counted(tcx, p));
    let a2 = a1.push(pb, tests[0]);
    assert(a2 == a1.push_assignment(tcx, ip, pb, p, Rvalue::Use(Operand::Const(bool_const(tcx, true)))));
    let (a3, t_id) = a2.alloc_var(ip, VarKind::Tmp, x.ty);
    assert(t_id == fresh(v, 1));
    assert(!a3.counted(tcx, t));
    lemma_write_lit(a3, tcx, pb, t, x, l);
    let a4 = a3.push(pb, tests[1]);
    let (a5, c_id) = a4.alloc_var(ip, VarKind::Tmp, types.bool);
    assert(c_id == fresh(v, 2));
    assert(!a5.counted(tcx, c));
    let a6 = a5.push(pb, tests[2]);
    assert(!a6.counted(tcx, p));
    let a7 = a6.push(pb, tests[3]);
    assert(and_into(
        a4,
        tcx,
        ip,
        pb,
        p,
        Rvalue::Bin(BinOp::Eq, Operand::Lvalue(t), Operand::Lvalue(place)),
    ) == a7);
    assert(build_conjuncts(a2, tcx, pb, p, place, pat) == Ok::<(BuilderView, BlockId), MirError>((a7, pb)));
    assert(build_arm_predicate(v, tcx, pb, place, pat) == Ok::<(BuilderView, BlockId, Lvalue), MirError>(
        (a7, pb, p),
    ));
    let a8 = a7.terminate(info, pb, TerminatorKind::Cond(Operand::Lvalue(p), bb, next));
    assert(a8.vars == a7.vars);
    assert(!a8.counted(tcx, ret));
    lemma_write_lit(a8, tcx, bb, ret, r, h);
    let a9 = a8.push(bb, set_int(ih, ret, h, types.int));
    let a10 = a9.release_all(bb).terminate(ir, bb, TerminatorKind::Return);
    let (a11, fresh_block) = a10.append_block();
    assert(write_expr(a8, tcx, bb, dest, &arm.body) == Ok::<(BuilderView, BlockId), MirError>(
        (a11, fresh_block),
    ));
    let expected = after_ret_arm(v, tcx, pb, bb, next, info, place, ip, ix, ir, ih, l, h);
    assert(a11.vars =~= expected.vars);
    assert(a7.blocks[pb.0 as int].stmts =~= v.blocks[pb.0 as int].stmts + tests);
    assert(a9.scopes == v.scopes);
    assert(a11.blocks =~= expected.blocks);
}

/// Whether the body is
/// `{ let b = box <n>; match <s> { <l> => return <h>, _ => <m> } }`
/// over integer literals, with `b` of box type, in a function without
/// parameters: the scope of `b` is left by the early return of the first
/// arm, or at its end.
pub open spec fn is_box_body(tcx: &TyCtx, body: &Body, n: i64, s: i64, l: i64, h: i64, m: i64) -> bool {
    let int_ty = tcx.spec_types().int;
    &&& body.params@.len() == 0
    &&& body.expr.ty == int_ty
    &&& body.expr.kind matches ExprKind::Block(blk)
    &&& blk.stmts@.len() == 1
    &&& blk.stmts@[0].kind matches tir::StmtKind::Let(bind)
    &&& bind.pat.kind is Binding
    &&& is_box_ty(tcx, bind.pat.ty)
    &&& bind.init matches Some(init)
    &&& init.ty == bind.pat.ty
    &&& init.kind matches ExprKind::Box(x)
    &&& is_int_lit(&*x, n, int_ty)
    &&& blk.expr matches Some(mt)
    &&& mt.ty == int_ty
    &&& mt.kind matches ExprKind::Match(scrut, arms)
    &&& is_int_lit(&*scrut, s, int_ty)
    &&& arms@.len() == 2
    &&& is_ret_arm(&arms@[0], l, h, int_ty)
    &&& is_wild_arm(&arms@[1], m, int_ty)
}

/// The places of the statements of such a body.
pub struct Infos {
    pub body: SpanInfo,
    pub init: SpanInfo,
    pub pat: SpanInfo,
    pub mt: SpanInfo,
    pub scrut: SpanInfo,
    pub ip: SpanInfo,
    pub ix: SpanInfo,
    pub ir: SpanInfo,
    pub ih: SpanInfo,
    pub iq: SpanInfo,
    pub im: SpanInfo,
}

pub open spec fn infos_of(body: &Body) -> Infos {
    let blk = body.expr.kind->Block_0;
    let bind = blk.stmts@[0].kind->Let_0;
    let mt = blk.expr->Some_0;
    let arms = mt.kind->Match_1;
    Infos {
        body: info_of(&body.expr),
        init: info_of(&bind.init->Some_0),
        pat: SpanInfo { span: bind.pat.span },
        mt: info_of(&mt),
        scrut: info_of(&*mt.kind->Match_0),
        ip: SpanInfo { span: arms@[0].pat.span },
        ix: info_of(&*arms@[0].pat.kind->Lit_0),
        ir: info_of(&arms@[0].body),
        ih: info_of(&*arms@[0].body.kind->Ret_0->Some_0),
        iq: SpanInfo { span: arms@[1].pat.span },
        im: info_of(&arms@[1].body),
    }
}

/// The graph of such a body. Variable 1 is the temporary of the box,
/// variable 2 the binding.
pub open spec fn box_body_blocks(tcx: &TyCtx, i: Infos, box_ty: Ty, n: i64, s: i64, l: i64, h: i64, m: i64) -> Seq<
    BlockView,
> {
    let int_ty = tcx.spec_types().int;
    let ret = whole(VarId(0));
    let tmp = whole(VarId(1));
    let b = whole(VarId(2));
    let place = whole(VarId(3));
    let p = whole(VarId(4));
    let t = whole(VarId(5));
    let c = whole(VarId(6));
    let q = whole(VarId(7));
    let releases = seq![
        Stmt { info: i.pat, kind: StmtKind::Release(VarId(2)) },
        Stmt { info: i.init, kind: StmtKind::Release(VarId(1)) },
    ];
    seq![
        BlockView {
            stmts: seq![
                Stmt {
                    info: i.init,
                    kind: StmtKind::Assign(
                        tmp,
                        Rvalue::Box(Operand::Const(Const { kind: ConstKind::Int(n), ty: int_ty })),
                    ),
                },
                Stmt { info: i.init, kind: StmtKind::Retain(VarId(1)) },
                Stmt { info: i.pat, kind: StmtKind::Assign(b, Rvalue::Use(Operand::Lvalue(tmp))) },
                Stmt { info: i.pat, kind: StmtKind::Retain(VarId(2)) },
                set_int(i.scrut, place, s, int_ty),
            ],
            terminator: Some(Terminator { info: i.mt, kind: TerminatorKind::Branch(BlockId(1)) }),
        },
        BlockView {
            stmts: seq![
                Stmt {
                    info: i.ip,
                    kind: StmtKind::Assign(p, Rvalue::Use(Operand::Const(bool_const(tcx, true)))),
                },
                set_int(i.ix, t, l, int_ty),
                Stmt {
                    info: i.ip,
                    kind: StmtKind::Assign(
                        c,
                        Rvalue::Bin(BinOp::Eq, Operand::Lvalue(t), Operand::Lvalue(place)),
                    ),
                },
                Stmt {
                    info: i.ip,
                    kind: StmtKind::Assign(p, Rvalue::Bin(BinOp::And, Operand::Lvalue(c), Operand::Lvalue(p))),
                },
            ],
            terminator: Some(
                Terminator {
                    info: i.mt,
                    kind: TerminatorKind::Cond(Operand::Lvalue(p), BlockId(2), BlockId(3)),
                },
            ),
        },
        BlockView {
            stmts: seq![set_int(i.ih, ret, h, int_ty)] + releases,
            terminator: Some(Terminator { info: i.ir, kind: TerminatorKind::Return }),
        },
        BlockView {
            stmts: seq![
                Stmt {
                    info: i.iq,
                    kind: StmtKind::Assign(q, Rvalue::Use(Operand::Const(bool_const(tcx, true)))),
                },
            ],
            terminator: Some(
                Terminator {
                    info: i.mt,
                    kind: TerminatorKind::Cond(Operand::Lvalue(q), BlockId(4), BlockId(7)),
                },
            ),
        },
        BlockView {
            stmts: seq![set_int(i.im, ret, m, int_ty)],
            terminator: Some(Terminator { info: i.mt, kind: TerminatorKind::Branch(BlockId(5)) }),
        },
        BlockView {
            stmts: releases,
            terminator: Some(Terminator { info: i.body, kind: TerminatorKind::Return }),
        },
        BlockView {
            stmts: Seq::empty(),
            terminator: Some(Terminator { info: i.mt, kind: TerminatorKind::Branch(BlockId(5)) }),
        },
        BlockView {
            stmts: Seq::empty(),
            terminator: Some(Terminator { info: i.mt, kind: TerminatorKind::Unreachable }),
        },
    ]
}

/// The first statements of the entry block: the box goes into a
/// temporary, which is retained; the binding gets the temporary, and is
/// retained.
pub open spec fn let_stmts(tcx: &TyCtx, i: Infos, n: i64) -> Seq<Stmt> {
    let tmp = whole(VarId(1));
    let b = whole(VarId(2));
    seq![
        Stmt {
            info: i.init,
            kind: StmtKind::Assign(
                tmp,
                Rvalue::Box(Operand::Const(Const { kind: ConstKind::Int(n), ty: tcx.spec_types().int })),
            ),
        },
        Stmt { info: i.init, kind: StmtKind::Retain(VarId(1)) },
        Stmt { info: i.pat, kind: StmtKind::Assign(b, Rvalue::Use(Operand::Lvalue(tmp))) },
        Stmt { info: i.pat, kind: StmtKind::Retain(VarId(2)) },
    ]
}

/// The releases that wait in the scope of the block.
pub open spec fn waiting(i: Infos) -> Seq<ReleaseInfo> {
    seq![ReleaseInfo { info: i.init, var: VarId(1) }, ReleaseInfo { info: i.pat, var: VarId(2) }]
}

/// The releases of the scope of the block, the one scheduled last first.
pub open spec fn scope_releases(i: Infos) -> Seq<Stmt> {
    seq![
        Stmt { info: i.pat, kind: StmtKind::Release(VarId(2)) },
        Stmt { info: i.init, kind: StmtKind::Release(VarId(1)) },
    ]
}

/// The model behind the `let` of such a body.
pub open spec fn let_state(tcx: &TyCtx, body: &Body, n: i64) -> BuilderView {
    let i = infos_of(body);
    let bind = body.expr.kind->Block_0.stmts@[0].kind->Let_0;
    BuilderView {
        blocks: seq![BlockView { stmts: let_stmts(tcx, i, n), terminator: None }],
        vars: seq![
            Var { info: i.body, kind: VarKind::Ret, ty: tcx.spec_types().int },
            Var { info: i.init, kind: VarKind::Tmp, ty: bind.pat.ty },
            Var { info: i.pat, kind: VarKind::Local, ty: bind.pat.ty },
        ],
        var_map: Map::<usize, usize>::empty().insert(bind.pat.id.local.0, 2),
        scopes: seq![Seq::empty(), waiting(i)],
        argc: 0,
    }
}

/// What the builder makes of the `let` of such a body.
pub proof fn lemma_let_box(tcx: &TyCtx, body: &Body, n: i64, s: i64, l: i64, h: i64, m: i64)
    requires
        tcx.wf(),
        is_box_body(tcx, body, n, s, l, h, m),
    ensures
        build_stmts(
            initial(0).alloc_var(info_of(&body.expr), VarKind::Ret, body.expr.ty).0.push_scope(),
            tcx,
            BlockId(crate::mir::ENTRY_BLOCK),
            body.expr.kind->Block_0.stmts@,
            0,
        ) == Ok::<(BuilderView, BlockId), MirError>(
            (let_state(tcx, body, n), BlockId(crate::mir::ENTRY_BLOCK)),
        ),
{
    let types = tcx.spec_types();
    let i = infos_of(body);
    let blk = &*body.expr.kind->Block_0;
    let bind = blk.stmts@[0].kind->Let_0;
    let init = &bind.init->Some_0;
    let x = &*init.kind->Box_0;
    let box_ty = bind.pat.ty;
    let entry = BlockId(crate::mir::ENTRY_BLOCK);
    let (s0, _) = initial(0).alloc_var(i.body, VarKind::Ret, body.expr.ty);
    let c0 = s0.push_scope();
    let (c1, tmp_id) = c0.alloc_var(i.init, VarKind::Tmp, init.ty);
    let tmp = whole(tmp_id);
    assert(tmp_id == VarId(1));
    assert(c1.counted(tcx, tmp));
    let boxed = Rvalue::Box(Operand::Const(Const { kind: ConstKind::Int(n), ty: types.int }));
    assert(as_operand(c1, tcx, entry, x) == Ok::<(BuilderView, BlockId, Operand), MirError>(
        (c1, entry, Operand::Const(Const { kind: ConstKind::Int(n), ty: types.int })),
    ));
    assert(as_rvalue(c1, tcx, entry, init) == Ok::<(BuilderView, BlockId, Rvalue), MirError>(
        (c1, entry, boxed),
    ));
    let c2 = c1.push_assignment(tcx, i.init, entry, tmp, boxed);
    assert(write_expr(c1, tcx, entry, tmp, init) == Ok::<(BuilderView, BlockId), MirError>((c2, entry)));
    assert(as_tmp(c0, tcx, entry, init) == Ok::<(BuilderView, BlockId, Lvalue), MirError>((c2, entry, tmp)));
    assert(as_lvalue(c0, tcx, entry, init) == Ok::<(BuilderView, BlockId, Lvalue), MirError>(
        (c2, entry, tmp),
    ));
    let (c3, b_id) = c2.alloc_var(i.pat, VarKind::Local, box_ty);
    let b = whole(b_id);
    assert(b_id == VarId(2));
    let c4 = c3.bind(bind.pat.id, b_id);
    assert(c4.counted(tcx, b));
    let c5 = c4.push_assignment(tcx, i.pat, entry, b, Rvalue::Use(Operand::Lvalue(tmp)));
    assert(bind_pat(c2, tcx, entry, &bind.pat, tmp) == c5);
    assert(build_stmt(c0, tcx, entry, &blk.stmts@[0]) == Ok::<(BuilderView, BlockId), MirError>((c5, entry)));
    reveal_with_fuel(build_stmts, 3);
    assert(build_stmts(c0, tcx, entry, blk.stmts@, 0) == Ok::<(BuilderView, BlockId), MirError>((c5, entry)));
    let expected = let_state(tcx, body, n);
    assert(c5.vars =~= expected.vars);
    assert(c2.scopes =~~= seq![Seq::<ReleaseInfo>::empty(), seq![ReleaseInfo { info: i.init, var: VarId(1) }]]);
    assert(c5.scopes =~~= expected.scopes);
    assert(c5.var_map =~= expected.var_map);
    assert(c5.blocks[0].stmts =~= expected.blocks[0].stmts);
    assert(c5.blocks =~= expected.blocks);
}

/// The blocks behind the match of such a body: the join block is still
/// open.
pub open spec fn match_blocks(tcx: &TyCtx, i: Infos, box_ty: Ty, n: i64, s: i64, l: i64, h: i64, m: i64) -> Seq<
    BlockView,
> {
    box_body_blocks(tcx, i, box_ty, n, s, l, h, m).update(5, BlockView::empty())
}

/// What the builder makes of the match of such a body.
#[verifier::rlimit(60)]
pub proof fn lemma_box_match(tcx: &TyCtx, body: &Body, n: i64, s: i64, l: i64, h: i64, m: i64)
    requires
        tcx.wf(),
        is_box_body(tcx, body, n, s, l, h, m),
    ensures
        write_expr(
            let_state(tcx, body, n),
            tcx,
            BlockId(crate::mir::ENTRY_BLOCK),
            ret_lvalue(),
            &body.expr.kind->Block_0.expr->Some_0,
        ) matches Ok(r) && r.1 == BlockId(5) && r.0.vars.len() == 8 && r.0.scopes == let_state(
            tcx,
            body,
            n,
        ).scopes && r.0.blocks == match_blocks(
            tcx,
            infos_of(body),
            body.expr.kind->Block_0.stmts@[0].kind->Let_0.pat.ty,
            n,
            s,
            l,
            h,
            m,
        ),
{
    let types = tcx.spec_types();
    let i = infos_of(body);
    let blk = &*body.expr.kind->Block_0;
    let bind = blk.stmts@[0].kind->Let_0;
    let mt = &blk.expr->Some_0;
    let scrut = &*mt.kind->Match_0;
    let arms = mt.kind->Match_1@;
    let box_ty = bind.pat.ty;
    let entry = BlockId(crate::mir::ENTRY_BLOCK);
    let ret = ret_lvalue();
    let c5 = let_state(tcx, body, n);
    reveal_with_fuel(with_blocks, 5);
    let d1 = with_blocks(c5, 4);
    assert(d1.blocks.len() == 5);
    assert(d1.vars == c5.vars);
    assert(d1.scopes == c5.scopes);
    let (d2, t0) = d1.alloc_var(i.scrut, VarKind::Tmp, scrut.ty);
    let place = whole(t0);
    assert(t0 == VarId(3));
    assert(!d2.counted(tcx, place));
    lemma_write_lit(d2, tcx, entry, place, scrut, s);
    let d3 = d2.push(entry, set_int(i.scrut, place, s, types.int));
    assert(as_tmp(d1, tcx, entry, scrut) == Ok::<(BuilderView, BlockId, Lvalue), MirError>((d3, entry, place)));
    assert(as_lvalue(d1, tcx, entry, scrut) == Ok::<(BuilderView, BlockId, Lvalue), MirError>(
        (d3, entry, place),
    ));
    let d4 = d3.terminate(i.mt, entry, TerminatorKind::Branch(BlockId(1)));
    let (d5, join) = d4.append_block();
    assert(join == BlockId(5));
    assert(!d5.counted(tcx, ret));
    lemma_ret_arm(d5, tcx, BlockId(1), BlockId(2), BlockId(3), ret, i.mt, place, &arms[0], l, h);
    let a = after_ret_arm(d5, tcx, BlockId(1), BlockId(2), BlockId(3), i.mt, place, i.ip, i.ix, i.ir, i.ih, l, h);
    let a1 = a.terminate(i.mt, BlockId(6), TerminatorKind::Branch(join));
    let (b0, dead) = a1.mk_unreachable(i.mt);
    assert(dead == BlockId(7));
    assert(!b0.counted(tcx, ret));
    lemma_wild_arm(b0, tcx, BlockId(3), BlockId(4), dead, ret, i.mt, place, &arms[1], m);
    let bw = after_wild_arm(b0, tcx, BlockId(3), BlockId(4), dead, ret, i.mt, i.iq, i.im, m);
    let b1 = bw.terminate(i.mt, BlockId(4), TerminatorKind::Branch(join));
    reveal_with_fuel(build_arms, 3);
    assert(build_arms(b1, tcx, ret, i.mt, place, arms, 1, join, 2) == Ok::<BuilderView, MirError>(b1));
    assert(build_arms(a1, tcx, ret, i.mt, place, arms, 1, join, 1) == Ok::<BuilderView, MirError>(b1));
    assert(build_arms(d5, tcx, ret, i.mt, place, arms, 1, join, 0) == Ok::<BuilderView, MirError>(b1));
    assert(build_match(c5, tcx, entry, ret, mt) == Ok::<(BuilderView, BlockId), MirError>((b1, join)));
    assert(write_expr(c5, tcx, entry, ret, mt) == Ok::<(BuilderView, BlockId), MirError>((b1, join)));
    assert(b1.scopes == c5.scopes);
    reveal_with_fuel(release_stmts, 3);
    reveal_with_fuel(release_stmts_all, 3);
    assert(release_stmts(c5.scopes[1]) =~= scope_releases(i)) by {
        assert(c5.scopes[1].drop_last() =~= seq![ReleaseInfo { info: i.init, var: VarId(1) }]);
        assert(c5.scopes[1].drop_last().drop_last() =~= Seq::<ReleaseInfo>::empty());
    }
    assert(release_stmts(c5.scopes[0]) =~= Seq::<Stmt>::empty());
    assert(release_stmts_all(c5.scopes, 2) =~= scope_releases(i));
    let expected = match_blocks(tcx, i, box_ty, n, s, l, h, m);
    assert(b1.vars.len() == 8);
    assert(b1.blocks.len() == 8);
    assert(b1.blocks[0] == expected[0]) by {
        assert(b1.blocks[0].stmts =~= expected[0].stmts);
    }
    assert(b1.blocks[1] == expected[1]) by {
        assert(b1.blocks[1].stmts =~= expected[1].stmts);
    }
    assert(b1.blocks[2] == expected[2]) by {
        assert(b1.blocks[2].stmts =~= expected[2].stmts);
    }
    assert(b1.blocks[3] == expected[3]) by {
        assert(b1.blocks[3].stmts =~= expected[3].stmts);
    }
    assert(b1.blocks[4] == expected[4]) by {
        assert(b1.blocks[4].stmts =~= expected[4].stmts);
    }
    assert(b1.blocks[5] == expected[5]);
    assert(b1.blocks[6] == expected[6]) by {
        assert(b1.blocks[6].stmts =~= expected[6].stmts);
    }
    assert(b1.blocks[7] == expected[7]) by {
        assert(b1.blocks[7].stmts =~= expected[7].stmts);
    }
    assert(b1.blocks =~= expected);
}

/// What the builder makes of such a body: the eight blocks above over
/// eight variables.
pub proof fn lemma_box_body_graph(tcx: &TyCtx, body: &Body, n: i64, s: i64, l: i64, h: i64, m: i64)
    requires
        tcx.wf(),
        is_box_body(tcx, body, n, s, l, h, m),
    ensures
        build_body(tcx, body) matches Ok(v) && v.vars.len() == 8 && v.blocks == box_body_blocks(
            tcx,
            infos_of(body),
            body.expr.kind->Block_0.stmts@[0].kind->Let_0.pat.ty,
            n,
            s,
            l,
            h,
            m,
        ),
{
    let i = infos_of(body);
    let blk = &*body.expr.kind->Block_0;
    let bind = blk.stmts@[0].kind->Let_0;
    let mt = &blk.expr->Some_0;
    let box_ty = bind.pat.ty;
    let entry = BlockId(crate::mir::ENTRY_BLOCK);
    let ret = ret_lvalue();
    let join = BlockId(5);
    let (s0, _) = initial(0).alloc_var(i.body, VarKind::Ret, body.expr.ty);
    assert(build_params(s0, tcx, entry, body.params@, 0) == s0);
    lemma_let_box(tcx, body, n, s, l, h, m);
    lemma_box_match(tcx, body, n, s, l, h, m);
    let c5 = let_state(tcx, body, n);
    let b1 = write_expr(c5, tcx, entry, ret, mt)->Ok_0.0;
    reveal_with_fuel(release_stmts, 3);
    assert(release_stmts(b1.scopes.last()) =~= scope_releases(i)) by {
        assert(b1.scopes.last() == waiting(i));
        assert(waiting(i).drop_last() =~= seq![ReleaseInfo { info: i.init, var: VarId(1) }]);
        assert(waiting(i).drop_last().drop_last() =~= Seq::<ReleaseInfo>::empty());
    }
    let e1 = b1.exit_scope(join);
    assert(build_block(s0, tcx, entry, ret, blk) == Ok::<(BuilderView, BlockId), MirError>((e1, join)));
    assert(write_expr(s0, tcx, entry, ret, &body.expr) == Ok::<(BuilderView, BlockId), MirError>((e1, join)));
    assert(e1.scopes =~~= seq![Seq::<ReleaseInfo>::empty()]);
    assert(release_stmts(e1.scopes.last()) =~= Seq::<Stmt>::empty());
    let done = e1.exit_scope(join).terminate(i.body, join, TerminatorKind::Return);
    assert(build_body(tcx, body) == Ok::<BuilderView, MirError>(done));
    let expected = box_body_blocks(tcx, i, box_ty, n, s, l, h, m);
    assert(done.blocks[5] == expected[5]) by {
        assert(done.blocks[5].stmts =~= expected[5].stmts);
    }
    assert(done.blocks =~= expected);
}

/// Reference counts in the graph of such a body: the binding is retained
/// by one statement of the whole graph, the one behind its definition; and
/// the run releases it once before it returns, on the early return (where
/// the scrutinee is the literal of the first arm) as at the end of the
/// scope (where it is not).
pub proof fn lemma_box_body_counts(tcx: &TyCtx, i: Infos, box_ty: Ty, n: i64, s: i64, l: i64, h: i64, m: i64)
    ensures
        ({
            let blocks = box_body_blocks(tcx, i, box_ty, n, s, l, h, m);
            let b = VarId(2);
            &&& retains_in(blocks, b, 8) == 1
            &&& blocks[0].stmts[2].kind == StmtKind::Assign(
                whole(b),
                Rvalue::Use(Operand::Lvalue(whole(VarId(1)))),
            )
            &&& blocks[0].stmts[3].kind == StmtKind::Retain(b)
            &&& released_on_run(tcx, blocks, unset(8), 0, 5, b) == Some(1nat)
            &&& run(tcx, blocks, unset(8), 0, 5) matches Some(env) && env[0] == Some(
                Value::Int(
                    if s == l {
                        h
                    } else {
                        m
                    },
                ),
            )
        }),
{
    let blocks = box_body_blocks(tcx, i, box_ty, n, s, l, h, m);
    let b = VarId(2);
    reveal_with_fuel(retains, 6);
    reveal_with_fuel(releases, 6);
    reveal_with_fuel(retains_in, 9);
    assert(retains(blocks[0].stmts, b, 0) == 1);
    assert(retains(blocks[1].stmts, b, 0) == 0);
    assert(retains(blocks[2].stmts, b, 0) == 0);
    assert(retains(blocks[3].stmts, b, 0) == 0);
    assert(retains(blocks[4].stmts, b, 0) == 0);
    assert(retains(blocks[5].stmts, b, 0) == 0);
    assert(retains(blocks[6].stmts, b, 0) == 0);
    assert(retains(blocks[7].stmts, b, 0) == 0);
    assert(retains_in(blocks, b, 8) == 1);
    assert(releases(blocks[0].stmts, b, 0) == 0);
    assert(releases(blocks[1].stmts, b, 0) == 0);
    assert(releases(blocks[2].stmts, b, 0) == 1);
    assert(releases(blocks[3].stmts, b, 0) == 0);
    assert(releases(blocks[4].stmts, b, 0) == 0);
    assert(releases(blocks[5].stmts, b, 0) == 1);
    reveal_with_fuel(statements, 6);
    let cell = Value::Cell(Box::new(Value::Int(n)));
    let e0 = unset(8);
    let e1 = e0.update(1, Some(cell)).update(2, Some(cell)).update(3, Some(Value::Int(s)));
    assert(statements(tcx, e0.update(1, Some(cell)).update(2, Some(cell)), blocks[0].stmts, 4) == Some(e1));
    assert(statements(tcx, e0.update(1, Some(cell)), blocks[0].stmts, 2) == Some(e1));
    assert(statements(tcx, e0, blocks[0].stmts, 0) == Some(e1));
    let e2 = e1.update(4, Some(Value::Bool(true)));
    let e3 = e2.update(5, Some(Value::Int(l)));
    let e4 = e3.update(6, Some(Value::Bool(l == s)));
    let e5 = e4.update(4, Some(Value::Bool(l == s)));
    assert(statements(tcx, e4, blocks[1].stmts, 3) == Some(e5));
    assert(statements(tcx, e3, blocks[1].stmts, 2) == Some(e5));
    assert(statements(tcx, e2, blocks[1].stmts, 1) == Some(e5));
    assert(statements(tcx, e1, blocks[1].stmts, 0) == Some(e5));
    if s == l {
        let e6 = e5.update(0, Some(Value::Int(h)));
        assert(statements(tcx, e5, blocks[2].stmts, 0) == Some(e6));
        assert(run(tcx, blocks, e5, 2, 3) == Some(e6));
        assert(released_on_run(tcx, blocks, e5, 2, 3, b) == Some(1nat));
        assert(run(tcx, blocks, e1, 1, 4) == Some(e6));
        assert(released_on_run(tcx, blocks, e1, 1, 4, b) == Some(1nat));
        assert(run(tcx, blocks, e0, 0, 5) == Some(e6));
        assert(released_on_run(tcx, blocks, e0, 0, 5, b) == Some(1nat));
    } else {
        let e6 = e5.update(7, Some(Value::Bool(true)));
        let e7 = e6.update(0, Some(Value::Int(m)));
        assert(statements(tcx, e5, blocks[3].stmts, 0) == Some(e6));
        assert(statements(tcx, e6, blocks[4].stmts, 0) == Some(e7));
        assert(statements(tcx, e7, blocks[5].stmts, 0) == Some(e7));
        assert(run(tcx, blocks, e7, 5, 1) == Some(e7));
        assert(released_on_run(tcx, blocks, e7, 5, 1, b) == Some(1nat));
        assert(run(tcx, blocks, e6, 4, 2) == Some(e7));
        assert(released_on_run(tcx, blocks, e6, 4, 2, b) == Some(1nat));
        assert(run(tcx, blocks, e5, 3, 3) == Some(e7));
        assert(released_on_run(tcx, blocks, e5, 3, 3, b) == Some(1nat));
        assert(run(tcx, blocks, e1, 1, 4) == Some(e7));
        assert(released_on_run(tcx, blocks, e1, 1, 4, b) == Some(1nat));
        assert(run(tcx, blocks, e0, 0, 5) == Some(e7));
        assert(released_on_run(tcx, blocks, e0, 0, 5, b) == Some(1nat));
    }
}

/// Reference counting over a whole body. In the body
/// `{ let b = box <n>; match <s> { <l> => return <h>, _ => <m> } }` the
/// scope of `b` is left on two ways, the early return and its end. The
/// graph that the builder makes retains `b` by exactly one statement, the
/// one that follows its defining assignment; and whichever way the run
/// takes, it releases `b` exactly once before it returns.
pub proof fn lemma_box_binding(tcx: &TyCtx, body: &Body, n: i64, s: i64, l: i64, h: i64, m: i64)
    requires
        tcx.wf(),
        is_box_body(tcx, body, n, s, l, h, m),
    ensures
        build_body(tcx, body) matches Ok(v) && ({
            let b = VarId(2);
            &&& v.vars.len() == 8
            &&& v.blocks.len() == 8
            &&& retains_in(v.blocks, b, 8) == 1
            &&& v.blocks[0].stmts[2].kind == StmtKind::Assign(
                whole(b),
                Rvalue::Use(Operand::Lvalue(whole(VarId(1)))),
            )
            &&& v.blocks[0].stmts[3].kind == StmtKind::Retain(b)
            &&& released_on_run(tcx, v.blocks, unset(8), 0, 5, b) == Some(1nat)
            &&& run(tcx, v.blocks, unset(8), 0, 5) matches Some(env) && env[0] == Some(
                Value::Int(
                    if s == l {
                        h
                    } else {
                        m
                    },
                ),
            )
        }),
{
    lemma_box_body_graph(tcx, body, n, s, l, h, m);
    lemma_box_body_counts(
        tcx,
        infos_of(body),
        body.expr.kind->Block_0.stmts@[0].kind->Let_0.pat.ty,
        n,
        s,
        l,
        h,
        m,
    );
}

} // verus!
