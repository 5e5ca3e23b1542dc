//! Lowering of patterns and of `match`.

use crate::ast::BinOp;
use crate::index::FieldIdx;
use crate::mir::build::expr::project_lvalue;
use crate::mir::build::spec::{
    and_into, bind_pat, body_block, bool_const, build_arm_predicate, build_arms, build_conjuncts,
    build_match, build_match_arm, field_conjuncts, info_of, ok2, ok3, pblock, project,
    variant_conjuncts, variant_field, whole, with_blocks,
};
use crate::mir::build::{
    lemma_step_alloc, lemma_step_assign, lemma_step_refl, lemma_steps_trans, steps, steps2,
    BlockAnd, Builder, BuilderView,
};
use crate::mir::{
    BlockId, Const, ConstKind, Lvalue, MirError, Operand, Projection, Rvalue, SpanInfo,
    TerminatorKind, VarKind,
};
use crate::tir;
use crate::tir::{ExprKind, PatternKind};
use vstd::prelude::*;

verus! {

impl<'a> Builder<'a> {
    /// Allocates the predicate block and the body block of every arm.
    fn alloc_arm_blocks(&mut self, n: usize) -> (r: (Vec<BlockId>, Vec<BlockId>))
        requires
            old(self)@.inv(),
        ensures
            final(self).tcx == old(self).tcx,
            final(self)@ == with_blocks(old(self)@, 2 * (n as nat)),
            final(self)@.blocks.len() == old(self)@.blocks.len() + 2 * n,
            final(self)@.inv(),
            final(self)@.scopes == old(self)@.scopes,
            r.0@.len() == n,
            r.1@.len() == n,
            forall|j: int|
                0 <= j < n ==> #[trigger] r.0@[j] == pblock(old(self)@.blocks.len(), j as nat),
            forall|j: int|
                0 <= j < n ==> #[trigger] r.1@[j] == body_block(old(self)@.blocks.len(), j as nat),
            forall|x: int|
                0 <= x < old(self)@.blocks.len() ==> #[trigger] final(self)@.blocks[x] == old(
                    self,
                )@.blocks[x],
            forall|x: int|
                old(self)@.blocks.len() <= x < old(self)@.blocks.len() + 2 * n ==> (
                #[trigger] final(self)@.blocks[x]).terminator is None,
    {
        let ghost v0 = self@;
        let ghost first = v0.blocks.len();
        let mut pblocks: Vec<BlockId> = Vec::new();
        let mut body_blocks: Vec<BlockId> = Vec::new();
        let mut i: usize = 0;
        while i < n
            invariant
                i <= n,
                self.tcx == old(self).tcx,
                v0 == old(self)@,
                first == v0.blocks.len(),
                self@ == with_blocks(v0, 2 * (i as nat)),
                self@.blocks.len() == first + 2 * i,
                pblocks@.len() == i,
                body_blocks@.len() == i,
                forall|j: int| 0 <= j < i ==> #[trigger] pblocks@[j] == pblock(first, j as nat),
                forall|j: int|
                    0 <= j < i ==> #[trigger] body_blocks@[j] == body_block(first, j as nat),
                forall|x: int| 0 <= x < first ==> #[trigger] self@.blocks[x] == v0.blocks[x],
                forall|x: int|
                    first <= x < first + 2 * i ==> (#[trigger] self@.blocks[x]).terminator is None,
                self@.scopes == v0.scopes,
            decreases n - i,
        {
            let p = self.append_basic_block();
            let b = self.append_basic_block();
            pblocks.push(p);
            body_blocks.push(b);
            proof {
                assert(with_blocks(v0, 2 * ((i + 1) as nat)) == with_blocks(
                    v0,
                    (2 * (i as nat) + 1) as nat,
                ).append_block().0);
            }
            i += 1;
        }
        (pblocks, body_blocks)
    }

    /// Builds the arms of a match, in source order.
    fn build_arms(
        &mut self,
        block: BlockId,
        dest: &Lvalue,
        expr: &tir::Expr,
        place: &Lvalue,
        arms: &Vec<tir::Arm>,
        pblocks: &Vec<BlockId>,
        body_blocks: &Vec<BlockId>,
        join: BlockId,
        Ghost(first): Ghost<nat>,
    ) -> (r: Result<(), MirError>)
        requires
            old(self)@.inv(),
            pblocks@.len() == arms@.len(),
            body_blocks@.len() == arms@.len(),
            forall|j: int| 0 <= j < arms@.len() ==> #[trigger] pblocks@[j] == pblock(first, j as nat),
            forall|j: int|
                0 <= j < arms@.len() ==> #[trigger] body_blocks@[j] == body_block(first, j as nat),
            forall|j: int| 0 <= j < arms@.len() ==> old(self)@.open(#[trigger] pblocks@[j]),
            forall|j: int| 0 <= j < arms@.len() ==> old(self)@.open(#[trigger] body_blocks@[j]),
            first + 2 * arms@.len() <= join.0,
            old(self)@.open(join),
        ensures
            final(self).tcx == old(self).tcx,
            match build_arms(
                old(self)@,
                old(self).tcx,
                *dest,
                info_of(expr),
                *place,
                arms@,
                first,
                join,
                0,
            ) {
                Ok(v) => {
                    &&& r is Ok
                    &&& final(self)@ == v
                    &&& v.inv()
                    &&& v.open(join)
                    &&& v.scopes.len() == old(self)@.scopes.len()
                    &&& old(self)@.blocks.len() <= v.blocks.len()
                    &&& forall|x: int| 0 <= x < first ==> #[trigger] v.blocks[x] == old(self)@.blocks[x]
                    &&& forall|x: int|
                        first + 2 * arms@.len() <= x < old(self)@.blocks.len() ==> #[trigger] v.blocks[x]
                            == old(self)@.blocks[x]
                    &&& forall|x: int|
                        (first <= x < first + 2 * arms@.len() || old(self)@.blocks.len() <= x
                            < v.blocks.len()) ==> (#[trigger] v.blocks[x]).terminator is Some
                },
                Err(x) => r is Err && r->Err_0 == x,
            },
        decreases arms@, arms@.len(),
    {
        let info = self.span_info(expr.span);
        let ghost v5 = self@;
        let ghost total = build_arms(v5, self.tcx, *dest, info, *place, arms@, first, join, 0);
        let n = arms.len();
        let mut k: usize = 0;
        proof {
            assert(v5 == old(self)@);
            assert forall|j: int| 0 <= j < n implies self@.open(#[trigger] pblocks@[j])
                && self@.open(body_blocks@[j]) by {
                assert(old(self)@.open(pblocks@[j]) && old(self)@.open(body_blocks@[j]));
            }
        }
        while k < n
            invariant
                k <= n,
                n == arms@.len(),
                pblocks@.len() == n,
                body_blocks@.len() == n,
                info == info_of(expr),
                self.tcx == old(self).tcx,
                v5 == old(self)@,
                self@.inv(),
                self@.scopes.len() == v5.scopes.len(),
                v5.blocks.len() <= self@.blocks.len(),
                join.0 < v5.blocks.len(),
                first + 2 * n <= join.0,
                self@.open(join),
                forall|j: int| 0 <= j < n ==> #[trigger] pblocks@[j] == pblock(first, j as nat),
                forall|j: int|
                    0 <= j < n ==> #[trigger] body_blocks@[j] == body_block(first, j as nat),
                forall|j: int|
                    k <= j < n ==> self@.open(#[trigger] pblocks@[j]) && self@.open(
                        body_blocks@[j],
                    ),
                forall|x: int| 0 <= x < first ==> #[trigger] self@.blocks[x] == v5.blocks[x],
                forall|x: int|
                    first + 2 * n <= x < v5.blocks.len() ==> #[trigger] self@.blocks[x]
                        == v5.blocks[x],
                forall|x: int|
                    (first <= x < first + 2 * k || v5.blocks.len() <= x < self@.blocks.len()) ==> (
                    #[trigger] self@.blocks[x]).terminator is Some,
                total == build_arms(
                    old(self)@,
                    old(self).tcx,
                    *dest,
                    info_of(expr),
                    *place,
                    arms@,
                    first,
                    join,
                    0,
                ),
                total == build_arms(
                    self@,
                    self.tcx,
                    *dest,
                    info,
                    *place,
                    arms@,
                    first,
                    join,
                    k as nat,
                ),
            decreases n - k,
        {
            let ghost vk = self@;
            proof {
                if k + 1 < n {
                    assert(pblocks@[k + 1] == pblock(first, (k + 1) as nat));
                }
            }
            let next = if k + 1 < n {
                pblocks[k + 1]
            } else {
                self.mk_unreachable(info)
            };
            let ghost vk1 = self@;
            let pb = pblocks[k];
            let bb = body_blocks[k];
            proof {
                assert(pblocks@[k as int] == pblock(first, k as nat));
                assert(body_blocks@[k as int] == body_block(first, k as nat));
                assert(vk.open(pblocks@[k as int]) && vk.open(body_blocks@[k as int]));
                assert forall|j: int| k <= j < n implies vk1.open(#[trigger] pblocks@[j])
                    && vk1.open(body_blocks@[j]) by {
                    assert(vk.open(pblocks@[j]) && vk.open(body_blocks@[j]));
                }
            }
            let ghost arm_model = build_match_arm(
                vk1,
                self.tcx,
                pb,
                bb,
                next,
                *dest,
                info,
                *place,
                &arms@[k as int],
            );
            proof {
                assert(total == match arm_model {
                    Err(x) => Err(x),
                    Ok((v2, end)) => build_arms(
                        v2.terminate(info, end, TerminatorKind::Branch(join)),
                        self.tcx,
                        *dest,
                        info,
                        *place,
                        arms@,
                        first,
                        join,
                        (k + 1) as nat,
                    ),
                });
            }
            match self.build_match_arm(pb, bb, next, dest, expr, place, &arms[k]) {
                Err(x) => {
                    return Err(x);
                },
                Ok(end) => {
                    let ghost vk2 = self@;
                    proof {
                        assert forall|j: int| k + 1 <= j < n implies vk2.open(
                            #[trigger] pblocks@[j],
                        ) && vk2.open(body_blocks@[j]) by {
                            let p = pblocks@[j];
                            let b = body_blocks@[j];
                            assert(p == pblock(first, j as nat));
                            assert(b == body_block(first, j as nat));
                            assert(vk1.open(p) && vk1.open(b));
                            assert(vk2.blocks[p.0 as int] == vk1.blocks[p.0 as int]);
                            assert(vk2.blocks[b.0 as int] == vk1.blocks[b.0 as int]);
                        }
                        assert(vk2.blocks[join.0 as int] == vk1.blocks[join.0 as int]);
                        assert forall|x: int| 0 <= x < first implies (#[trigger] vk2.blocks[x])
                            == v5.blocks[x] by {
                            assert(vk2.blocks[x] == vk1.blocks[x]);
                        }
                        assert forall|x: int| first + 2 * n <= x < v5.blocks.len() implies (
                        #[trigger] vk2.blocks[x]) == v5.blocks[x] by {
                            assert(vk2.blocks[x] == vk1.blocks[x]);
                        }
                        assert forall|x: int|
                            (first <= x < first + 2 * (k + 1) || v5.blocks.len() <= x
                                < vk2.blocks.len()) && x != end.0 implies (
                        #[trigger] vk2.blocks[x]).terminator is Some by {
                            if x < vk1.blocks.len() && x != pb.0 && x != bb.0 {
                                assert(vk2.blocks[x] == vk1.blocks[x]);
                                assert(vk1.blocks[x].terminator is Some);
                            }
                        }
                    }
                    self.branch(info, end, join);
                    k += 1;
                },
            }
        }
        Ok(())
    }

    /// Lowers a match expression into a chain of tests.
    pub fn build_naive_match(
        &mut self,
        block: BlockId,
        dest: &Lvalue,
        expr: &tir::Expr,
        scrut: &tir::Expr,
        arms: &Vec<tir::Arm>,
    ) -> (r: Result<BlockId, MirError>)
        requires
            old(self)@.inv(),
            old(self)@.open(block),
            expr.kind matches ExprKind::Match(s, a) && *s == *scrut && a == *arms,
        ensures
            final(self).tcx == old(self).tcx,
            ok2(
                old(self)@,
                final(self)@,
                block,
                r,
                build_match(old(self)@, old(self).tcx, block, *dest, expr),
            ),
        decreases expr, 0nat,
    {
        let info = self.span_info(expr.span);
        let ghost v0 = self@;
        let ghost first = v0.blocks.len();
        let n = arms.len();
        // allocate initial basic blocks for each arm
        let (pblocks, body_blocks) = self.alloc_arm_blocks(n);
        let ghost v1 = self@;
        match self.as_lvalue(block, scrut) {
            Err(x) => Err(x),
            Ok(BlockAnd(b2, place)) => {
                let ghost v2 = self@;
                let entry = if n == 0 {
                    self.mk_unreachable(info)
                } else {
                    pblocks[0]
                };
                let ghost v3 = self@;
                self.branch(info, b2, entry);
                let join = self.append_basic_block();
                let ghost v5 = self@;
                proof {
                    assert forall|j: int| 0 <= j < n implies v5.open(#[trigger] pblocks@[j]) by {
                        let p = pblocks@[j];
                        assert(p == pblock(first, j as nat));
                        assert(v2.blocks[p.0 as int] == v1.blocks[p.0 as int]);
                    }
                    assert forall|j: int| 0 <= j < n implies v5.open(
                        #[trigger] body_blocks@[j],
                    ) by {
                        let b = body_blocks@[j];
                        assert(b == body_block(first, j as nat));
                        assert(v2.blocks[b.0 as int] == v1.blocks[b.0 as int]);
                    }
                }
                match self.build_arms(
                    block,
                    dest,
                    expr,
                    &place,
                    arms,
                    &pblocks,
                    &body_blocks,
                    join,
                    Ghost(first),
                ) {
                    Err(x) => Err(x),
                    Ok(()) => {
                        proof {
                            assert forall|x: int|
                                0 <= x < v0.blocks.len() && x != block.0 implies #[trigger] self@.blocks[x]
                                == v0.blocks[x] by {
                                assert(v5.blocks[x] == v2.blocks[x]);
                                assert(v2.blocks[x] == v1.blocks[x]);
                            }
                            assert forall|x: int|
                                (v0.blocks.len() <= x < self@.blocks.len() || x == block.0) && x
                                    != join.0 implies (#[trigger] self@.blocks[x]).terminator is Some by {
                                if x == block.0 || (first + 2 * n <= x < v5.blocks.len()) {
                                    if x < v5.blocks.len() {
                                        assert(self@.blocks[x] == v5.blocks[x]);
                                    }
                                    if x != b2.0 && x < v2.blocks.len() {
                                        assert(v2.blocks[x].terminator is Some);
                                        assert(v3.blocks[x] == v2.blocks[x]);
                                    }
                                }
                            }
                        }
                        Ok(join)
                    },
                }
            },
        }
    }

    /// One arm of a match.
    pub fn build_match_arm(
        &mut self,
        pblock: BlockId,
        body_block: BlockId,
        next_block: BlockId,
        dest: &Lvalue,
        expr: &tir::Expr,
        scrut: &Lvalue,
        arm: &tir::Arm,
    ) -> (r: Result<BlockId, MirError>)
        requires
            old(self)@.inv(),
            old(self)@.open(pblock),
            old(self)@.open(body_block),
            pblock != body_block,
        ensures
            final(self).tcx == old(self).tcx,
            match build_match_arm(
                old(self)@,
                old(self).tcx,
                pblock,
                body_block,
                next_block,
                *dest,
                info_of(expr),
                *scrut,
                arm,
            ) {
                Ok((v, b)) => r == Ok::<BlockId, MirError>(b) && final(self)@ == v && steps2(
                    old(self)@,
                    v,
                    pblock,
                    body_block,
                    b,
                ),
                Err(x) => r == Err::<BlockId, MirError>(x),
            },
        decreases arm, 0nat,
    {
        let info = self.span_info(expr.span);
        let ghost v0 = self@;
        match self.build_arm_predicate(pblock, scrut, &arm.pat) {
            Err(x) => Err(x),
            Ok(BlockAnd(pb, predicate)) => {
                let ghost v1 = self@;
                proof {
                    assert(v1.blocks[body_block.0 as int] == v0.blocks[body_block.0 as int]);
                }
                self.terminate(
                    info,
                    pb,
                    TerminatorKind::Cond(Operand::Lvalue(predicate), body_block, next_block),
                );
                let ghost v2 = self@;
                // the next statement must come after the termination above,
                // as the branch goes to the start of the body block
                match self.write_expr(body_block, dest, &arm.body) {
                    Err(x) => Err(x),
                    Ok(end) => {
                        proof {
                            assert forall|x: int|
                                0 <= x < v0.blocks.len() && x != pblock.0 && x
                                    != body_block.0 implies #[trigger] self@.blocks[x]
                                == v0.blocks[x] by {
                                assert(v1.blocks[x] == v0.blocks[x]);
                                assert(v2.blocks[x] == v1.blocks[x]);
                            }
                        }
                        Ok(end)
                    },
                }
            },
        }
    }

    /// Builds the code that tests whether the pattern of an arm matches.
    pub fn build_arm_predicate(&mut self, pblock: BlockId, scrut: &Lvalue, pat: &tir::Pattern) -> (r:
        Result<BlockAnd<Lvalue>, MirError>)
        requires
            old(self)@.inv(),
            old(self)@.open(pblock),
        ensures
            final(self).tcx == old(self).tcx,
            ok3(
                old(self)@,
                final(self)@,
                pblock,
                r,
                build_arm_predicate(old(self)@, old(self).tcx, pblock, *scrut, pat),
            ),
        decreases pat, 1nat,
    {
        let ghost v0 = self@;
        let info = self.span_info(pat.span);
        // if the predicate is true, the arm's body will be executed
        let bool_ty = self.tcx.types().bool;
        proof {
            lemma_step_alloc(v0, info, VarKind::Tmp, bool_ty, pblock);
        }
        let p = self.alloc_tmp(info, bool_ty);
        let predicate = Lvalue::new(p);
        let ghost v1 = self@;
        // the predicate starts off as true
        let b = Const { kind: ConstKind::Bool(true), ty: bool_ty };
        proof {
            lemma_step_assign(
                v1,
                self.tcx,
                info,
                pblock,
                predicate,
                Rvalue::Use(Operand::Const(b)),
            );
        }
        self.push_assignment(info, pblock, predicate.clone(), Rvalue::Use(Operand::Const(b)));
        let ghost v2 = self@;
        proof {
            lemma_steps_trans(v0, v1, v2, pblock, pblock, pblock);
        }
        match self.build_conjuncts(pblock, &predicate, scrut, pat) {
            Err(x) => Err(x),
            Ok(pb) => {
                proof {
                    lemma_steps_trans(v0, v2, self@, pblock, pblock, pb);
                }
                Ok(BlockAnd(pb, predicate))
            },
        }
    }

    /// Computes a comparison into a temporary of its own, and ands the
    /// temporary into the predicate.
    pub fn and_into(&mut self, info: SpanInfo, block: BlockId, predicate: &Lvalue, comparison: Rvalue)
        requires
            old(self)@.inv(),
            old(self)@.open(block),
        ensures
            final(self).tcx == old(self).tcx,
            final(self)@ == and_into(old(self)@, old(self).tcx, info, block, *predicate, comparison),
            steps(old(self)@, final(self)@, block, block),
    {
        let ghost v0 = self@;
        let bool_ty = self.tcx.types().bool;
        proof {
            lemma_step_alloc(v0, info, VarKind::Tmp, bool_ty, block);
        }
        let c = self.alloc_tmp(info, bool_ty);
        let test_lvalue = Lvalue::new(c);
        let ghost v1 = self@;
        proof {
            lemma_step_assign(v1, self.tcx, info, block, test_lvalue, comparison);
        }
        self.push_assignment(info, block, test_lvalue.clone(), comparison);
        let ghost v2 = self@;
        let and = Rvalue::Bin(
            BinOp::And,
            Operand::Lvalue(test_lvalue),
            Operand::Lvalue(predicate.clone()),
        );
        proof {
            lemma_step_assign(v2, self.tcx, info, block, *predicate, and);
            lemma_steps_trans(v0, v1, v2, block, block, block);
            lemma_steps_trans(
                v0,
                v2,
                v2.push_assignment(self.tcx, info, block, *predicate, and),
                block,
                block,
                block,
            );
        }
        self.push_assignment(info, block, predicate.clone(), and);
    }

    /// Layers the conjuncts of a pattern onto the predicate.
    #[verifier::loop_isolation(false)]
    pub fn build_conjuncts(
        &mut self,
        pblock: BlockId,
        predicate: &Lvalue,
        scrut: &Lvalue,
        pat: &tir::Pattern,
    ) -> (r: Result<BlockId, MirError>)
        requires
            old(self)@.inv(),
            old(self)@.open(pblock),
        ensures
            final(self).tcx == old(self).tcx,
            ok2(
                old(self)@,
                final(self)@,
                pblock,
                r,
                build_conjuncts(old(self)@, old(self).tcx, pblock, *predicate, *scrut, pat),
            ),
        decreases pat, 0nat,
    {
        let ghost v0 = self@;
        let info = self.span_info(pat.span);
        proof {
            lemma_step_refl(v0, pblock);
        }
        match &pat.kind {
            PatternKind::Wildcard => Ok(pblock),
            PatternKind::Binding(_, _) => {
                self.bind_pat_to_lvalue(pblock, pat, scrut);
                Ok(pblock)
            },
            PatternKind::Field(fps) => {
                let ghost total = field_conjuncts(v0, self.tcx, pblock, *predicate, *scrut, fps@, 0);
                let mut cur = pblock;
                let mut i: usize = 0;
                while i < fps.len()
                    invariant
                        i <= fps.len(),
                        self.tcx == old(self).tcx,
                        steps(v0, self@, pblock, cur),
                        total == field_conjuncts(
                            self@,
                            self.tcx,
                            cur,
                            *predicate,
                            *scrut,
                            fps@,
                            i as nat,
                        ),
                    decreases fps.len() - i,
                {
                    let ghost vi = self@;
                    let fp = &fps[i];
                    let place = project_lvalue(scrut, Projection::Field(fp.field, fp.pat.ty));
                    match self.build_conjuncts(cur, predicate, &place, &fp.pat) {
                        Err(x) => {
                            return Err(x);
                        },
                        Ok(pb) => {
                            proof {
                                lemma_steps_trans(v0, vi, self@, pblock, cur, pb);
                            }
                            cur = pb;
                            i += 1;
                        },
                    }
                }
                Ok(cur)
            },
            PatternKind::Lit(expr) => {
                proof {
                    lemma_step_alloc(v0, info, VarKind::Tmp, expr.ty, pblock);
                }
                let t = self.alloc_tmp(info, expr.ty);
                let tmp = Lvalue::new(t);
                let ghost v1 = self@;
                match self.write_expr(pblock, &tmp, &**expr) {
                    Err(x) => Err(x),
                    Ok(pb) => {
                        let ghost v2 = self@;
                        // compare the literal with the scrutinee
                        let test = Rvalue::Bin(
                            BinOp::Eq,
                            Operand::Lvalue(tmp),
                            Operand::Lvalue(scrut.clone()),
                        );
                        self.and_into(info, pb, predicate, test);
                        proof {
                            lemma_steps_trans(v0, v1, v2, pblock, pblock, pb);
                            lemma_steps_trans(v0, v2, self@, pblock, pb, pb);
                        }
                        Ok(pb)
                    },
                }
            },
            PatternKind::Variant(_, idx, pats) => {
                let int_ty = self.tcx.types().int;
                proof {
                    lemma_step_alloc(v0, info, VarKind::Tmp, int_ty, pblock);
                }
                let d = self.alloc_tmp(info, int_ty);
                let discr_lvalue = Lvalue::new(d);
                let ghost v1 = self@;
                proof {
                    lemma_step_assign(
                        v1,
                        self.tcx,
                        info,
                        pblock,
                        discr_lvalue,
                        Rvalue::Discriminant(*scrut),
                    );
                }
                self.push_assignment(
                    info,
                    pblock,
                    discr_lvalue.clone(),
                    Rvalue::Discriminant(scrut.clone()),
                );
                let ghost v2 = self@;
                // the index of the variant is its discriminant: compare it,
                // as an integer, with the discriminant of the scrutinee
                let test = Rvalue::Bin(
                    BinOp::Eq,
                    Operand::Const(Const { kind: ConstKind::Int(idx.0 as i64), ty: int_ty }),
                    Operand::Lvalue(discr_lvalue),
                );
                self.and_into(info, pblock, predicate, test);
                let ghost v3 = self@;
                proof {
                    lemma_steps_trans(v0, v1, v2, pblock, pblock, pblock);
                    lemma_steps_trans(v0, v2, v3, pblock, pblock, pblock);
                }
                let ghost total = variant_conjuncts(
                    v3,
                    self.tcx,
                    pblock,
                    *predicate,
                    *scrut,
                    pats@,
                    0,
                );
                let mut cur = pblock;
                let mut i: usize = 0;
                while i < pats.len()
                    invariant
                        i <= pats.len(),
                        self.tcx == old(self).tcx,
                        steps(v0, self@, pblock, cur),
                        total == variant_conjuncts(
                            self@,
                            self.tcx,
                            cur,
                            *predicate,
                            *scrut,
                            pats@,
                            i as nat,
                        ),
                    decreases pats.len() - i,
                {
                    let ghost vi = self@;
                    let p = &pats[i];
                    let place = project_lvalue(scrut, Projection::Field(FieldIdx(i + 1), p.ty));
                    match self.build_conjuncts(cur, predicate, &place, p) {
                        Err(x) => {
                            return Err(x);
                        },
                        Ok(pb) => {
                            proof {
                                lemma_steps_trans(v0, vi, self@, pblock, cur, pb);
                            }
                            cur = pb;
                            i += 1;
                        },
                    }
                }
                Ok(cur)
            },
        }
    }
}

} // verus!
