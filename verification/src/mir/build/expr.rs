//! Lowering of expressions.

use crate::fxmap::{fx_get, fx_insert, fx_new, lookup};
use crate::index::FieldIdx;
use crate::list::List;
use crate::mir::build::spec::{
    as_fields, as_lvalue, as_operand, as_operands, as_rvalue, as_tmp, bind_field_pats, bind_pat,
    bind_variant_pats, build_block, build_stmt, build_stmts, const_of_lit, declare_field_pats,
    declare_pat, declare_pats, field_count, info_of, lemma_prepend_push, ok2, ok3, ok_vec,
    ordered_fields, prepend, project, rank_lvalue, rank_operand, rank_rvalue, rank_tmp, rank_write,
    ret_lvalue, variant_field, whole, write_expr, written_at,
};
use crate::mir::build::{
    lemma_step_alloc, lemma_step_assign, lemma_step_push_all, lemma_step_refl, lemma_steps_trans,
    steps, unit_const, BlockAnd, Builder, BuilderView, LvalueBuilder,
};
use crate::mir::{
    BlockId, Const, ConstKind, Lvalue, MirError, Operand, Projection, Rvalue, SpanInfo,
    TerminatorKind, VarId, VarKind,
};
use crate::ast::Lit;
use crate::tir;
use crate::tir::{ExprKind, PatternKind, StmtKind};
use crate::ty::kind::Ty;
use vstd::prelude::*;

verus! {

/// The constant of a literal.
pub fn lit_const(lit: Lit, ty: Ty) -> (c: Const)
    ensures
        c == const_of_lit(lit, ty),
{
    match lit {
        Lit::Float(bits) => Const { kind: ConstKind::Float(bits), ty },
        Lit::Int(i) => Const { kind: ConstKind::Int(i), ty },
        Lit::Bool(b) => Const { kind: ConstKind::Bool(b), ty },
    }
}

impl<'a> Builder<'a> {
    /// Writes the value of an expression into a place. Control flow is
    /// lowered here: a block, a call, a match, a return. Everything else is
    /// an assignment of the expression's value form.
    #[verifier::loop_isolation(false)]
    pub fn write_expr(&mut self, block: BlockId, dest: &Lvalue, e: &tir::Expr) -> (r: Result<
        BlockId,
        MirError,
    >)
        requires
            old(self)@.inv(),
            old(self)@.open(block),
        ensures
            final(self).tcx == old(self).tcx,
            ok2(
                old(self)@,
                final(self)@,
                block,
                r,
                write_expr(old(self)@, old(self).tcx, block, *dest, e),
            ),
        decreases e, 2 * rank_write(e),
    {
        let info = self.span_info(e.span);
        let ghost v0 = self@;
        match &e.kind {
            ExprKind::Block(b) => self.build_block(block, dest, &**b),
            ExprKind::Call(f, args) => {
                match self.as_operand(block, &**f) {
                    Err(x) => Err(x),
                    Ok(BlockAnd(b1, fop)) => {
                        let ghost v1 = self@;
                        match self.as_operands(b1, args) {
                            Err(x) => Err(x),
                            Ok(BlockAnd(b2, ops)) => {
                                let ghost v2 = self@;
                                let target = self.append_basic_block();
                                let list = List::from_vec_owned(ops);
                                self.terminate(
                                    info,
                                    b2,
                                    TerminatorKind::Call(fop, list, dest.clone(), target),
                                );
                                proof {
                                    lemma_steps_trans(v0, v1, v2, block, b1, b2);
                                }
                                Ok(target)
                            },
                        }
                    },
                }
            },
            ExprKind::Match(scrut, arms) => self.build_naive_match(block, dest, e, &**scrut, arms),
            ExprKind::Ret(opt) => {
                let ret = Lvalue::ret();
                let written = match opt {
                    Some(x) => self.write_expr(block, &ret, &**x),
                    None => {
                        proof {
                            lemma_step_assign(
                                v0,
                                self.tcx,
                                info,
                                block,
                                ret_lvalue(),
                                Rvalue::Use(Operand::Const(unit_const(self.tcx))),
                            );
                        }
                        self.push_assign_unit(info, block, ret);
                        Ok(block)
                    },
                };
                match written {
                    Err(x) => Err(x),
                    Ok(b1) => {
                        let ghost v1 = self@;
                        self.release_all(b1);
                        self.terminate(info, b1, TerminatorKind::Return);
                        let fresh = self.append_basic_block();
                        Ok(fresh)
                    },
                }
            },
            _ => {
                match self.as_rvalue(block, e) {
                    Err(x) => Err(x),
                    Ok(BlockAnd(b1, rv)) => {
                        let ghost v1 = self@;
                        proof {
                            lemma_step_assign(v1, self.tcx, info, b1, *dest, rv);
                            lemma_steps_trans(
                                v0,
                                v1,
                                v1.push_assignment(self.tcx, info, b1, *dest, rv),
                                block,
                                b1,
                                b1,
                            );
                        }
                        self.push_assignment(info, b1, dest.clone(), rv);
                        Ok(b1)
                    },
                }
            },
        }
    }

    /// Expressions are handled here if there is a value form that
    /// corresponds directly to them; the value of any other expression is
    /// the use of its operand.
    #[verifier::loop_isolation(false)]
    pub fn as_rvalue(&mut self, block: BlockId, e: &tir::Expr) -> (r: Result<
        BlockAnd<Rvalue>,
        MirError,
    >)
        requires
            old(self)@.inv(),
            old(self)@.open(block),
        ensures
            final(self).tcx == old(self).tcx,
            ok3(old(self)@, final(self)@, block, r, as_rvalue(old(self)@, old(self).tcx, block, e)),
        decreases e, 2 * rank_rvalue(e),
    {
        let info = self.span_info(e.span);
        let ghost v0 = self@;
        match &e.kind {
            ExprKind::Adt(adt, variant_idx, fields) => {
                // the operands of the value must be in the order of the
                // fields' declaration; however, the fields are evaluated in
                // the order in which the user wrote them
                let mut index_field_map = fx_new();
                let mut ops: Vec<Operand> = Vec::new();
                let mut cur = block;
                let mut i: usize = 0;
                let ghost total = as_fields(v0, self.tcx, block, fields@, 0);
                while i < fields.len()
                    invariant
                        i <= fields.len(),
                        ops@.len() == i,
                        self.tcx == old(self).tcx,
                        self@.inv(),
                        steps(v0, self@, block, cur),
                        total == prepend(ops@, as_fields(self@, self.tcx, cur, fields@, i as nat)),
                        forall|k: usize| #[trigger]
                            lookup(index_field_map@, k) == match written_at(
                                fields@,
                                k as nat,
                                i as int,
                            ) {
                                Some(p) => Some(p as usize),
                                None => None,
                            },
                    decreases fields.len() - i,
                {
                    let ghost vi = self@;
                    match self.as_operand(cur, &fields[i].expr) {
                        Err(x) => {
                            return Err(x);
                        },
                        Ok(BlockAnd(b1, op)) => {
                            proof {
                                lemma_steps_trans(v0, vi, self@, block, cur, b1);
                                lemma_prepend_push(
                                    ops@,
                                    op,
                                    as_fields(self@, self.tcx, b1, fields@, (i + 1) as nat),
                                );
                            }
                            let ghost before = index_field_map@;
                            let _ = fx_insert(&mut index_field_map, fields[i].index.0, i);
                            proof {
                                assert forall|k: usize| #[trigger]
                                    lookup(index_field_map@, k) == match written_at(
                                        fields@,
                                        k as nat,
                                        i + 1,
                                    ) {
                                        Some(p) => Some(p as usize),
                                        None => None,
                                    } by {
                                    if k != fields@[i as int].index.0 {
                                        assert(lookup(before, k) == lookup(index_field_map@, k));
                                    }
                                }
                            }
                            ops.push(op);
                            cur = b1;
                            i += 1;
                        },
                    }
                }
                proof {
                    assert(ops@ + Seq::<Operand>::empty() =~= ops@);
                }
                if adt.0 >= self.tcx.adt_count() {
                    return Err(MirError::UnknownVariant(*adt, *variant_idx));
                }
                let descr = self.tcx.adt(*adt);
                if variant_idx.0 >= descr.variants.len() {
                    return Err(MirError::UnknownVariant(*adt, *variant_idx));
                }
                let n = descr.variants.get(*variant_idx).fields.len();
                // creates the correctly ordered fields
                let mut ordered: Vec<Operand> = Vec::new();
                let mut k: usize = 0;
                while k < n
                    invariant
                        k <= n,
                        ops@.len() == fields@.len(),
                        ordered_fields(fields@, ops@, k as nat) == Ok::<Seq<Operand>, MirError>(
                            ordered@,
                        ),
                        forall|j: usize| #[trigger]
                            lookup(index_field_map@, j) == match written_at(
                                fields@,
                                j as nat,
                                fields@.len() as int,
                            ) {
                                Some(p) => Some(p as usize),
                                None => None,
                            },
                    decreases n - k,
                {
                    proof {
                        lemma_written_at_range(fields@, k as nat, fields@.len() as int);
                        assert(lookup(index_field_map@, k) == match written_at(
                            fields@,
                            k as nat,
                            fields@.len() as int,
                        ) {
                            Some(p) => Some(p as usize),
                            None => None,
                        });
                    }
                    match fx_get(&index_field_map, k) {
                        Some(p) => {
                            ordered.push(ops[p].clone());
                        },
                        None => {
                            proof {
                                lemma_ordered_fields_err(fields@, ops@, (k + 1) as nat, n as nat);
                            }
                            return Err(MirError::MissingField(FieldIdx(k)));
                        },
                    }
                    k += 1;
                }
                let list = List::from_vec_owned(ordered);
                Ok(BlockAnd(cur, Rvalue::Adt(*adt, *variant_idx, e.ty, list)))
            },
            ExprKind::Bin(op, l, r) => {
                match self.as_operand(block, &**l) {
                    Err(x) => Err(x),
                    Ok(BlockAnd(b1, lhs)) => {
                        let ghost v1 = self@;
                        match self.as_operand(b1, &**r) {
                            Err(x) => Err(x),
                            Ok(BlockAnd(b2, rhs)) => {
                                proof {
                                    lemma_steps_trans(v0, v1, self@, block, b1, b2);
                                }
                                Ok(BlockAnd(b2, Rvalue::Bin(*op, lhs, rhs)))
                            },
                        }
                    },
                }
            },
            ExprKind::Closure(_) => Err(MirError::Closure),
            ExprKind::Unary(op, x) => {
                match self.as_operand(block, &**x) {
                    Err(x) => Err(x),
                    Ok(BlockAnd(b1, operand)) => Ok(BlockAnd(b1, Rvalue::Unary(*op, operand))),
                }
            },
            // assign is a bit out of place here, as there is no value form
            // for it: its value is the value that it writes
            ExprKind::Assign(l, r) => {
                match self.as_lvalue(block, &**l) {
                    Err(x) => Err(x),
                    Ok(BlockAnd(b1, lhs)) => {
                        let ghost v1 = self@;
                        match self.as_rvalue(b1, &**r) {
                            Err(x) => Err(x),
                            Ok(BlockAnd(b2, rhs)) => {
                                let ghost v2 = self@;
                                proof {
                                    lemma_steps_trans(v0, v1, v2, block, b1, b2);
                                    lemma_step_assign(v2, self.tcx, info, b2, lhs, rhs);
                                    lemma_steps_trans(
                                        v0,
                                        v2,
                                        v2.push_assignment(self.tcx, info, b2, lhs, rhs),
                                        block,
                                        b2,
                                        b2,
                                    );
                                }
                                self.push_assignment(info, b2, lhs, rhs.clone());
                                Ok(BlockAnd(b2, rhs))
                            },
                        }
                    },
                }
            },
            ExprKind::Tuple(xs) => {
                match self.as_operands(block, xs) {
                    Err(x) => Err(x),
                    Ok(BlockAnd(b1, ops)) => {
                        let list = List::from_vec_owned(ops);
                        Ok(BlockAnd(b1, Rvalue::Tuple(list)))
                    },
                }
            },
            ExprKind::Box(x) => {
                match self.as_operand(block, &**x) {
                    Err(x) => Err(x),
                    Ok(BlockAnd(b1, operand)) => Ok(BlockAnd(b1, Rvalue::Box(operand))),
                }
            },
            ExprKind::Ref(x) => {
                match self.as_lvalue(block, &**x) {
                    Err(x) => Err(x),
                    Ok(BlockAnd(b1, lvalue)) => Ok(BlockAnd(b1, Rvalue::Ref(lvalue))),
                }
            },
            _ => {
                match self.as_operand(block, e) {
                    Err(x) => Err(x),
                    Ok(BlockAnd(b1, operand)) => Ok(BlockAnd(b1, Rvalue::Use(operand))),
                }
            },
        }
    }

    /// The operand of an expression.
    pub fn as_operand(&mut self, block: BlockId, e: &tir::Expr) -> (r: Result<
        BlockAnd<Operand>,
        MirError,
    >)
        requires
            old(self)@.inv(),
            old(self)@.open(block),
        ensures
            final(self).tcx == old(self).tcx,
            ok3(old(self)@, final(self)@, block, r, as_operand(old(self)@, old(self).tcx, block, e)),
        decreases e, 2 * rank_operand(e),
    {
        proof {
            lemma_step_refl(self@, block);
        }
        match &e.kind {
            ExprKind::Lit(lit) => Ok(BlockAnd(block, Operand::Const(lit_const(*lit, e.ty)))),
            ExprKind::ItemRef(def) => Ok(BlockAnd(block, Operand::Item(*def, e.ty))),
            ExprKind::VarRef(_, _) | ExprKind::Field(_, _) | ExprKind::Deref(_) => {
                match self.as_lvalue(block, e) {
                    Err(x) => Err(x),
                    Ok(BlockAnd(b1, lvalue)) => Ok(BlockAnd(b1, Operand::Lvalue(lvalue))),
                }
            },
            _ => {
                match self.as_tmp(block, e) {
                    Err(x) => Err(x),
                    Ok(BlockAnd(b1, lvalue)) => Ok(BlockAnd(b1, Operand::Lvalue(lvalue))),
                }
            },
        }
    }

    /// The operands of a list of expressions, evaluated from the left.
    #[verifier::loop_isolation(false)]
    pub fn as_operands(&mut self, block: BlockId, es: &Vec<tir::Expr>) -> (r: Result<
        BlockAnd<Vec<Operand>>,
        MirError,
    >)
        requires
            old(self)@.inv(),
            old(self)@.open(block),
        ensures
            final(self).tcx == old(self).tcx,
            ok_vec(
                old(self)@,
                final(self)@,
                block,
                r,
                as_operands(old(self)@, old(self).tcx, block, es@, 0),
            ),
        decreases es@, es@.len(),
    {
        let ghost v0 = self@;
        let ghost total = as_operands(v0, self.tcx, block, es@, 0);
        let mut ops: Vec<Operand> = Vec::new();
        let mut cur = block;
        let mut i: usize = 0;
        proof {
            lemma_step_refl(v0, block);
        }
        while i < es.len()
            invariant
                i <= es.len(),
                self.tcx == old(self).tcx,
                steps(v0, self@, block, cur),
                total == prepend(ops@, as_operands(self@, self.tcx, cur, es@, i as nat)),
            decreases es.len() - i,
        {
            let ghost vi = self@;
            match self.as_operand(cur, &es[i]) {
                Err(x) => {
                    return Err(x);
                },
                Ok(BlockAnd(b1, op)) => {
                    proof {
                        lemma_steps_trans(v0, vi, self@, block, cur, b1);
                        lemma_prepend_push(
                            ops@,
                            op,
                            as_operands(self@, self.tcx, b1, es@, (i + 1) as nat),
                        );
                    }
                    ops.push(op);
                    cur = b1;
                    i += 1;
                },
            }
        }
        proof {
            assert(ops@ + Seq::<Operand>::empty() =~= ops@);
        }
        Ok(BlockAnd(cur, ops))
    }

    /// The place of an expression.
    pub fn as_lvalue(&mut self, block: BlockId, e: &tir::Expr) -> (r: Result<
        BlockAnd<Lvalue>,
        MirError,
    >)
        requires
            old(self)@.inv(),
            old(self)@.open(block),
        ensures
            final(self).tcx == old(self).tcx,
            ok3(old(self)@, final(self)@, block, r, as_lvalue(old(self)@, old(self).tcx, block, e)),
        decreases e, 2 * rank_lvalue(e) + 1,
    {
        match self.as_lvalue_builder(block, e) {
            Err(x) => Err(x),
            Ok(BlockAnd(b1, builder)) => Ok(BlockAnd(b1, builder.lvalue())),
        }
    }

    /// The place of an expression, open for more steps. A variable and a
    /// field are places; the value of anything else is written into a
    /// temporary, and the temporary is the place.
    pub fn as_lvalue_builder(&mut self, block: BlockId, e: &tir::Expr) -> (r: Result<
        BlockAnd<LvalueBuilder>,
        MirError,
    >)
        requires
            old(self)@.inv(),
            old(self)@.open(block),
        ensures
            final(self).tcx == old(self).tcx,
            match as_lvalue(old(self)@, old(self).tcx, block, e) {
                Ok((v, b, l)) => r is Ok && r->Ok_0.0 == b && r->Ok_0.1.spec_lvalue() == l
                    && final(self)@ == v && steps(old(self)@, v, block, b),
                Err(x) => r is Err && r->Err_0 == x,
            },
        decreases e, 2 * rank_lvalue(e),
    {
        proof {
            lemma_step_refl(self@, block);
        }
        match &e.kind {
            ExprKind::VarRef(id, _) => {
                match fx_get(&self.var_ir_map, id.local.0) {
                    Some(var) => Ok(BlockAnd(block, LvalueBuilder::from(VarId(var)))),
                    None => Err(MirError::UnboundVariable(*id)),
                }
            },
            ExprKind::Field(base, idx) => {
                match self.as_lvalue_builder(block, &**base) {
                    Err(x) => Err(x),
                    Ok(BlockAnd(b1, builder)) => Ok(
                        BlockAnd(b1, builder.project_field(*idx, e.ty)),
                    ),
                }
            },
            ExprKind::Deref(base) => {
                match self.as_lvalue_builder(block, &**base) {
                    Err(x) => Err(x),
                    Ok(BlockAnd(b1, builder)) => Ok(BlockAnd(b1, builder.project(Projection::Deref))),
                }
            },
            _ => {
                // if the expression is not a place, create a temporary and
                // return that as a place
                match self.as_tmp(block, e) {
                    Err(x) => Err(x),
                    Ok(BlockAnd(b1, lvalue)) => Ok(BlockAnd(b1, LvalueBuilder::from(lvalue.id))),
                }
            },
        }
    }

    /// A fresh temporary with the value of the expression.
    pub fn as_tmp(&mut self, block: BlockId, e: &tir::Expr) -> (r: Result<BlockAnd<Lvalue>, MirError>)
        requires
            old(self)@.inv(),
            old(self)@.open(block),
        ensures
            final(self).tcx == old(self).tcx,
            ok3(old(self)@, final(self)@, block, r, as_tmp(old(self)@, old(self).tcx, block, e)),
        decreases e, 2 * rank_tmp(e),
    {
        let ghost v0 = self@;
        let info = self.span_info(e.span);
        proof {
            lemma_step_alloc(v0, info, VarKind::Tmp, e.ty, block);
        }
        let tmp = self.alloc_tmp(info, e.ty);
        let ghost v1 = self@;
        let lvalue = Lvalue::new(tmp);
        match self.write_expr(block, &lvalue, e) {
            Err(x) => Err(x),
            Ok(b2) => {
                proof {
                    lemma_steps_trans(v0, v1, self@, block, block, b2);
                }
                Ok(BlockAnd(b2, lvalue))
            },
        }
    }

    /// A block expression.
    #[verifier::loop_isolation(false)]
    pub fn build_block(&mut self, block: BlockId, dest: &Lvalue, blk: &tir::Block) -> (r: Result<
        BlockId,
        MirError,
    >)
        requires
            old(self)@.inv(),
            old(self)@.open(block),
        ensures
            final(self).tcx == old(self).tcx,
            ok2(
                old(self)@,
                final(self)@,
                block,
                r,
                build_block(old(self)@, old(self).tcx, block, *dest, blk),
            ),
        decreases blk, 0nat,
    {
        let ghost v0 = self@;
        self.push_scope();
        let ghost vs = self@;
        let ghost total = build_stmts(vs, self.tcx, block, blk.stmts@, 0);
        let mut cur = block;
        let mut i: usize = 0;
        while i < blk.stmts.len()
            invariant
                i <= blk.stmts.len(),
                self.tcx == old(self).tcx,
                steps(vs, self@, block, cur),
                total == build_stmts(self@, self.tcx, cur, blk.stmts@, i as nat),
            decreases blk.stmts.len() - i,
        {
            let ghost vi = self@;
            match self.build_stmt(cur, &blk.stmts[i]) {
                Err(x) => {
                    return Err(x);
                },
                Ok(b1) => {
                    proof {
                        lemma_steps_trans(vs, vi, self@, block, cur, b1);
                    }
                    cur = b1;
                    i += 1;
                },
            }
        }
        let ghost v1 = self@;
        let last = match &blk.expr {
            Some(x) => self.write_expr(cur, dest, x),
            None => {
                let info = self.span_info(blk.span);
                proof {
                    lemma_step_assign(
                        v1,
                        self.tcx,
                        info,
                        cur,
                        *dest,
                        Rvalue::Use(Operand::Const(unit_const(self.tcx))),
                    );
                }
                self.push_assign_unit(info, cur, dest.clone());
                Ok(cur)
            },
        };
        match last {
            Err(x) => Err(x),
            Ok(b2) => {
                let ghost v2 = self@;
                proof {
                    lemma_steps_trans(vs, v1, v2, block, cur, b2);
                }
                self.exit_scope(b2);
                Ok(b2)
            },
        }
    }

    /// One statement.
    pub fn build_stmt(&mut self, block: BlockId, stmt: &tir::Stmt) -> (r: Result<BlockId, MirError>)
        requires
            old(self)@.inv(),
            old(self)@.open(block),
        ensures
            final(self).tcx == old(self).tcx,
            ok2(old(self)@, final(self)@, block, r, build_stmt(old(self)@, old(self).tcx, block, stmt)),
        decreases stmt, 0nat,
    {
        let ghost v0 = self@;
        match &stmt.kind {
            StmtKind::Let(l) => {
                match &l.init {
                    Some(init) => {
                        match self.as_lvalue(block, init) {
                            Err(x) => Err(x),
                            Ok(BlockAnd(b1, lvalue)) => {
                                let ghost v1 = self@;
                                self.bind_pat_to_lvalue(b1, &l.pat, &lvalue);
                                proof {
                                    lemma_steps_trans(v0, v1, self@, block, b1, b1);
                                }
                                Ok(b1)
                            },
                        }
                    },
                    None => {
                        self.declare_pat(block, &l.pat);
                        Ok(block)
                    },
                }
            },
            StmtKind::Expr(x) => {
                match self.as_tmp(block, x) {
                    Err(x) => Err(x),
                    Ok(BlockAnd(b1, _)) => Ok(b1),
                }
            },
        }
    }

    /// Gives every binding of a pattern a variable, without a value.
    #[verifier::loop_isolation(false)]
    pub fn declare_pat(&mut self, block: BlockId, pat: &tir::Pattern)
        requires
            old(self)@.inv(),
            old(self)@.open(block),
        ensures
            final(self).tcx == old(self).tcx,
            final(self)@ == declare_pat(old(self)@, pat),
            steps(old(self)@, final(self)@, block, block),
        decreases pat, 0nat,
    {
        let ghost v0 = self@;
        proof {
            lemma_step_refl(v0, block);
        }
        match &pat.kind {
            PatternKind::Binding(_, _) => {
                proof {
                    lemma_step_alloc(v0, SpanInfo { span: pat.span }, VarKind::Local, pat.ty, block);
                }
                let _ = self.alloc_local(pat);
            },
            PatternKind::Field(fps) => {
                let mut i: usize = 0;
                while i < fps.len()
                    invariant
                        i <= fps.len(),
                        self.tcx == old(self).tcx,
                        steps(v0, self@, block, block),
                        declare_field_pats(v0, fps@, 0) == declare_field_pats(self@, fps@, i as nat),
                    decreases fps.len() - i,
                {
                    let ghost vi = self@;
                    self.declare_pat(block, &fps[i].pat);
                    proof {
                        lemma_steps_trans(v0, vi, self@, block, block, block);
                    }
                    i += 1;
                }
            },
            PatternKind::Variant(_, _, pats) => {
                let mut i: usize = 0;
                while i < pats.len()
                    invariant
                        i <= pats.len(),
                        self.tcx == old(self).tcx,
                        steps(v0, self@, block, block),
                        declare_pats(v0, pats@, 0) == declare_pats(self@, pats@, i as nat),
                    decreases pats.len() - i,
                {
                    let ghost vi = self@;
                    self.declare_pat(block, &pats[i]);
                    proof {
                        lemma_steps_trans(v0, vi, self@, block, block, block);
                    }
                    i += 1;
                }
            },
            _ => {},
        }
    }

    /// Binds a pattern to a place.
    #[verifier::loop_isolation(false)]
    pub fn bind_pat_to_lvalue(&mut self, block: BlockId, pat: &tir::Pattern, lvalue: &Lvalue)
        requires
            old(self)@.inv(),
            old(self)@.open(block),
        ensures
            final(self).tcx == old(self).tcx,
            final(self)@ == bind_pat(old(self)@, old(self).tcx, block, pat, *lvalue),
            steps(old(self)@, final(self)@, block, block),
        decreases pat, 0nat,
    {
        let ghost v0 = self@;
        proof {
            lemma_step_refl(v0, block);
        }
        match &pat.kind {
            PatternKind::Binding(_, _) => {
                let info = self.span_info(pat.span);
                proof {
                    lemma_step_alloc(v0, info, VarKind::Local, pat.ty, block);
                }
                let var = self.alloc_local(pat);
                let ghost v1 = self@;
                proof {
                    lemma_step_assign(
                        v1,
                        self.tcx,
                        info,
                        block,
                        whole(var),
                        Rvalue::Use(Operand::Lvalue(*lvalue)),
                    );
                    lemma_steps_trans(
                        v0,
                        v1,
                        v1.push_assignment(
                            self.tcx,
                            info,
                            block,
                            whole(var),
                            Rvalue::Use(Operand::Lvalue(*lvalue)),
                        ),
                        block,
                        block,
                        block,
                    );
                }
                self.push_assignment(
                    info,
                    block,
                    Lvalue::new(var),
                    Rvalue::Use(Operand::Lvalue(lvalue.clone())),
                );
            },
            PatternKind::Field(fps) => {
                let mut i: usize = 0;
                while i < fps.len()
                    invariant
                        i <= fps.len(),
                        self.tcx == old(self).tcx,
                        steps(v0, self@, block, block),
                        bind_field_pats(v0, self.tcx, block, fps@, *lvalue, 0) == bind_field_pats(
                            self@,
                            self.tcx,
                            block,
                            fps@,
                            *lvalue,
                            i as nat,
                        ),
                    decreases fps.len() - i,
                {
                    let ghost vi = self@;
                    let fp = &fps[i];
                    let place = project_lvalue(lvalue, Projection::Field(fp.field, fp.pat.ty));
                    self.bind_pat_to_lvalue(block, &fp.pat, &place);
                    proof {
                        lemma_steps_trans(v0, vi, self@, block, block, block);
                    }
                    i += 1;
                }
            },
            PatternKind::Variant(_, _, pats) => {
                let mut i: usize = 0;
                while i < pats.len()
                    invariant
                        i <= pats.len(),
                        self.tcx == old(self).tcx,
                        steps(v0, self@, block, block),
                        bind_variant_pats(v0, self.tcx, block, pats@, *lvalue, 0)
                            == bind_variant_pats(self@, self.tcx, block, pats@, *lvalue, i as nat),
                    decreases pats.len() - i,
                {
                    let ghost vi = self@;
                    let p = &pats[i];
                    let place = project_lvalue(lvalue, Projection::Field(FieldIdx(i + 1), p.ty));
                    self.bind_pat_to_lvalue(block, p, &place);
                    proof {
                        lemma_steps_trans(v0, vi, self@, block, block, block);
                    }
                    i += 1;
                }
            },
            _ => {},
        }
    }
}

/// The place one step inside a place.
pub fn project_lvalue(lvalue: &Lvalue, p: Projection) -> (l: Lvalue)
    ensures
        l == project(*lvalue, p),
{
    Lvalue { id: lvalue.id, projs: crate::mir::snoc(&lvalue.projs, p) }
}

pub proof fn lemma_written_at_range(fields: Seq<tir::Field>, index: nat, below: int)
    ensures
        written_at(fields, index, below) is Some ==> 0 <= written_at(fields, index, below)->Some_0
            < below,
    decreases below,
{
    if below > 0 && fields[below - 1].index.0 != index {
        lemma_written_at_range(fields, index, below - 1);
    }
}

/// A field that is left out is still left out when more fields are asked
/// for.
pub proof fn lemma_ordered_fields_err(fields: Seq<tir::Field>, ops: Seq<Operand>, k: nat, n: nat)
    requires
        0 < k <= n,
        ordered_fields(fields, ops, k) is Err,
    ensures
        ordered_fields(fields, ops, n) == ordered_fields(fields, ops, k),
    decreases n - k,
{
    if k < n {
        lemma_ordered_fields_err(fields, ops, k, (n - 1) as nat);
    }
}

} // verus!
