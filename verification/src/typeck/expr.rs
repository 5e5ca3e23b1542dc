//! The checker of expressions and statements.

use crate::ast::{BinOp, Ident, Lit, Mutability, UnaryOp};
use crate::fxmap::{fx_get, fx_insert, fx_is_empty, fx_new, fx_remove, lookup};
use crate::index::Symbol;
use crate::ir;
use crate::ir::{DefKind, ExprKind, MatchSource, PatternKind, Res, StmtKind};
use crate::span::Span;
use crate::ty::adt::{
    copy_fields, find_position_named, first_named, first_with_ctor, lemma_first_named_range,
    AdtKind, CtorKind, FieldTy, VariantTy,
};
use crate::ty::error::{Diagnostic, TypeError};
use crate::ty::kind::{AdtId, Ty, TyCon};
use crate::ty::store::TyCtx;
use crate::ty::term::Term;
use crate::typeck::fcx::{step, AdjustmentKind, FnCtx, FnView};
use crate::typeck::spec;
use crate::typeck::tyconv::prepend_tys;
use crate::typeck::helpers::{
    fields_match, lemma_fields_match_extends, lemma_find_field, lemma_last_field_range,
    lemma_variant_with_ctor,
};
use crate::typeck::view::{
    adt_view, diags_view, field_view, variant_view, DiagView, ErrView, FieldView, Globals,
    VariantView,
};
use vstd::prelude::*;

verus! {

impl<'a> FnCtx<'a> {
    /// Checks an expression: its type, recorded for its node.
    pub fn check_expr(&mut self, e: &ir::Expr) -> (t: Ty)
        requires
            old(self).wf(),
        ensures
            step(old(self), final(self)),
            final(self).has(t),
            (final(self)@, final(self).term(t)) == spec::check_expr(
                old(self).globals(),
                old(self).interner,
                old(self)@,
                e,
            ),
        decreases e, 2nat,
    {
        broadcast use TyCtx::lemma_extends_auto;

        let ty = self.check_expr_kind(e);
        self.record_ty(e.id, ty)
    }

    pub fn check_expr_kind(&mut self, e: &ir::Expr) -> (t: Ty)
        requires
            old(self).wf(),
        ensures
            step(old(self), final(self)),
            final(self).has(t),
            (final(self)@, final(self).term(t)) == spec::check_expr_kind(
                old(self).globals(),
                old(self).interner,
                old(self)@,
                e,
            ),
        decreases e, 1nat,
    {
        broadcast use TyCtx::lemma_extends_auto;

        match &e.kind {
            ExprKind::Box(x) => {
                let ty = self.check_expr(&**x);
                self.mk_unary(TyCon::Box, ty)
            },
            ExprKind::Error => self.set_ty_err(),
            ExprKind::Lit(lit) => self.check_lit(lit),
            ExprKind::Bin(op, l, r) => {
                let tl = self.check_expr(&**l);
                let tr = self.check_expr(&**r);
                self.check_binop(*op, l.span, r.span, tl, tr)
            },
            ExprKind::Unary(op, x) => {
                let ty = self.check_expr(&**x);
                self.check_unary_expr(e.span, *op, ty)
            },
            ExprKind::Block(b) => self.check_block(&**b),
            ExprKind::Path(p) => self.check_expr_path(p),
            ExprKind::Tuple(xs) => {
                let tys = self.check_expr_list(xs);
                self.mk_tup(tys)
            },
            ExprKind::Closure(sig, body) => self.check_closure_expr(e, sig, &**body),
            ExprKind::Call(f, args) => self.check_call_expr(e, &**f, args),
            ExprKind::Match(scrut, arms, src) => self.check_match_expr(e, &**scrut, arms, src),
            ExprKind::Struct(path, fields) => self.check_struct_expr(e, path, fields),
            ExprKind::Assign(l, r) => self.check_assign_expr(e, &**l, &**r),
            ExprKind::Ret(opt) => {
                let ty = match opt {
                    Some(x) => self.check_expr(&**x),
                    None => self.infcx.tcx.types().unit,
                };
                let ret = self.ret_ty;
                self.equate(e.span, ret, ty);
                self.infcx.tcx.types().never
            },
            ExprKind::Field(base, ident) => {
                let base_ty = self.check_expr(&**base);
                self.check_field_expr_inner(e.id, e.span, base_ty, *ident)
            },
        }
    }

    pub fn check_binop(&mut self, op: BinOp, lspan: Span, rspan: Span, tl: Ty, tr: Ty) -> (t: Ty)
        requires
            old(self).wf(),
            old(self).has(tl),
            old(self).has(tr),
        ensures
            step(old(self), final(self)),
            final(self).has(t),
            (final(self)@, final(self).term(t)) == spec::check_binop(
                old(self)@,
                op,
                lspan,
                rspan,
                old(self).term(tl),
                old(self).term(tr),
            ),
    {
        broadcast use TyCtx::lemma_extends_auto;

        let types = self.infcx.tcx.types();
        match op {
            BinOp::Mul | BinOp::Div | BinOp::Add | BinOp::Sub | BinOp::And | BinOp::Or => {
                self.equate(lspan, types.int, tl);
                self.equate(rspan, tl, tr);
                tl
            },
            BinOp::Lt | BinOp::Gt => {
                self.equate(lspan, types.int, tl);
                self.equate(rspan, tl, tr);
                types.bool
            },
            BinOp::Eq | BinOp::Neq => {
                self.equate(rspan, tl, tr);
                types.bool
            },
        }
    }

    pub fn check_unary_expr(&mut self, span: Span, op: UnaryOp, operand_ty: Ty) -> (t: Ty)
        requires
            old(self).wf(),
            old(self).has(operand_ty),
        ensures
            step(old(self), final(self)),
            final(self).has(t),
            (final(self)@, final(self).term(t)) == spec::check_unary(
                old(self)@,
                span,
                op,
                old(self).term(operand_ty),
            ),
    {
        broadcast use TyCtx::lemma_extends_auto;

        let ghost pre = *self;
        let types = self.infcx.tcx.types();
        match op {
            UnaryOp::Neg => {
                self.equate(span, types.int, operand_ty);
                types.int
            },
            UnaryOp::Not => {
                self.equate(span, types.bool, operand_ty);
                types.bool
            },
            UnaryOp::Deref => {
                let r = self.partially_resolve_ty(operand_ty);
                let args = self.args_of(r);
                let is_box = match self.infcx.tcx.con(r) {
                    TyCon::Box => true,
                    _ => false,
                };
                if is_box && args.len() == 1 {
                    proof {
                        assert(self.terms(args@)[0] == self.term(args@[0]));
                    }
                    args[0]
                } else {
                    let inner = self.new_infer_var(span);
                    let ptr = self.mk_unary(TyCon::Ptr, inner);
                    self.equate(span, ptr, operand_ty);
                    inner
                }
            },
            UnaryOp::Ref => {
                if !self.unsafe_ctx {
                    let _ = self.emit_ty_err(span, TypeError::RequireUnsafeCtx);
                }
                self.mk_unary(TyCon::Ptr, operand_ty)
            },
        }
    }

    /// The type of a path in value position.
    pub fn check_expr_path(&mut self, path: &ir::Path) -> (t: Ty)
        requires
            old(self).wf(),
        ensures
            step(old(self), final(self)),
            final(self).has(t),
            (final(self)@, final(self).term(t)) == spec::check_expr_path(
                old(self).globals(),
                old(self)@,
                path,
            ),
    {
        broadcast use TyCtx::lemma_extends_auto;

        match path.res {
            Res::Local(id) => self.local_ty(id),
            Res::Def(def_id, def_kind) => match def_kind {
                // instantiate the type parameters
                DefKind::Fn | DefKind::AssocFn | DefKind::Enum | DefKind::Struct | DefKind::Ctor(
                    _,
                ) => {
                    match self.infcx.tcx.collected_ty_opt(def_id) {
                        Some(ty) => self.instantiate(path.span, ty),
                        None => self.set_ty_err(),
                    }
                },
                _ => self.set_ty_err(),
            },
            Res::SelfVal(impl_def) => {
                match self.infcx.tcx.collected_ty_opt(impl_def) {
                    Some(ty) => ty,
                    None => self.set_ty_err(),
                }
            },
            _ => self.set_ty_err(),
        }
    }

    /// The types of a list of expressions.
    #[verifier::loop_isolation(false)]
    pub fn check_expr_list(&mut self, xs: &Vec<ir::Expr>) -> (tys: Vec<Ty>)
        requires
            old(self).wf(),
        ensures
            step(old(self), final(self)),
            final(self).has_all(tys@),
            (final(self)@, final(self).terms(tys@)) == spec::check_exprs(
                old(self).globals(),
                old(self).interner,
                old(self)@,
                xs@,
                0,
            ),
        decreases xs@, xs@.len(),
    {
        broadcast use TyCtx::lemma_extends_auto;

        let ghost pre = *self;
        let ghost g = pre.globals();
        let ghost total = spec::check_exprs(g, pre.interner, pre@, xs@, 0);
        let mut tys: Vec<Ty> = Vec::new();
        let mut i: usize = 0;
        proof {
            assert(self.terms(tys@) =~= Seq::<Term>::empty());
            assert(Seq::<Term>::empty() + total.1 =~= total.1);
        }
        while i < xs.len()
            invariant
                i <= xs.len(),
                tys@.len() == i,
                step(&pre, self),
                self.has_all(tys@),
                total == prepend_tys(
                    self.terms(tys@),
                    spec::check_exprs(g, pre.interner, self@, xs@, i as nat),
                ),
            decreases xs.len() - i,
        {
            let ghost mid = *self;
            let ghost acc = self.terms(tys@);
            let t = self.check_expr(&xs[i]);
            proof {
                self.infcx.tcx.lemma_extends_all(&mid.infcx.tcx, tys@);
                let rest = spec::check_exprs(g, pre.interner, self@, xs@, (i + 1) as nat);
                assert(acc + (seq![self.term(t)] + rest.1) =~= acc.push(self.term(t)) + rest.1);
                assert(self.terms(tys@.push(t)) =~= acc.push(self.term(t)));
            }
            tys.push(t);
            i += 1;
        }
        proof {
            assert(self.terms(tys@) + Seq::<Term>::empty() =~= self.terms(tys@));
        }
        tys
    }

    pub fn check_closure_expr(&mut self, closure: &ir::Expr, sig: &ir::FnSig, body: &ir::Body) -> (t:
        Ty)
        requires
            old(self).wf(),
            closure.kind matches ExprKind::Closure(s, b) && s == *sig && *b == *body,
        ensures
            step(old(self), final(self)),
            final(self).has(t),
            (final(self)@, final(self).term(t)) == spec::check_expr_kind(
                old(self).globals(),
                old(self).interner,
                old(self)@,
                closure,
            ),
        decreases closure, 0nat,
    {
        broadcast use TyCtx::lemma_extends_auto;

        let ghost pre = *self;
        let params = self.lower_tys(true, &sig.inputs);
        let ghost mid = *self;
        let ret = match &sig.output {
            Some(t) => self.ir_ty_to_ty(true, t),
            None => self.infcx.tcx.types().unit,
        };
        proof {
            self.infcx.tcx.lemma_extends_all(&mid.infcx.tcx, params@);
        }
        let ghost mid2 = *self;
        let copy = crate::ty::store::copy_tys(&params);
        let ty = self.mk_fn_ptr(copy, ret);
        proof {
            self.infcx.tcx.lemma_extends_all(&mid2.infcx.tcx, params@);
        }
        // the resolver resolved the closure's name to the closure itself:
        // it is a local variable of the closure's type
        let _ = self.def_local(closure.id, Mutability::Imm, ty);
        self.check_fn(&params, ret, body);
        ty
    }

    /// Checks the body of a function in the context of its caller.
    pub fn check_fn(&mut self, params: &Vec<Ty>, ret: Ty, body: &ir::Body)
        requires
            old(self).wf(),
            old(self).has_all(params@),
            old(self).has(ret),
        ensures
            step(old(self), final(self)),
            final(self)@ == spec::check_fn(
                old(self).globals(),
                old(self).interner,
                old(self)@,
                old(self).terms(params@),
                old(self).term(ret),
                body,
            ),
        decreases body, 1nat,
    {
        broadcast use TyCtx::lemma_extends_auto;

        let outer_ret = self.ret_ty;
        let outer_unsafe = self.unsafe_ctx;
        self.ret_ty = ret;
        self.unsafe_ctx = false;
        self.check_body(params, body);
        self.ret_ty = outer_ret;
        self.unsafe_ctx = outer_unsafe;
    }

    /// Checks the patterns of the parameters of a body against the
    /// parameter types.
    pub fn check_params(&mut self, ps: &Vec<ir::Param>, params: &Vec<Ty>)
        requires
            old(self).wf(),
            old(self).has_all(params@),
        ensures
            step(old(self), final(self)),
            final(self)@ == spec::check_params(
                old(self).globals(),
                old(self).interner,
                old(self)@,
                ps@,
                old(self).terms(params@),
                0,
            ),
        decreases ps@, ps@.len(),
    {
        let ghost pre = *self;
        let ghost g = pre.globals();
        let ghost tys = pre.terms(params@);
        let mut i: usize = 0;
        while i < ps.len() && i < params.len()
            invariant
                i <= ps.len(),
                i <= params.len(),
                step(&pre, self),
                g == pre.globals(),
                self.has_all(params@),
                self.terms(params@) == tys,
                spec::check_params(g, pre.interner, pre@, ps@, tys, 0) == spec::check_params(
                    g,
                    pre.interner,
                    self@,
                    ps@,
                    tys,
                    i as nat,
                ),
            decreases ps.len() - i,
        {
            let ghost mid = *self;
            proof {
                assert(self.terms(params@)[i as int] == self.term(params@[i as int]));
            }
            let _ = self.check_pat(&ps[i].pat, params[i]);
            proof {
                self.infcx.tcx.lemma_extends_all(&mid.infcx.tcx, params@);
                self.infcx.tcx.lemma_extends_trans(&mid.infcx.tcx, &pre.infcx.tcx);
            }
            i += 1;
        }
    }

    /// The parameter types come from the signature (or are inference
    /// variables): the patterns of the parameters are checked against them,
    /// and the expression of the body against the return type.
    pub fn check_body(&mut self, params: &Vec<Ty>, body: &ir::Body)
        requires
            old(self).wf(),
            old(self).has_all(params@),
        ensures
            step(old(self), final(self)),
            final(self)@ == spec::check_body(
                old(self).globals(),
                old(self).interner,
                old(self)@,
                old(self).terms(params@),
                body,
            ),
        decreases body, 0nat,
    {
        broadcast use TyCtx::lemma_extends_auto;

        self.check_params(&body.params, params);
        let body_ty = self.check_expr(&body.expr);
        let ret = self.ret_ty;
        self.coerce(body.expr.id, body.expr.span, body_ty, ret);
        // explicitly overwrite the type of the body with the return type of
        // the function: where the final statement diverges, the body itself
        // would have the type of nothing
        let _ = self.record_ty(body.id(), ret);
    }

    pub fn check_call_expr(&mut self, expr: &ir::Expr, f: &ir::Expr, args: &Vec<ir::Expr>) -> (t: Ty)
        requires
            old(self).wf(),
            expr.kind matches ExprKind::Call(x, a) && *x == *f && a == *args,
        ensures
            step(old(self), final(self)),
            final(self).has(t),
            (final(self)@, final(self).term(t)) == spec::check_expr_kind(
                old(self).globals(),
                old(self).interner,
                old(self)@,
                expr,
            ),
        decreases expr, 0nat,
    {
        broadcast use TyCtx::lemma_extends_auto;

        let ret = self.new_infer_var(expr.span);
        let f_ty = self.check_expr(f);
        let ghost mid = *self;
        let params = self.check_expr_list(args);
        let ty = self.mk_fn_ptr(params, ret);
        self.coerce(f.id, expr.span, f_ty, ty);
        ret
    }

    /// Checks that each arm pattern is of the type of the scrutinee.
    pub fn check_arm_pats(&mut self, arms: &Vec<ir::Arm>, expr_ty: Ty)
        requires
            old(self).wf(),
            old(self).has(expr_ty),
        ensures
            step(old(self), final(self)),
            final(self)@ == spec::check_arm_pats(
                old(self).globals(),
                old(self).interner,
                old(self)@,
                arms@,
                old(self).term(expr_ty),
                0,
            ),
        decreases arms@, arms@.len(),
    {
        let ghost pre = *self;
        let ghost g = pre.globals();
        let ghost st = pre.term(expr_ty);
        let mut i: usize = 0;
        while i < arms.len()
            invariant
                i <= arms.len(),
                step(&pre, self),
                g == pre.globals(),
                st == pre.term(expr_ty),
                self.has(expr_ty),
                self.term(expr_ty) == st,
                spec::check_arm_pats(g, pre.interner, pre@, arms@, st, 0) == spec::check_arm_pats(
                    g,
                    pre.interner,
                    self@,
                    arms@,
                    st,
                    i as nat,
                ),
            decreases arms.len() - i,
        {
            let ghost mid = *self;
            let _ = self.check_pat(&arms[i].pat, expr_ty);
            proof {
                self.infcx.tcx.lemma_extends(&mid.infcx.tcx, expr_ty);
                self.infcx.tcx.lemma_extends_trans(&mid.infcx.tcx, &pre.infcx.tcx);
            }
            i += 1;
        }
    }

    /// Checks the bodies of the arms before the last against the expected
    /// type.
    pub fn check_arm_bodies(&mut self, arms: &Vec<ir::Arm>, expected_ty: Ty, n: usize)
        requires
            old(self).wf(),
            old(self).has(expected_ty),
            n < arms@.len(),
        ensures
            step(old(self), final(self)),
            final(self)@ == spec::check_arm_bodies(
                old(self).globals(),
                old(self).interner,
                old(self)@,
                arms@,
                old(self).term(expected_ty),
                n as nat,
                0,
            ),
        decreases arms@, arms@.len(),
    {
        let ghost pre = *self;
        let ghost g = pre.globals();
        let ghost et = pre.term(expected_ty);
        let mut k: usize = 0;
        while k < n
            invariant
                k <= n,
                n < arms@.len(),
                step(&pre, self),
                g == pre.globals(),
                et == pre.term(expected_ty),
                self.has(expected_ty),
                self.term(expected_ty) == et,
                spec::check_arm_bodies(g, pre.interner, pre@, arms@, et, n as nat, 0)
                    == spec::check_arm_bodies(
                    g,
                    pre.interner,
                    self@,
                    arms@,
                    et,
                    n as nat,
                    k as nat,
                ),
            decreases n - k,
        {
            let ghost mid = *self;
            let arm_ty = self.check_expr(&arms[k].body);
            let ghost mid2 = *self;
            proof {
                self.infcx.tcx.lemma_extends(&mid.infcx.tcx, expected_ty);
            }
            self.equate(arms[k].span, expected_ty, arm_ty);
            proof {
                self.infcx.tcx.lemma_extends(&mid2.infcx.tcx, expected_ty);
                self.infcx.tcx.lemma_extends_trans(&mid2.infcx.tcx, &mid.infcx.tcx);
                self.infcx.tcx.lemma_extends_trans(&mid.infcx.tcx, &pre.infcx.tcx);
            }
            k += 1;
        }
    }

    pub fn check_match_expr(
        &mut self,
        expr: &ir::Expr,
        scrut: &ir::Expr,
        arms: &Vec<ir::Arm>,
        src: &MatchSource,
    ) -> (t: Ty)
        requires
            old(self).wf(),
            expr.kind matches ExprKind::Match(s, a, m) && *s == *scrut && a == *arms && m == *src,
        ensures
            step(old(self), final(self)),
            final(self).has(t),
            (final(self)@, final(self).term(t)) == spec::check_expr_kind(
                old(self).globals(),
                old(self).interner,
                old(self)@,
                expr,
            ),
        decreases expr, 0nat,
    {
        broadcast use TyCtx::lemma_extends_auto;

        let expr_ty = self.check_expr(scrut);
        match src {
            MatchSource::If => {
                let b = self.infcx.tcx.types().bool;
                self.equate(scrut.span, b, expr_ty);
            },
            MatchSource::Match => {},
        }
        self.check_arm_pats(arms, expr_ty);
        // special case when the match has no arms
        if arms.len() == 0 {
            return self.infcx.tcx.types().unit;
        }
        // otherwise, the type of the last arm's body is the expected type
        let n = arms.len() - 1;
        let expected_ty = self.check_expr(&arms[n].body);
        self.check_arm_bodies(arms, expected_ty, n);
        expected_ty
    }

    pub fn check_assign_expr(&mut self, expr: &ir::Expr, l: &ir::Expr, r: &ir::Expr) -> (t: Ty)
        requires
            old(self).wf(),
            expr.kind matches ExprKind::Assign(x, y) && *x == *l && *y == *r,
        ensures
            step(old(self), final(self)),
            final(self).has(t),
            (final(self)@, final(self).term(t)) == spec::check_expr_kind(
                old(self).globals(),
                old(self).interner,
                old(self)@,
                expr,
            ),
        decreases expr, 0nat,
    {
        broadcast use TyCtx::lemma_extends_auto;

        self.check_lvalue(l);
        let lty = self.check_expr(l);
        let rty = self.check_expr(r);
        self.equate(expr.span, lty, rty);
        rty
    }

    /// A block expression.
    pub fn check_block(&mut self, block: &ir::Block) -> (t: Ty)
        requires
            old(self).wf(),
        ensures
            step(old(self), final(self)),
            final(self).has(t),
            (final(self)@, final(self).term(t)) == spec::check_block(
                old(self).globals(),
                old(self).interner,
                old(self)@,
                block,
            ),
        decreases block, 1nat,
    {
        broadcast use TyCtx::lemma_extends_auto;

        if block.is_unsafe {
            let outer = self.unsafe_ctx;
            self.unsafe_ctx = true;
            let ty = self.check_block_inner(block);
            self.unsafe_ctx = outer;
            ty
        } else {
            self.check_block_inner(block)
        }
    }

    pub fn check_block_inner(&mut self, block: &ir::Block) -> (t: Ty)
        requires
            old(self).wf(),
        ensures
            step(old(self), final(self)),
            final(self).has(t),
            (final(self)@, final(self).term(t)) == spec::check_block_inner(
                old(self).globals(),
                old(self).interner,
                old(self)@,
                block,
            ),
        decreases block, 0nat,
    {
        broadcast use TyCtx::lemma_extends_auto;

        let ghost pre = *self;
        let ghost g = pre.globals();
        let mut i: usize = 0;
        while i < block.stmts.len()
            invariant
                i <= block.stmts.len(),
                step(&pre, self),
                g == pre.globals(),
                spec::check_stmts(g, pre.interner, pre@, block.stmts@, 0) == spec::check_stmts(
                    g,
                    pre.interner,
                    self@,
                    block.stmts@,
                    i as nat,
                ),
            decreases block.stmts.len() - i,
        {
            let ghost mid = *self;
            self.check_stmt(&block.stmts[i]);
            proof {
                self.infcx.tcx.lemma_extends_trans(&mid.infcx.tcx, &pre.infcx.tcx);
            }
            i += 1;
        }
        match &block.expr {
            Some(x) => self.check_expr(x),
            None => self.infcx.tcx.types().unit,
        }
    }

    /// The type of what a `let` binds.
    pub fn let_type(&mut self, l: &ir::Let) -> (t: Ty)
        requires
            old(self).wf(),
        ensures
            step(old(self), final(self)),
            final(self).has(t),
            (final(self)@, final(self).term(t)) == spec::let_type(old(self).globals(), old(self)@, l),
    {
        match &l.ty {
            Some(t) => self.ir_ty_to_ty(true, t),
            None => self.new_infer_var(l.span),
        }
    }

    /// Checks the initializer of a `let` against the type of what is bound.
    pub fn let_init(&mut self, l: &ir::Let, ty: Ty)
        requires
            old(self).wf(),
            old(self).has(ty),
        ensures
            step(old(self), final(self)),
            final(self)@ == spec::let_init(
                old(self).globals(),
                old(self).interner,
                old(self)@,
                l,
                old(self).term(ty),
            ),
        decreases l, 0nat,
    {
        let ghost pre = *self;
        match &l.init {
            Some(init) => {
                let init_ty = self.check_expr(init);
                let ghost s2 = *self;
                proof {
                    s2.infcx.tcx.lemma_extends(&pre.infcx.tcx, ty);
                }
                self.equate(init.span, ty, init_ty);
                proof {
                    self.infcx.tcx.lemma_extends_trans(&s2.infcx.tcx, &pre.infcx.tcx);
                }
            },
            None => {},
        }
    }

    /// A `let`: its pattern gets the type that was written, or a fresh
    /// variable, and the initializer has to be of that type.
    pub fn check_let(&mut self, stmt: &ir::Stmt, l: &ir::Let)
        requires
            old(self).wf(),
            stmt.kind matches StmtKind::Let(x) && x == *l,
        ensures
            step(old(self), final(self)),
            final(self)@ == spec::check_stmt(
                old(self).globals(),
                old(self).interner,
                old(self)@,
                stmt,
            ),
        decreases stmt, 0nat,
    {
        let ghost pre = *self;
        let ty = self.let_type(l);
        let ghost s1 = *self;
        self.let_init(l, ty);
        let ghost s3 = *self;
        proof {
            s3.infcx.tcx.lemma_extends(&s1.infcx.tcx, ty);
            s3.infcx.tcx.lemma_extends_trans(&s1.infcx.tcx, &pre.infcx.tcx);
        }
        let _ = self.check_pat(&l.pat, ty);
        proof {
            self.infcx.tcx.lemma_extends_trans(&s3.infcx.tcx, &pre.infcx.tcx);
        }
    }

    pub fn check_stmt(&mut self, stmt: &ir::Stmt)
        requires
            old(self).wf(),
        ensures
            step(old(self), final(self)),
            final(self)@ == spec::check_stmt(
                old(self).globals(),
                old(self).interner,
                old(self)@,
                stmt,
            ),
        decreases stmt, 1nat,
    {
        match &stmt.kind {
            StmtKind::Let(l) => {
                self.check_let(stmt, l);
            },
            StmtKind::Expr(x) => {
                let _ = self.check_expr(x);
            },
            StmtKind::Semi(x) => {
                let _ = self.check_expr(x);
            },
        }
    }
}

} // verus!
