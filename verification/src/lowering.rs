//! Typed-tree lowering: the resolved tree of a checked item, with the final
//! type of every node written into the node.

use crate::ast::UnaryOp;
use crate::fxmap::lookup;
use crate::index::{FieldIdx, VariantIdx};
use crate::ir;
use crate::ir::{DefKind, Res};
use crate::tir;
use crate::ty::adt::first_with_ctor;
use crate::ty::kind::{AdtId, Ty, TyCon};
use crate::ty::query::{first_adt_of, lemma_first_adt_range};
use crate::ty::store::TyCtx;
use crate::typeck::writeback::{first_adjustment, TypeckTables};
use vstd::prelude::*;

verus! {

/// The tree cannot be lowered: a node has no final type, or a type that
/// holds the error sentinel. Checking reports every cause of this, so a
/// tree that was checked without complaint is never refused.
#[derive(Debug, Clone, Copy, PartialEq, Eq, Structural)]
pub enum LoweringError {
    Unresolved,
}

/// The name that a path ends in; where the path has no segment, a name
/// without letters at the place of the path.
pub open spec fn path_ident(p: &ir::Path) -> crate::ast::Ident {
    if p.segments@.len() > 0 {
        p.segments@.last().ident
    } else {
        crate::ast::Ident { span: p.span, symbol: crate::index::Symbol(usize::MAX) }
    }
}

pub fn ident_of_path(p: &ir::Path, span: crate::span::Span) -> (i: crate::ast::Ident)
    ensures
        i == path_ident(p),
{
    let n = p.segments.len();
    if n > 0 {
        p.segments[n - 1].ident
    } else {
        crate::ast::Ident { span: p.span, symbol: crate::index::Symbol(usize::MAX) }
    }
}

/// The context of lowering: the store and the tables of the item.
pub struct IrLoweringCtx<'a> {
    pub tcx: &'a TyCtx,
    pub tables: &'a TypeckTables,
}

impl<'a> IrLoweringCtx<'a> {
    /// The type of a node: the type that a conversion gives it, else the
    /// type that was recorded. Nothing for a node without a type, and for a
    /// type that is no type of the store or holds the error sentinel.
    pub open spec fn spec_node_type(&self, id: ir::Id) -> Option<Ty> {
        let found = match first_adjustment(self.tables.adjustments@, id.local.0, 0) {
            Some(a) => Some(a.ty),
            None => match lookup(self.tables.node_types@, id.local.0) {
                Some(h) => Some(Ty(h)),
                None => None,
            },
        };
        match found {
            Some(t) => if self.tcx.has(t) && !self.tcx.term(t).has_error() {
                Some(t)
            } else {
                None
            },
            None => None,
        }
    }

    /// The descriptor and the variant that a node of a struct or enum type
    /// stands for: the variant that the constructor of the path makes, the
    /// only variant where the path names no constructor.
    pub open spec fn spec_variant(&self, id: ir::Id, res: Res) -> Option<(AdtId, VariantIdx)> {
        match self.spec_node_type(id) {
            Some(t) => match self.tcx.term(t).con {
                TyCon::Adt(a) => if a.0 < self.tcx.spec_adts().len() {
                    match res {
                        Res::Def(def, DefKind::Ctor(_)) => match first_with_ctor(
                            self.tcx.spec_adts()[a.0 as int].variants@,
                            def,
                            0,
                        ) {
                            Some(i) => Some((a, VariantIdx(i as usize))),
                            None => None,
                        },
                        _ => Some((a, VariantIdx(0))),
                    }
                } else {
                    None
                },
                _ => None,
            },
            None => None,
        }
    }

    pub open spec fn spec_field_index(&self, id: ir::Id) -> Option<usize> {
        lookup(self.tables.field_indices@, id.local.0)
    }

    /// Whether an expression can be lowered.
    pub open spec fn expr_ok(&self, e: &ir::Expr) -> bool
        decreases e, 0nat,
    {
        &&& self.spec_node_type(e.id) is Some
        &&& match &e.kind {
            ir::ExprKind::Lit(_) => true,
            ir::ExprKind::Bin(_, l, r) => self.expr_ok(&**l) && self.expr_ok(&**r),
            ir::ExprKind::Unary(_, x) => self.expr_ok(&**x),
            ir::ExprKind::Block(b) => self.block_ok(&**b),
            ir::ExprKind::Path(p) => p.res is Local || p.res is Def,
            ir::ExprKind::Tuple(xs) => self.exprs_ok(xs@, 0),
            ir::ExprKind::Closure(_, body) => self.body_ok(&**body),
            ir::ExprKind::Assign(l, r) => self.expr_ok(&**l) && self.expr_ok(&**r),
            ir::ExprKind::Call(f, args) => self.expr_ok(&**f) && self.exprs_ok(args@, 0),
            ir::ExprKind::Match(s, arms, _) => self.expr_ok(&**s) && self.arms_ok(arms@, 0),
            ir::ExprKind::Struct(path, fields) => self.spec_variant(e.id, path.res) is Some
                && self.fields_ok(fields@, 0),
            ir::ExprKind::Ret(opt) => match opt {
                Some(x) => self.expr_ok(&**x),
                None => true,
            },
            ir::ExprKind::Field(base, _) => self.expr_ok(&**base) && self.spec_field_index(e.id) is Some,
            ir::ExprKind::Box(x) => self.expr_ok(&**x),
            ir::ExprKind::Error => false,
        }
    }

    pub open spec fn exprs_ok(&self, es: Seq<ir::Expr>, i: nat) -> bool
        decreases es, es.len() - i,
    {
        i >= es.len() || (self.expr_ok(&es[i as int]) && self.exprs_ok(es, i + 1))
    }

    pub open spec fn fields_ok(&self, fs: Seq<ir::Field>, i: nat) -> bool
        decreases fs, fs.len() - i,
    {
        i >= fs.len() || (self.spec_field_index(fs[i as int].id) is Some && self.expr_ok(
            &fs[i as int].expr,
        ) && self.fields_ok(fs, i + 1))
    }

    pub open spec fn arms_ok(&self, arms: Seq<ir::Arm>, i: nat) -> bool
        decreases arms, arms.len() - i,
    {
        i >= arms.len() || (self.pat_ok(&arms[i as int].pat) && self.expr_ok(&arms[i as int].body)
            && self.arms_ok(arms, i + 1))
    }

    pub open spec fn block_ok(&self, b: &ir::Block) -> bool
        decreases b, 0nat,
    {
        &&& self.stmts_ok(b.stmts@, 0)
        &&& match &b.expr {
            Some(x) => self.expr_ok(x),
            None => true,
        }
    }

    pub open spec fn stmts_ok(&self, ss: Seq<ir::Stmt>, i: nat) -> bool
        decreases ss, ss.len() - i,
    {
        i >= ss.len() || (self.stmt_ok(&ss[i as int]) && self.stmts_ok(ss, i + 1))
    }

    pub open spec fn stmt_ok(&self, s: &ir::Stmt) -> bool
        decreases s, 0nat,
    {
        match &s.kind {
            ir::StmtKind::Let(l) => self.pat_ok(&l.pat) && match &l.init {
                Some(x) => self.expr_ok(x),
                None => true,
            },
            ir::StmtKind::Expr(x) => self.expr_ok(x),
            ir::StmtKind::Semi(x) => self.expr_ok(x),
        }
    }

    pub open spec fn body_ok(&self, body: &ir::Body) -> bool
        decreases body, 0nat,
    {
        self.params_ok(body.params@, 0) && self.expr_ok(&body.expr)
    }

    pub open spec fn params_ok(&self, ps: Seq<ir::Param>, i: nat) -> bool
        decreases ps, ps.len() - i,
    {
        i >= ps.len() || (self.pat_ok(&ps[i as int].pat) && self.params_ok(ps, i + 1))
    }

    /// Whether a pattern can be lowered.
    pub open spec fn pat_ok(&self, p: &ir::Pattern) -> bool
        decreases p, 0nat,
    {
        &&& self.spec_node_type(p.id) is Some
        &&& match &p.kind {
            ir::PatternKind::Wildcard => true,
            ir::PatternKind::Binding(_, _) => true,
            ir::PatternKind::Tuple(ps) => self.pats_ok(ps@, 0),
            ir::PatternKind::Lit(e) => self.expr_ok(&**e),
            ir::PatternKind::Variant(path, ps) => self.spec_variant(p.id, path.res) is Some
                && self.pats_ok(ps@, 0),
            ir::PatternKind::Struct(_, fps) => self.field_pats_ok(fps@, 0),
        }
    }

    pub open spec fn pats_ok(&self, ps: Seq<ir::Pattern>, i: nat) -> bool
        decreases ps, ps.len() - i,
    {
        i >= ps.len() || (self.pat_ok(&ps[i as int]) && self.pats_ok(ps, i + 1))
    }

    pub open spec fn field_pats_ok(&self, fps: Seq<ir::FieldPat>, i: nat) -> bool
        decreases fps, fps.len() - i,
    {
        i >= fps.len() || (self.spec_field_index(fps[i as int].id) is Some && self.pat_ok(
            &fps[i as int].pat,
        ) && self.field_pats_ok(fps, i + 1))
    }

    /// Whether a typed expression is what lowering makes of an expression:
    /// the same tree, node for node, each node with its span and its final
    /// type.
    pub open spec fn lowered(&self, e: &ir::Expr, x: &tir::Expr) -> bool
        decreases e, 0nat,
    {
        &&& x.span == e.span
        &&& Some(x.ty) == self.spec_node_type(e.id)
        &&& match &e.kind {
            ir::ExprKind::Lit(l) => x.kind == tir::ExprKind::Lit(*l),
            ir::ExprKind::Bin(op, l, r) => x.kind matches tir::ExprKind::Bin(o, a, b) && o == *op
                && self.lowered(&**l, &*a) && self.lowered(&**r, &*b),
            ir::ExprKind::Unary(op, y) => match op {
                UnaryOp::Deref => x.kind matches tir::ExprKind::Deref(a) && self.lowered(&**y, &*a),
                UnaryOp::Ref => x.kind matches tir::ExprKind::Ref(a) && self.lowered(&**y, &*a),
                _ => x.kind matches tir::ExprKind::Unary(o, a) && o == *op && self.lowered(
                    &**y,
                    &*a,
                ),
            },
            ir::ExprKind::Block(b) => x.kind matches tir::ExprKind::Block(c) && self.block_lowered(
                &**b,
                &*c,
            ),
            ir::ExprKind::Path(p) => match p.res {
                Res::Local(id) => x.kind == tir::ExprKind::VarRef(id, path_ident(p)),
                Res::Def(def, _) => x.kind == tir::ExprKind::ItemRef(def),
                _ => false,
            },
            ir::ExprKind::Tuple(xs) => x.kind matches tir::ExprKind::Tuple(ys) && self.all_lowered(
                xs@,
                ys@,
            ),
            ir::ExprKind::Closure(_, body) => x.kind matches tir::ExprKind::Closure(b)
                && self.body_lowered(&**body, &*b),
            ir::ExprKind::Assign(l, r) => x.kind matches tir::ExprKind::Assign(a, b) && self.lowered(
                &**l,
                &*a,
            ) && self.lowered(&**r, &*b),
            ir::ExprKind::Call(f, args) => x.kind matches tir::ExprKind::Call(g, ys) && self.lowered(
                &**f,
                &*g,
            ) && self.all_lowered(args@, ys@),
            ir::ExprKind::Match(s, arms, _) => x.kind matches tir::ExprKind::Match(t, ys)
                && self.lowered(&**s, &*t) && self.arms_lowered(arms@, ys@),
            ir::ExprKind::Struct(path, fields) => x.kind matches tir::ExprKind::Adt(a, v, ys)
                && Some((a, v)) == self.spec_variant(e.id, path.res) && self.fields_lowered(
                fields@,
                ys@,
            ),
            ir::ExprKind::Ret(opt) => x.kind matches tir::ExprKind::Ret(o) && match opt {
                Some(y) => o matches Some(a) && self.lowered(&**y, &*a),
                None => o is None,
            },
            ir::ExprKind::Field(base, _) => x.kind matches tir::ExprKind::Field(a, i) && Some(i.0)
                == self.spec_field_index(e.id) && self.lowered(&**base, &*a),
            ir::ExprKind::Box(y) => x.kind matches tir::ExprKind::Box(a) && self.lowered(&**y, &*a),
            ir::ExprKind::Error => false,
        }
    }

    pub open spec fn all_lowered(&self, es: Seq<ir::Expr>, xs: Seq<tir::Expr>) -> bool
        decreases es, 0nat,
    {
        &&& es.len() == xs.len()
        &&& forall|i: int| 0 <= i < es.len() ==> self.lowered(&es[i], &#[trigger] xs[i])
    }

    pub open spec fn fields_lowered(&self, fs: Seq<ir::Field>, xs: Seq<tir::Field>) -> bool
        decreases fs, 0nat,
    {
        &&& fs.len() == xs.len()
        &&& forall|i: int|
            0 <= i < fs.len() ==> Some((#[trigger] xs[i]).index.0) == self.spec_field_index(fs[i].id)
                && self.lowered(&fs[i].expr, &xs[i].expr)
    }

    pub open spec fn arms_lowered(&self, arms: Seq<ir::Arm>, xs: Seq<tir::Arm>) -> bool
        decreases arms, 0nat,
    {
        &&& arms.len() == xs.len()
        &&& forall|i: int|
            0 <= i < arms.len() ==> (#[trigger] xs[i]).span == arms[i].span && self.pat_lowered(
                &arms[i].pat,
                &xs[i].pat,
            ) && self.lowered(&arms[i].body, &xs[i].body)
    }

    pub open spec fn block_lowered(&self, b: &ir::Block, x: &tir::Block) -> bool
        decreases b, 0nat,
    {
        &&& x.id == b.id
        &&& x.span == b.span
        &&& b.stmts@.len() == x.stmts@.len()
        &&& forall|i: int|
            0 <= i < b.stmts@.len() ==> self.stmt_lowered(&b.stmts@[i], &#[trigger] x.stmts@[i])
        &&& match &b.expr {
            Some(e) => x.expr matches Some(y) && self.lowered(e, &y),
            None => x.expr is None,
        }
    }

    /// A statement with or without semicolon is an expression statement
    /// after checking: the difference matters no longer.
    pub open spec fn stmt_lowered(&self, s: &ir::Stmt, x: &tir::Stmt) -> bool
        decreases s, 0nat,
    {
        &&& x.id == s.id
        &&& x.span == s.span
        &&& match &s.kind {
            ir::StmtKind::Let(l) => x.kind matches tir::StmtKind::Let(m) && m.id == l.id
                && self.pat_lowered(&l.pat, &m.pat) && match &l.init {
                Some(e) => m.init matches Some(y) && self.lowered(e, &y),
                None => m.init is None,
            },
            ir::StmtKind::Expr(e) => x.kind matches tir::StmtKind::Expr(y) && self.lowered(e, &y),
            ir::StmtKind::Semi(e) => x.kind matches tir::StmtKind::Expr(y) && self.lowered(e, &y),
        }
    }

    pub open spec fn body_lowered(&self, body: &ir::Body, x: &tir::Body) -> bool
        decreases body, 0nat,
    {
        &&& body.params@.len() == x.params@.len()
        &&& forall|i: int|
            0 <= i < body.params@.len() ==> (#[trigger] x.params@[i]).id == body.params@[i].id
                && x.params@[i].span == body.params@[i].span && self.pat_lowered(
                &body.params@[i].pat,
                &x.params@[i].pat,
            )
        &&& self.lowered(&body.expr, &x.expr)
    }

    /// Whether a typed pattern is what lowering makes of a pattern. A tuple
    /// pattern and a struct pattern become patterns of fields: the elements
    /// of a tuple by position, the fields of a struct by the recorded
    /// position.
    pub open spec fn pat_lowered(&self, p: &ir::Pattern, x: &tir::Pattern) -> bool
        decreases p, 0nat,
    {
        &&& x.id == p.id
        &&& x.span == p.span
        &&& Some(x.ty) == self.spec_node_type(p.id)
        &&& match &p.kind {
            ir::PatternKind::Wildcard => x.kind is Wildcard,
            ir::PatternKind::Binding(ident, m) => x.kind == tir::PatternKind::Binding(*m, *ident),
            ir::PatternKind::Tuple(ps) => x.kind matches tir::PatternKind::Field(fs) && ps@.len()
                == fs@.len() && forall|i: int|
                0 <= i < ps@.len() ==> (#[trigger] fs@[i]).field == FieldIdx(i as usize)
                    && self.pat_lowered(&ps@[i], &fs@[i].pat),
            ir::PatternKind::Lit(e) => x.kind matches tir::PatternKind::Lit(y) && self.lowered(
                &**e,
                &*y,
            ),
            ir::PatternKind::Variant(path, ps) => x.kind matches tir::PatternKind::Variant(a, v, xs)
                && Some((a, v)) == self.spec_variant(p.id, path.res) && ps@.len() == xs@.len()
                && forall|i: int| 0 <= i < ps@.len() ==> self.pat_lowered(&ps@[i], &#[trigger] xs@[i]),
            ir::PatternKind::Struct(_, fps) => x.kind matches tir::PatternKind::Field(fs)
                && fps@.len() == fs@.len() && forall|i: int|
                0 <= i < fps@.len() ==> Some((#[trigger] fs@[i]).field.0) == self.spec_field_index(
                    fps@[i].id,
                ) && self.pat_lowered(&fps@[i].pat, &fs@[i].pat),
        }
    }
}

impl<'a> IrLoweringCtx<'a> {
    pub fn new(tcx: &'a TyCtx, tables: &'a TypeckTables) -> (ctx: IrLoweringCtx<'a>)
        ensures
            ctx.tcx == tcx,
            ctx.tables == tables,
    {
        IrLoweringCtx { tcx, tables }
    }

    /// The final type of a node.
    pub fn node_type(&self, id: ir::Id) -> (t: Option<Ty>)
        requires
            self.tcx.wf(),
        ensures
            t == self.spec_node_type(id),
    {
        let found = match self.tables.adjustment(id) {
            Some(a) => Some(a.ty),
            None => self.tables.node_type(id),
        };
        match found {
            Some(t) => {
                if self.tcx.contains(t) && !self.tcx.flags(t).has_error() {
                    Some(t)
                } else {
                    None
                }
            },
            None => None,
        }
    }

    /// The descriptor and the variant of a node of a struct or enum type.
    pub fn variant_of(&self, id: ir::Id, res: Res) -> (r: Option<(AdtId, VariantIdx)>)
        requires
            self.tcx.wf(),
        ensures
            r == self.spec_variant(id, res),
    {
        match self.node_type(id) {
            Some(t) => match self.tcx.con(t) {
                TyCon::Adt(a) => {
                    if a.0 < self.tcx.adt_count() {
                        match res {
                            Res::Def(def, DefKind::Ctor(_)) => {
                                let adt = self.tcx.adt(a);
                                match adt.variant_with_ctor(def) {
                                    Some(i) => Some((a, VariantIdx(i))),
                                    None => None,
                                }
                            },
                            _ => Some((a, VariantIdx(0))),
                        }
                    } else {
                        None
                    }
                },
                _ => None,
            },
            None => None,
        }
    }

    /// Lowers an expression.
    pub fn lower_expr(&self, e: &ir::Expr) -> (r: Result<tir::Expr, LoweringError>)
        requires
            self.tcx.wf(),
        ensures
            r is Ok <==> self.expr_ok(e),
            r matches Ok(x) ==> self.lowered(e, &x),
        decreases e, 1nat,
    {
        let ty = match self.node_type(e.id) {
            Some(t) => t,
            None => {
                return Err(LoweringError::Unresolved);
            },
        };
        let kind = match self.lower_expr_kind(e) {
            Ok(k) => k,
            Err(x) => {
                return Err(x);
            },
        };
        Ok(tir::Expr { span: e.span, kind, ty })
    }

    /// Lowers what an expression is made of.
    pub fn lower_expr_kind(&self, e: &ir::Expr) -> (r: Result<tir::ExprKind, LoweringError>)
        requires
            self.tcx.wf(),
        ensures
            self.spec_node_type(e.id) is Some ==> (r is Ok <==> self.expr_ok(e)),
            r matches Ok(k) ==> forall|ty: Ty|
                Some(ty) == self.spec_node_type(e.id) ==> #[trigger] self.lowered(
                    e,
                    &(tir::Expr { span: e.span, kind: k, ty }),
                ),
        decreases e, 0nat,
    {
        match &e.kind {
            ir::ExprKind::Lit(l) => Ok(tir::ExprKind::Lit(*l)),
            ir::ExprKind::Bin(op, l, r) => {
                let a = match self.lower_expr(&**l) {
                    Ok(a) => a,
                    Err(x) => {
                        return Err(x);
                    },
                };
                let b = match self.lower_expr(&**r) {
                    Ok(b) => b,
                    Err(x) => {
                        return Err(x);
                    },
                };
                Ok(tir::ExprKind::Bin(*op, Box::new(a), Box::new(b)))
            },
            ir::ExprKind::Unary(op, y) => {
                let a = match self.lower_expr(&**y) {
                    Ok(a) => a,
                    Err(x) => {
                        return Err(x);
                    },
                };
                match op {
                    UnaryOp::Deref => Ok(tir::ExprKind::Deref(Box::new(a))),
                    UnaryOp::Ref => Ok(tir::ExprKind::Ref(Box::new(a))),
                    _ => Ok(tir::ExprKind::Unary(*op, Box::new(a))),
                }
            },
            ir::ExprKind::Block(b) => {
                match self.lower_block(&**b) {
                    Ok(c) => Ok(tir::ExprKind::Block(Box::new(c))),
                    Err(x) => Err(x),
                }
            },
            ir::ExprKind::Path(p) => match p.res {
                Res::Local(id) => Ok(tir::ExprKind::VarRef(id, ident_of_path(p, e.span))),
                Res::Def(def, _) => Ok(tir::ExprKind::ItemRef(def)),
                _ => Err(LoweringError::Unresolved),
            },
            ir::ExprKind::Tuple(xs) => {
                match self.lower_exprs(xs) {
                    Ok(ys) => Ok(tir::ExprKind::Tuple(ys)),
                    Err(x) => Err(x),
                }
            },
            ir::ExprKind::Closure(_, body) => {
                match self.lower_body(&**body) {
                    Ok(b) => Ok(tir::ExprKind::Closure(Box::new(b))),
                    Err(x) => Err(x),
                }
            },
            ir::ExprKind::Assign(l, r) => {
                let a = match self.lower_expr(&**l) {
                    Ok(a) => a,
                    Err(x) => {
                        return Err(x);
                    },
                };
                let b = match self.lower_expr(&**r) {
                    Ok(b) => b,
                    Err(x) => {
                        return Err(x);
                    },
                };
                Ok(tir::ExprKind::Assign(Box::new(a), Box::new(b)))
            },
            ir::ExprKind::Call(f, args) => {
                let g = match self.lower_expr(&**f) {
                    Ok(g) => g,
                    Err(x) => {
                        return Err(x);
                    },
                };
                match self.lower_exprs(args) {
                    Ok(ys) => Ok(tir::ExprKind::Call(Box::new(g), ys)),
                    Err(x) => Err(x),
                }
            },
            ir::ExprKind::Match(s, arms, _) => {
                let t = match self.lower_expr(&**s) {
                    Ok(t) => t,
                    Err(x) => {
                        return Err(x);
                    },
                };
                match self.lower_arms(arms) {
                    Ok(ys) => Ok(tir::ExprKind::Match(Box::new(t), ys)),
                    Err(x) => Err(x),
                }
            },
            ir::ExprKind::Struct(path, fields) => {
                let (a, v) = match self.variant_of(e.id, path.res) {
                    Some(found) => found,
                    None => {
                        return Err(LoweringError::Unresolved);
                    },
                };
                match self.lower_fields(fields) {
                    Ok(ys) => Ok(tir::ExprKind::Adt(a, v, ys)),
                    Err(x) => Err(x),
                }
            },
            ir::ExprKind::Ret(opt) => match opt {
                Some(y) => {
                    match self.lower_expr(&**y) {
                        Ok(a) => Ok(tir::ExprKind::Ret(Some(Box::new(a)))),
                        Err(x) => Err(x),
                    }
                },
                None => Ok(tir::ExprKind::Ret(None)),
            },
            ir::ExprKind::Field(base, _) => {
                let a = match self.lower_expr(&**base) {
                    Ok(a) => a,
                    Err(x) => {
                        return Err(x);
                    },
                };
                match self.tables.field_index(e.id) {
                    Some(i) => Ok(tir::ExprKind::Field(Box::new(a), FieldIdx(i))),
                    None => Err(LoweringError::Unresolved),
                }
            },
            ir::ExprKind::Box(y) => {
                match self.lower_expr(&**y) {
                    Ok(a) => Ok(tir::ExprKind::Box(Box::new(a))),
                    Err(x) => Err(x),
                }
            },
            ir::ExprKind::Error => Err(LoweringError::Unresolved),
        }
    }

    /// Lowers a list of expressions.
    pub fn lower_exprs(&self, es: &Vec<ir::Expr>) -> (r: Result<Vec<tir::Expr>, LoweringError>)
        requires
            self.tcx.wf(),
        ensures
            r is Ok <==> self.exprs_ok(es@, 0),
            r matches Ok(xs) ==> self.all_lowered(es@, xs@),
        decreases es@, 1nat,
    {
        let mut xs: Vec<tir::Expr> = Vec::new();
        let mut i: usize = 0;
        while i < es.len()
            invariant
                i <= es.len(),
                xs@.len() == i,
                self.tcx.wf(),
                self.exprs_ok(es@, 0) == self.exprs_ok(es@, i as nat),
                forall|j: int| 0 <= j < i ==> self.lowered(&es@[j], &#[trigger] xs@[j]),
            decreases es.len() - i,
        {
            match self.lower_expr(&es[i]) {
                Ok(x) => {
                    xs.push(x);
                },
                Err(x) => {
                    return Err(x);
                },
            }
            i += 1;
        }
        Ok(xs)
    }

    /// Lowers the fields of a struct expression: each with the position of
    /// the field that it sets.
    pub fn lower_fields(&self, fs: &Vec<ir::Field>) -> (r: Result<Vec<tir::Field>, LoweringError>)
        requires
            self.tcx.wf(),
        ensures
            r is Ok <==> self.fields_ok(fs@, 0),
            r matches Ok(xs) ==> self.fields_lowered(fs@, xs@),
        decreases fs@, 1nat,
    {
        let mut xs: Vec<tir::Field> = Vec::new();
        let mut i: usize = 0;
        while i < fs.len()
            invariant
                i <= fs.len(),
                xs@.len() == i,
                self.tcx.wf(),
                self.fields_ok(fs@, 0) == self.fields_ok(fs@, i as nat),
                forall|j: int|
                    0 <= j < i ==> Some((#[trigger] xs@[j]).index.0) == self.spec_field_index(
                        fs@[j].id,
                    ) && self.lowered(&fs@[j].expr, &xs@[j].expr),
            decreases fs.len() - i,
        {
            let index = match self.tables.field_index(fs[i].id) {
                Some(k) => k,
                None => {
                    return Err(LoweringError::Unresolved);
                },
            };
            match self.lower_expr(&fs[i].expr) {
                Ok(x) => {
                    xs.push(tir::Field { index: FieldIdx(index), expr: x });
                },
                Err(x) => {
                    return Err(x);
                },
            }
            i += 1;
        }
        Ok(xs)
    }

    pub fn lower_arms(&self, arms: &Vec<ir::Arm>) -> (r: Result<Vec<tir::Arm>, LoweringError>)
        requires
            self.tcx.wf(),
        ensures
            r is Ok <==> self.arms_ok(arms@, 0),
            r matches Ok(xs) ==> self.arms_lowered(arms@, xs@),
        decreases arms@, 1nat,
    {
        let mut xs: Vec<tir::Arm> = Vec::new();
        let mut i: usize = 0;
        while i < arms.len()
            invariant
                i <= arms.len(),
                xs@.len() == i,
                self.tcx.wf(),
                self.arms_ok(arms@, 0) == self.arms_ok(arms@, i as nat),
                forall|j: int|
                    0 <= j < i ==> (#[trigger] xs@[j]).span == arms@[j].span && self.pat_lowered(
                        &arms@[j].pat,
                        &xs@[j].pat,
                    ) && self.lowered(&arms@[j].body, &xs@[j].body),
            decreases arms.len() - i,
        {
            let pat = match self.lower_pattern(&arms[i].pat) {
                Ok(p) => p,
                Err(x) => {
                    return Err(x);
                },
            };
            match self.lower_expr(&arms[i].body) {
                Ok(body) => {
                    xs.push(tir::Arm { span: arms[i].span, pat, body });
                },
                Err(x) => {
                    return Err(x);
                },
            }
            i += 1;
        }
        Ok(xs)
    }

    pub fn lower_block(&self, b: &ir::Block) -> (r: Result<tir::Block, LoweringError>)
        requires
            self.tcx.wf(),
        ensures
            r is Ok <==> self.block_ok(b),
            r matches Ok(x) ==> self.block_lowered(b, &x),
        decreases b, 0nat,
    {
        let mut stmts: Vec<tir::Stmt> = Vec::new();
        let mut i: usize = 0;
        while i < b.stmts.len()
            invariant
                i <= b.stmts.len(),
                stmts@.len() == i,
                self.tcx.wf(),
                self.stmts_ok(b.stmts@, 0) == self.stmts_ok(b.stmts@, i as nat),
                forall|j: int|
                    0 <= j < i ==> self.stmt_lowered(&b.stmts@[j], &#[trigger] stmts@[j]),
            decreases b.stmts.len() - i,
        {
            match self.lower_stmt(&b.stmts[i]) {
                Ok(x) => {
                    stmts.push(x);
                },
                Err(x) => {
                    return Err(x);
                },
            }
            i += 1;
        }
        let expr = match &b.expr {
            Some(e) => match self.lower_expr(e) {
                Ok(x) => Some(x),
                Err(x) => {
                    return Err(x);
                },
            },
            None => None,
        };
        Ok(tir::Block { id: b.id, span: b.span, stmts, expr })
    }

    pub fn lower_stmt(&self, s: &ir::Stmt) -> (r: Result<tir::Stmt, LoweringError>)
        requires
            self.tcx.wf(),
        ensures
            r is Ok <==> self.stmt_ok(s),
            r matches Ok(x) ==> self.stmt_lowered(s, &x),
        decreases s, 0nat,
    {
        let kind = match &s.kind {
            ir::StmtKind::Let(l) => {
                let pat = match self.lower_pattern(&l.pat) {
                    Ok(p) => p,
                    Err(x) => {
                        return Err(x);
                    },
                };
                let init = match &l.init {
                    Some(e) => match self.lower_expr(e) {
                        Ok(x) => Some(x),
                        Err(x) => {
                            return Err(x);
                        },
                    },
                    None => None,
                };
                tir::StmtKind::Let(tir::Let { id: l.id, pat, init })
            },
            // both kinds of expression statement become the same: their
            // difference matters no longer once checking is done
            ir::StmtKind::Expr(e) => match self.lower_expr(e) {
                Ok(x) => tir::StmtKind::Expr(x),
                Err(x) => {
                    return Err(x);
                },
            },
            ir::StmtKind::Semi(e) => match self.lower_expr(e) {
                Ok(x) => tir::StmtKind::Expr(x),
                Err(x) => {
                    return Err(x);
                },
            },
        };
        Ok(tir::Stmt { id: s.id, span: s.span, kind })
    }

    /// Lowers a body: the patterns of its parameters and its expression.
    pub fn lower_body(&self, body: &ir::Body) -> (r: Result<tir::Body, LoweringError>)
        requires
            self.tcx.wf(),
        ensures
            r is Ok <==> self.body_ok(body),
            r matches Ok(x) ==> self.body_lowered(body, &x),
        decreases body, 0nat,
    {
        let mut params: Vec<tir::Param> = Vec::new();
        let mut i: usize = 0;
        while i < body.params.len()
            invariant
                i <= body.params.len(),
                params@.len() == i,
                self.tcx.wf(),
                self.params_ok(body.params@, 0) == self.params_ok(body.params@, i as nat),
                forall|j: int|
                    0 <= j < i ==> (#[trigger] params@[j]).id == body.params@[j].id
                        && params@[j].span == body.params@[j].span && self.pat_lowered(
                        &body.params@[j].pat,
                        &params@[j].pat,
                    ),
            decreases body.params.len() - i,
        {
            let p = &body.params[i];
            match self.lower_pattern(&p.pat) {
                Ok(pat) => {
                    params.push(tir::Param { id: p.id, span: p.span, pat });
                },
                Err(x) => {
                    return Err(x);
                },
            }
            i += 1;
        }
        match self.lower_expr(&body.expr) {
            Ok(expr) => Ok(tir::Body { params, expr }),
            Err(x) => Err(x),
        }
    }

    /// Lowers a pattern.
    pub fn lower_pattern(&self, p: &ir::Pattern) -> (r: Result<tir::Pattern, LoweringError>)
        requires
            self.tcx.wf(),
        ensures
            r is Ok <==> self.pat_ok(p),
            r matches Ok(x) ==> self.pat_lowered(p, &x),
        decreases p, 0nat,
    {
        let ty = match self.node_type(p.id) {
            Some(t) => t,
            None => {
                return Err(LoweringError::Unresolved);
            },
        };
        let kind = match &p.kind {
            ir::PatternKind::Wildcard => tir::PatternKind::Wildcard,
            ir::PatternKind::Binding(ident, m) => tir::PatternKind::Binding(*m, *ident),
            ir::PatternKind::Tuple(ps) => match self.lower_tuple_subpats(ps) {
                Ok(fs) => tir::PatternKind::Field(fs),
                Err(x) => {
                    return Err(x);
                },
            },
            ir::PatternKind::Lit(e) => match self.lower_expr(&**e) {
                Ok(y) => tir::PatternKind::Lit(Box::new(y)),
                Err(x) => {
                    return Err(x);
                },
            },
            ir::PatternKind::Variant(path, ps) => {
                let (a, v) = match self.variant_of(p.id, path.res) {
                    Some(found) => found,
                    None => {
                        return Err(LoweringError::Unresolved);
                    },
                };
                match self.lower_patterns(ps) {
                    Ok(xs) => tir::PatternKind::Variant(a, v, xs),
                    Err(x) => {
                        return Err(x);
                    },
                }
            },
            ir::PatternKind::Struct(_, fps) => match self.lower_field_pats(fps) {
                Ok(fs) => tir::PatternKind::Field(fs),
                Err(x) => {
                    return Err(x);
                },
            },
        };
        Ok(tir::Pattern { id: p.id, span: p.span, kind, ty })
    }

    pub fn lower_patterns(&self, ps: &Vec<ir::Pattern>) -> (r: Result<Vec<tir::Pattern>, LoweringError>)
        requires
            self.tcx.wf(),
        ensures
            r is Ok <==> self.pats_ok(ps@, 0),
            r matches Ok(xs) ==> ps@.len() == xs@.len() && forall|i: int|
                0 <= i < ps@.len() ==> self.pat_lowered(&ps@[i], &#[trigger] xs@[i]),
        decreases ps@, 1nat,
    {
        let mut xs: Vec<tir::Pattern> = Vec::new();
        let mut i: usize = 0;
        while i < ps.len()
            invariant
                i <= ps.len(),
                xs@.len() == i,
                self.tcx.wf(),
                self.pats_ok(ps@, 0) == self.pats_ok(ps@, i as nat),
                forall|j: int| 0 <= j < i ==> self.pat_lowered(&ps@[j], &#[trigger] xs@[j]),
            decreases ps.len() - i,
        {
            match self.lower_pattern(&ps[i]) {
                Ok(x) => {
                    xs.push(x);
                },
                Err(x) => {
                    return Err(x);
                },
            }
            i += 1;
        }
        Ok(xs)
    }

    /// Lowers the elements of a tuple pattern: each is the pattern of the
    /// field at its position.
    pub fn lower_tuple_subpats(&self, ps: &Vec<ir::Pattern>) -> (r: Result<
        Vec<tir::FieldPat>,
        LoweringError,
    >)
        requires
            self.tcx.wf(),
        ensures
            r is Ok <==> self.pats_ok(ps@, 0),
            r matches Ok(fs) ==> ps@.len() == fs@.len() && forall|i: int|
                0 <= i < ps@.len() ==> (#[trigger] fs@[i]).field == FieldIdx(i as usize)
                    && self.pat_lowered(&ps@[i], &fs@[i].pat),
        decreases ps@, 1nat,
    {
        let mut fs: Vec<tir::FieldPat> = Vec::new();
        let mut i: usize = 0;
        while i < ps.len()
            invariant
                i <= ps.len(),
                fs@.len() == i,
                self.tcx.wf(),
                self.pats_ok(ps@, 0) == self.pats_ok(ps@, i as nat),
                forall|j: int|
                    0 <= j < i ==> (#[trigger] fs@[j]).field == FieldIdx(j as usize)
                        && self.pat_lowered(&ps@[j], &fs@[j].pat),
            decreases ps.len() - i,
        {
            match self.lower_pattern(&ps[i]) {
                Ok(pat) => {
                    fs.push(tir::FieldPat { field: FieldIdx(i), pat });
                },
                Err(x) => {
                    return Err(x);
                },
            }
            i += 1;
        }
        Ok(fs)
    }

    /// Lowers the field patterns of a struct pattern: each with the
    /// recorded position of its field.
    pub fn lower_field_pats(&self, fps: &Vec<ir::FieldPat>) -> (r: Result<
        Vec<tir::FieldPat>,
        LoweringError,
    >)
        requires
            self.tcx.wf(),
        ensures
            r is Ok <==> self.field_pats_ok(fps@, 0),
            r matches Ok(fs) ==> fps@.len() == fs@.len() && forall|i: int|
                0 <= i < fps@.len() ==> Some((#[trigger] fs@[i]).field.0) == self.spec_field_index(
                    fps@[i].id,
                ) && self.pat_lowered(&fps@[i].pat, &fs@[i].pat),
        decreases fps@, 1nat,
    {
        let mut fs: Vec<tir::FieldPat> = Vec::new();
        let mut i: usize = 0;
        while i < fps.len()
            invariant
                i <= fps.len(),
                fs@.len() == i,
                self.tcx.wf(),
                self.field_pats_ok(fps@, 0) == self.field_pats_ok(fps@, i as nat),
                forall|j: int|
                    0 <= j < i ==> Some((#[trigger] fs@[j]).field.0) == self.spec_field_index(
                        fps@[j].id,
                    ) && self.pat_lowered(&fps@[j].pat, &fs@[j].pat),
            decreases fps.len() - i,
        {
            let field = match self.tables.field_index(fps[i].id) {
                Some(k) => k,
                None => {
                    return Err(LoweringError::Unresolved);
                },
            };
            match self.lower_pattern(&fps[i].pat) {
                Ok(pat) => {
                    fs.push(tir::FieldPat { field: FieldIdx(field), pat });
                },
                Err(x) => {
                    return Err(x);
                },
            }
            i += 1;
        }
        Ok(fs)
    }
}

impl<'a> IrLoweringCtx<'a> {
    /// The parameter types and the result type of a function, as its
    /// recorded signature gives them.
    pub open spec fn spec_sig(&self, def: crate::index::DefId) -> Option<(Seq<Ty>, Ty)> {
        match lookup(self.tcx.sigs(), def.0) {
            Some(h) => {
                let n = self.tcx.nodes()[h as int];
                if n.con == TyCon::Fn && n.args.len() >= 1 {
                    Some((n.args.drop_last(), n.args.last()))
                } else {
                    None
                }
            },
            None => None,
        }
    }

    /// Whether an item can be lowered: a function has a signature and a
    /// body that can be lowered, a struct and an enum have a descriptor.
    pub open spec fn item_ok(&self, item: &ir::Item) -> bool {
        match &item.kind {
            ir::ItemKind::Fn(_, _, body) => self.spec_sig(item.id.def) is Some && self.body_ok(body),
            _ => first_adt_of(self.tcx.spec_adts(), item.id.def, 0) is Some,
        }
    }

    /// Whether a typed item is what lowering makes of an item.
    pub open spec fn item_lowered(&self, item: &ir::Item, x: &tir::Item) -> bool {
        &&& x.span == item.span
        &&& x.id == item.id
        &&& x.ident == item.ident
        &&& x.vis == item.vis
        &&& match (&item.kind, &x.kind) {
            (ir::ItemKind::Fn(_, _, body), tir::ItemKind::Fn(sig, typed)) => {
                &&& self.spec_sig(item.id.def) == Some((sig.inputs@, sig.output))
                &&& self.body_lowered(body, typed)
            },
            (ir::ItemKind::Struct(_, _), tir::ItemKind::Struct(a)) => first_adt_of(
                self.tcx.spec_adts(),
                item.id.def,
                0,
            ) == Some(a.0 as int),
            (ir::ItemKind::Enum(_, _), tir::ItemKind::Enum(a)) => first_adt_of(
                self.tcx.spec_adts(),
                item.id.def,
                0,
            ) == Some(a.0 as int),
            _ => false,
        }
    }

    /// The recorded signature of a function, in its parts.
    pub fn sig_of(&self, def: crate::index::DefId) -> (r: Option<tir::FnSig>)
        requires
            self.tcx.wf(),
        ensures
            r is Some <==> self.spec_sig(def) is Some,
            r matches Some(sig) ==> self.spec_sig(def) == Some((sig.inputs@, sig.output)),
    {
        match self.tcx.fn_sig(def) {
            Some(s) => {
                let is_fn = match self.tcx.con(s) {
                    TyCon::Fn => true,
                    _ => false,
                };
                let mut inputs = crate::ty::store::copy_tys(self.tcx.args(s));
                if is_fn && inputs.len() >= 1 {
                    let ghost all = inputs@;
                    let output = inputs.pop().unwrap();
                    proof {
                        assert(inputs@ =~= all.drop_last());
                    }
                    Some(tir::FnSig { inputs, output })
                } else {
                    None
                }
            },
            None => None,
        }
    }

    /// Lowers an item: a function with its signature and its body, a
    /// struct and an enum as the descriptor that was recorded for them.
    pub fn lower_item(&self, item: &ir::Item) -> (r: Result<tir::Item, LoweringError>)
        requires
            self.tcx.wf(),
        ensures
            r is Ok <==> self.item_ok(item),
            r matches Ok(x) ==> self.item_lowered(item, &x),
    {
        let kind = match &item.kind {
            ir::ItemKind::Fn(_, _, body) => {
                match self.sig_of(item.id.def) {
                    Some(sig) => match self.lower_body(body) {
                        Ok(typed) => tir::ItemKind::Fn(sig, typed),
                        Err(x) => {
                            return Err(x);
                        },
                    },
                    None => {
                        return Err(LoweringError::Unresolved);
                    },
                }
            },
            ir::ItemKind::Struct(_, _) => match self.tcx.adt_of_def(item.id.def) {
                Some(a) => tir::ItemKind::Struct(a),
                None => {
                    return Err(LoweringError::Unresolved);
                },
            },
            ir::ItemKind::Enum(_, _) => match self.tcx.adt_of_def(item.id.def) {
                Some(a) => tir::ItemKind::Enum(a),
                None => {
                    return Err(LoweringError::Unresolved);
                },
            },
        };
        Ok(tir::Item { span: item.span, id: item.id, ident: item.ident, vis: item.vis, kind })
    }
}

/// Lowers the body of a checked function into a typed body.
pub fn lower_body(tcx: &TyCtx, tables: &TypeckTables, body: &ir::Body) -> (r: Result<
    tir::Body,
    LoweringError,
>)
    requires
        tcx.wf(),
    ensures
        r is Ok <==> (IrLoweringCtx { tcx, tables }).body_ok(body),
        r matches Ok(x) ==> (IrLoweringCtx { tcx, tables }).body_lowered(body, &x),
{
    IrLoweringCtx::new(tcx, tables).lower_body(body)
}

} // verus!
