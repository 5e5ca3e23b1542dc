//! What the checker does, as functions on models.

use crate::ast::{BinOp, Lit, Mutability, UnaryOp};
use crate::index::{DefId, Symbol};
use crate::infer::fresh_vars;
use crate::infer::unify::equate_spec;
use crate::ir;
use crate::ir::{DefKind, ExprKind, MatchSource, PatternKind, PrimTy, Res, StmtKind};
use crate::span::Span;
use crate::symbol::Interner;
use crate::ty::adt::{AdtKind, CtorKind};
use crate::ty::kind::{ParamTy, TyCon};
use crate::ty::term::Term;
use crate::typeck::fcx::{AdjustmentKind, FnView};
use crate::typeck::view::{AdtView, ErrView, FieldView, Globals, VariantView};
use vstd::prelude::*;

verus! {

pub open spec fn ty_bool() -> Term {
    Term::leaf(TyCon::Bool)
}

pub open spec fn ty_int() -> Term {
    Term::leaf(TyCon::Int)
}

pub open spec fn ty_float() -> Term {
    Term::leaf(TyCon::Float)
}

pub open spec fn ty_char() -> Term {
    Term::leaf(TyCon::Char)
}

pub open spec fn ty_unit() -> Term {
    Term::leaf(TyCon::Tuple)
}

pub open spec fn ty_never() -> Term {
    Term::leaf(TyCon::Never)
}

pub open spec fn ty_err() -> Term {
    Term::leaf(TyCon::Error)
}

pub open spec fn fn_ptr(params: Seq<Term>, ret: Term) -> Term {
    Term { con: TyCon::Fn, args: params.push(ret) }
}

pub open spec fn tuple(ts: Seq<Term>) -> Term {
    Term { con: TyCon::Tuple, args: ts }
}

pub open spec fn unary(con: TyCon, t: Term) -> Term {
    Term { con, args: seq![t] }
}

pub open spec fn prim(p: PrimTy) -> Term {
    match p {
        PrimTy::Char => ty_char(),
        PrimTy::Bool => ty_bool(),
        PrimTy::Float => ty_float(),
        PrimTy::Int => ty_int(),
    }
}

/// The body of a scheme; a type that is no scheme is its own body.
pub open spec fn body_of(t: Term) -> Term {
    match t.con {
        TyCon::Scheme(_) => t.args[0],
        _ => t,
    }
}

/// The first field of a name.
pub open spec fn find_field(fields: Seq<FieldView>, name: Symbol, from: int) -> Option<int>
    decreases fields.len() - from,
{
    if from < 0 || from >= fields.len() {
        None
    } else if fields[from].ident.symbol == name {
        Some(from)
    } else {
        find_field(fields, name, from + 1)
    }
}

/// The last field of a name before a position.
pub open spec fn last_field(fields: Seq<FieldView>, name: Symbol, below: int) -> Option<int>
    decreases below,
{
    if below <= 0 {
        None
    } else if fields[below - 1].ident.symbol == name {
        Some(below - 1)
    } else {
        last_field(fields, name, below - 1)
    }
}

/// The first variant that a constructor makes.
pub open spec fn variant_with_ctor(variants: Seq<VariantView>, ctor: DefId, from: int) -> Option<int>
    decreases variants.len() - from,
{
    if from < 0 || from >= variants.len() {
        None
    } else if variants[from].ctor == Some(ctor) {
        Some(from)
    } else {
        variant_with_ctor(variants, ctor, from + 1)
    }
}

/// The types that a list of written types stands for, from position `i` on.
pub open spec fn conv_tys(g: Globals, v: FnView, allow_infer: bool, ts: Seq<ir::Ty>, i: nat) -> (
    FnView,
    Seq<Term>,
)
    decreases ts, ts.len() - i,
{
    if i >= ts.len() {
        (v, Seq::empty())
    } else {
        let (v1, t) = conv_ty(g, v, allow_infer, &ts[i as int]);
        let (v2, rest) = conv_tys(g, v1, allow_infer, ts, i + 1);
        (v2, seq![t] + rest)
    }
}

/// The type that a written type stands for. A type left to infer is a fresh
/// variable where inference is at hand, and an error where it is not.
pub open spec fn conv_ty(g: Globals, v: FnView, allow_infer: bool, t: &ir::Ty) -> (FnView, Term)
    decreases t, 0nat,
{
    match &t.kind {
        ir::TyKind::Error => (v, ty_err()),
        ir::TyKind::Box(x) => {
            let (v1, a) = conv_ty(g, v, allow_infer, &**x);
            (v1, unary(TyCon::Box, a))
        },
        ir::TyKind::Fn(params, ret) => {
            let (v1, ps) = conv_tys(g, v, allow_infer, params@, 0);
            let (v2, r) = match ret {
                Some(r) => conv_ty(g, v1, allow_infer, &**r),
                None => (v1, ty_unit()),
            };
            (v2, fn_ptr(ps, r))
        },
        ir::TyKind::Path(p) => conv_path(g, v, allow_infer, p),
        ir::TyKind::Tuple(ts) => {
            let (v1, ps) = conv_tys(g, v, allow_infer, ts@, 0);
            (v1, tuple(ps))
        },
        ir::TyKind::Ptr(x) => {
            let (v1, a) = conv_ty(g, v, allow_infer, &**x);
            (v1, unary(TyCon::Ptr, a))
        },
        ir::TyKind::Infer => if allow_infer {
            v.fresh(t.span)
        } else {
            (v.emit(t.span, ErrView::InferenceFailure), ty_err())
        },
    }
}

/// The type that a path stands for. A struct or an enum is its declared
/// type at the generic arguments of the path, or at its own parameters
/// where there are none; a wrong number of arguments is an error.
pub open spec fn conv_path(g: Globals, v: FnView, allow_infer: bool, path: &ir::Path) -> (FnView, Term)
    decreases path, 0nat,
{
    match path.res {
        Res::PrimTy(p) => (v, prim(p)),
        Res::Def(def, DefKind::TyParam(idx)) => (
            v,
            Term::leaf(TyCon::Param(ParamTy { def_id: def, idx })),
        ),
        Res::Def(def, DefKind::Struct) | Res::Def(def, DefKind::Enum) => {
            if !g.items.contains_key(def.0) || !g.generics.contains_key(def.0) {
                (v, ty_err())
            } else {
                let declared = body_of(g.items[def.0]);
                let own = g.generics[def.0].args;
                if path.segments@.len() > 0 && path.segments@.last().args is Some {
                    let args = path.segments@.last().args->Some_0.args@;
                    if args.len() != own.len() {
                        (
                            v.emit(
                                path.span,
                                ErrView::GenericArgCount(own.len() as usize, args.len() as usize),
                            ),
                            ty_err(),
                        )
                    } else {
                        let (v1, ss) = conv_tys(g, v, allow_infer, args, 0);
                        (v1, declared.subst(ss))
                    }
                } else {
                    (v, declared.subst(own))
                }
            }
        },
        Res::SelfTy(impl_def) => if g.items.contains_key(impl_def.0) {
            (v, g.items[impl_def.0])
        } else {
            (v, ty_err())
        },
        _ => (v, ty_err()),
    }
}

/// The type of a literal.
pub open spec fn check_lit(lit: Lit) -> Term {
    match lit {
        Lit::Bool(_) => ty_bool(),
        Lit::Float(_) => ty_float(),
        Lit::Int(_) => ty_int(),
    }
}

/// The type of a path in value position: the type of a local variable, the
/// declared type of an item with its parameters replaced by fresh
/// variables.
pub open spec fn check_expr_path(g: Globals, v: FnView, path: &ir::Path) -> (FnView, Term) {
    match path.res {
        Res::Local(id) => (v, v.local_ty(id)),
        Res::Def(def, kind) => match kind {
            DefKind::Fn | DefKind::AssocFn | DefKind::Enum | DefKind::Struct | DefKind::Ctor(_) => {
                if g.items.contains_key(def.0) {
                    v.instantiate(path.span, g.items[def.0])
                } else {
                    (v, ty_err())
                }
            },
            _ => (v, ty_err()),
        },
        Res::SelfVal(impl_def) => if g.items.contains_key(impl_def.0) {
            (v, g.items[impl_def.0])
        } else {
            (v, ty_err())
        },
        _ => (v, ty_err()),
    }
}

/// The variant that a struct path names, with the type of the struct: the
/// position of the type's descriptor and the position of the variant. The
/// path of a struct, and `Self` in an impl of one, name the one variant of
/// the struct; the path of a struct-like constructor names the variant that
/// the constructor makes.
pub open spec fn struct_variant(g: Globals, t: Term, res: Res) -> Option<(int, int)> {
    match t.con {
        TyCon::Adt(a) => if a.0 < g.adts.len() {
            match res {
                Res::Def(_, DefKind::Struct) => if g.adts[a.0 as int].variants.len() == 1 {
                    Some((a.0 as int, 0int))
                } else {
                    None
                },
                // `Self` in an impl of a struct: the one variant of the
                // type of the impl
                Res::SelfVal(_) => if g.adts[a.0 as int].variants.len() == 1 {
                    Some((a.0 as int, 0int))
                } else {
                    None
                },
                Res::Def(def, DefKind::Ctor(CtorKind::Struct)) => match variant_with_ctor(
                    g.adts[a.0 as int].variants,
                    def,
                    0,
                ) {
                    Some(i) => Some((a.0 as int, i)),
                    None => None,
                },
                _ => None,
            }
        } else {
            None
        },
        _ => None,
    }
}

/// Checks the path of a struct expression or pattern. A path that names no
/// struct is complained about.
pub open spec fn check_struct_path(g: Globals, v: FnView, path: &ir::Path) -> (
    FnView,
    Option<(int, int, Term)>,
) {
    let (v1, t) = check_expr_path(g, v, path);
    match struct_variant(g, t, path.res) {
        Some((a, i)) => (v1, Some((a, i, t))),
        None => (v1.emit(path.span, ErrView::ExpectedStructPath), None),
    }
}

/// A one-directional relaxation of `equate`: `never` becomes any type, a
/// function item becomes a pointer to a function of its signature. Each
/// conversion that succeeds is recorded for the node.
pub open spec fn coerce(g: Globals, v: FnView, id: ir::Id, span: Span, ty: Term, target: Term) -> FnView {
    if ty.has_error() || target.has_error() {
        v
    } else {
        let r = ty.apply(v.bindings);
        match (r.con, target.con) {
            (TyCon::Never, _) => v.adjust(id, target, AdjustmentKind::NeverToAny),
            (TyCon::FnDef(def), TyCon::Fn) => if g.sigs.contains_key(def.0) {
                let sig = g.sigs[def.0].subst(r.args);
                match equate_spec(v.bindings, sig, target) {
                    Some(nb) => FnView {
                        bindings: nb,
                        ..v.adjust(id, target, AdjustmentKind::ReifyFn)
                    },
                    None => v.emit(
                        span,
                        ErrView::Mismatch(sig.apply(v.bindings), target.apply(v.bindings)),
                    ),
                }
            } else {
                v.equate(span, r, target)
            },
            _ => v.equate(span, r, target),
        }
    }
}

/// So many fresh variables, one after the other.
pub open spec fn fresh_n(v: FnView, span: Span, n: nat) -> (FnView, Seq<Term>)
    decreases n,
{
    if n == 0 {
        (v, Seq::empty())
    } else {
        let (v1, ts) = fresh_n(v, span, (n - 1) as nat);
        let (v2, t) = v1.fresh(span);
        (v2, ts.push(t))
    }
}

/// Checks an expression: its type, recorded for its node.
pub open spec fn check_expr(g: Globals, names: &Interner, v: FnView, e: &ir::Expr) -> (FnView, Term)
    decreases e, 1nat,
{
    let (v1, t) = check_expr_kind(g, names, v, e);
    (v1.record_ty(e.id, t), t)
}

pub open spec fn check_expr_kind(g: Globals, names: &Interner, v: FnView, e: &ir::Expr) -> (
    FnView,
    Term,
)
    decreases e, 0nat,
{
    match &e.kind {
        ExprKind::Box(x) => {
            let (v1, t) = check_expr(g, names, v, &**x);
            (v1, unary(TyCon::Box, t))
        },
        ExprKind::Error => (v, ty_err()),
        ExprKind::Lit(lit) => (v, check_lit(*lit)),
        ExprKind::Bin(op, l, r) => {
            let (v1, tl) = check_expr(g, names, v, &**l);
            let (v2, tr) = check_expr(g, names, v1, &**r);
            check_binop(v2, *op, l.span, r.span, tl, tr)
        },
        ExprKind::Unary(op, x) => {
            let (v1, t) = check_expr(g, names, v, &**x);
            check_unary(v1, e.span, *op, t)
        },
        ExprKind::Block(b) => check_block(g, names, v, &**b),
        ExprKind::Path(p) => check_expr_path(g, v, p),
        ExprKind::Tuple(xs) => {
            let (v1, ts) = check_exprs(g, names, v, xs@, 0);
            (v1, tuple(ts))
        },
        ExprKind::Closure(sig, body) => {
            let (v1, params) = conv_tys(g, v, true, sig.inputs@, 0);
            let (v2, ret) = match &sig.output {
                Some(t) => conv_ty(g, v1, true, t),
                None => (v1, ty_unit()),
            };
            let ty = fn_ptr(params, ret);
            // the resolver resolved the closure's name to the closure
            // itself: it is a local variable of the closure's type
            let v3 = v2.def_local(e.id, Mutability::Imm, ty);
            (check_fn(g, names, v3, params, ret, &**body), ty)
        },
        ExprKind::Call(f, args) => {
            let (v1, ret) = v.fresh(e.span);
            let (v2, f_ty) = check_expr(g, names, v1, &**f);
            let (v3, params) = check_exprs(g, names, v2, args@, 0);
            // the conversion, if one is needed, is a conversion of the callee
            (coerce(g, v3, f.id, e.span, f_ty, fn_ptr(params, ret)), ret)
        },
        ExprKind::Match(scrut, arms, src) => {
            let (v1, st) = check_expr(g, names, v, &**scrut);
            let v2 = match src {
                MatchSource::If => v1.equate(scrut.span, ty_bool(), st),
                MatchSource::Match => v1,
            };
            // check that each arm pattern is of the type of the scrutinee
            let v3 = check_arm_pats(g, names, v2, arms@, st, 0);
            if arms@.len() == 0 {
                (v3, ty_unit())
            } else {
                // the type of the last arm's body is the expected type
                let n = (arms@.len() - 1) as nat;
                let (v4, expected) = check_expr(g, names, v3, &arms@[n as int].body);
                (check_arm_bodies(g, names, v4, arms@, expected, n, 0), expected)
            }
        },
        ExprKind::Struct(path, fields) => {
            let (v1, found) = check_struct_path(g, v, path);
            match found {
                None => (v1, ty_err()),
                Some((a, i, ty)) => (
                    check_struct_expr_fields(
                        g,
                        names,
                        v1,
                        e.span,
                        ty.args,
                        g.adts[a].variants[i],
                        fields@,
                    ),
                    ty,
                ),
            }
        },
        ExprKind::Assign(l, r) => {
            let v0 = if l.kind matches ExprKind::Path(p) && p.res is Local {
                v
            } else {
                v.emit(l.span, ErrView::ExpectedLvalue)
            };
            let (v1, lt) = check_expr(g, names, v0, &**l);
            let (v2, rt) = check_expr(g, names, v1, &**r);
            (v2.equate(e.span, lt, rt), rt)
        },
        ExprKind::Ret(opt) => {
            // a return has the type of nothing: control does not come back
            let (v1, t) = match opt {
                Some(x) => check_expr(g, names, v, &**x),
                None => (v, ty_unit()),
            };
            (v1.equate(e.span, v1.ret_ty, t), ty_never())
        },
        ExprKind::Field(base, ident) => {
            let (v1, bt) = check_expr(g, names, v, &**base);
            check_field(g, names, v1, e.id, e.span, bt, *ident)
        },
    }
}

/// The type of an operator application.
pub open spec fn check_binop(v: FnView, op: BinOp, lspan: Span, rspan: Span, tl: Term, tr: Term) -> (
    FnView,
    Term,
) {
    match op {
        BinOp::Mul | BinOp::Div | BinOp::Add | BinOp::Sub | BinOp::And | BinOp::Or => (
            v.equate(lspan, ty_int(), tl).equate(rspan, tl, tr),
            tl,
        ),
        BinOp::Lt | BinOp::Gt => (v.equate(lspan, ty_int(), tl).equate(rspan, tl, tr), ty_bool()),
        BinOp::Eq | BinOp::Neq => (v.equate(rspan, tl, tr), ty_bool()),
    }
}

pub open spec fn check_unary(v: FnView, span: Span, op: UnaryOp, t: Term) -> (FnView, Term) {
    match op {
        UnaryOp::Neg => (v.equate(span, ty_int(), t), ty_int()),
        UnaryOp::Not => (v.equate(span, ty_bool(), t), ty_bool()),
        UnaryOp::Deref => {
            let r = t.apply(v.bindings);
            if r.con == TyCon::Box && r.args.len() == 1 {
                (v, r.args[0])
            } else {
                let (v1, inner) = v.fresh(span);
                (v1.equate(span, unary(TyCon::Ptr, inner), t), inner)
            }
        },
        UnaryOp::Ref => {
            let v1 = if v.unsafe_ctx {
                v
            } else {
                v.emit(span, ErrView::RequireUnsafeCtx)
            };
            (v1, unary(TyCon::Ptr, t))
        },
    }
}

/// The type of a field of a value: a field of a struct by its name, an
/// element of a tuple by its position.
pub open spec fn check_field(
    g: Globals,
    names: &Interner,
    v: FnView,
    id: ir::Id,
    span: Span,
    base_ty: Term,
    ident: crate::ast::Ident,
) -> (FnView, Term) {
    let r = base_ty.apply(v.bindings);
    match r.con {
        TyCon::Adt(a) => if a.0 < g.adts.len() && !(g.adts[a.0 as int].kind is Enum)
            && g.adts[a.0 as int].variants.len() == 1 {
            let fields = g.adts[a.0 as int].variants[0].fields;
            match find_field(fields, ident.symbol, 0) {
                // the index belongs to the whole field expression, not
                // just to the identifier or the base
                Some(idx) => (v.record_field_index(id, idx as usize), fields[idx].ty.subst(r.args)),
                None => (v.emit(span, ErrView::UnknownField(base_ty, ident)), ty_err()),
            }
        } else {
            (v.emit(span, ErrView::BadFieldAccess(base_ty)), ty_err())
        },
        TyCon::Tuple => match names.spec_index_of(ident.symbol) {
            // `tuple.i` literally means the i'th element of the tuple
            Some(idx) => {
                let v1 = v.record_field_index(id, idx);
                if idx < r.args.len() {
                    (v1, r.args[idx as int])
                } else {
                    (
                        v1.emit(span, ErrView::TupleOutOfBounds(idx, r.args.len() as usize)),
                        ty_err(),
                    )
                }
            },
            None => (v.emit(span, ErrView::UnknownField(base_ty, ident)), ty_err()),
        },
        _ => (v.emit(span, ErrView::BadFieldAccess(base_ty)), ty_err()),
    }
}

/// The types of the expressions from position `i` on, checked from the
/// left.
pub open spec fn check_exprs(g: Globals, names: &Interner, v: FnView, es: Seq<ir::Expr>, i: nat) -> (
    FnView,
    Seq<Term>,
)
    decreases es, es.len() - i,
{
    if i >= es.len() {
        (v, Seq::empty())
    } else {
        let (v1, t) = check_expr(g, names, v, &es[i as int]);
        let (v2, rest) = check_exprs(g, names, v1, es, i + 1);
        (v2, seq![t] + rest)
    }
}

pub open spec fn check_arm_pats(
    g: Globals,
    names: &Interner,
    v: FnView,
    arms: Seq<ir::Arm>,
    ty: Term,
    i: nat,
) -> FnView
    decreases arms, arms.len() - i,
{
    if i >= arms.len() {
        v
    } else {
        check_arm_pats(g, names, check_pat(g, names, v, &arms[i as int].pat, ty).0, arms, ty, i + 1)
    }
}

/// The bodies of the arms before the last: each has to be of the expected
/// type.
pub open spec fn check_arm_bodies(
    g: Globals,
    names: &Interner,
    v: FnView,
    arms: Seq<ir::Arm>,
    expected: Term,
    n: nat,
    i: nat,
) -> FnView
    decreases arms, arms.len() - i,
{
    if i >= n || i >= arms.len() {
        v
    } else {
        let (v1, t) = check_expr(g, names, v, &arms[i as int].body);
        check_arm_bodies(
            g,
            names,
            v1.equate(arms[i as int].span, expected, t),
            arms,
            expected,
            n,
            i + 1,
        )
    }
}

/// The fields that a struct expression has to set: each name of the
/// variant, with the position of the last field of that name.
pub open spec fn fields_to_set(variant: VariantView, below: int) -> Map<usize, usize> {
    Map::new(
        |s: usize| last_field(variant.fields, Symbol(s), below) is Some,
        |s: usize| last_field(variant.fields, Symbol(s), below)->Some_0 as usize,
    )
}

/// The fields of a struct expression: each is checked in the order in which
/// it was written, and a field that is left out is complained about.
pub open spec fn check_struct_expr_fields(
    g: Globals,
    names: &Interner,
    v: FnView,
    span: Span,
    substs: Seq<Term>,
    variant: VariantView,
    fields: Seq<ir::Field>,
) -> FnView
    decreases fields, fields.len() + 1,
{
    let (v2, rest) = check_struct_fields(
        g,
        names,
        v,
        substs,
        variant,
        fields,
        fields_to_set(variant, variant.fields.len() as int),
        Map::empty(),
        0,
    );
    if rest.dom() == Set::<usize>::empty() {
        v2
    } else {
        v2.emit(span, ErrView::IncompleteFields)
    }
}

/// The fields of a struct expression from position `i` on. Every field is
/// checked against the declared type of the field it sets; a field that is
/// set twice, or that the struct does not have, is complained about. The
/// result holds the fields that are still to be set.
pub open spec fn check_struct_fields(
    g: Globals,
    names: &Interner,
    v: FnView,
    substs: Seq<Term>,
    variant: VariantView,
    fields: Seq<ir::Field>,
    remaining: Map<usize, usize>,
    seen: Map<usize, usize>,
    i: nat,
) -> (FnView, Map<usize, usize>)
    decreases fields, fields.len() - i,
{
    if i >= fields.len() {
        (v, remaining)
    } else {
        let field = &fields[i as int];
        let name = field.ident.symbol.0;
        let (v1, t) = check_expr(g, names, v, &field.expr);
        if remaining.contains_key(name) {
            let idx = remaining[name];
            let declared = if idx < variant.fields.len() {
                variant.fields[idx as int].ty.subst(substs)
            } else {
                ty_err()
            };
            check_struct_fields(
                g,
                names,
                v1.record_field_index(field.id, idx).equate(field.span, declared, t),
                substs,
                variant,
                fields,
                remaining.remove(name),
                seen.insert(name, i as usize),
                i + 1,
            )
        } else {
            let v2 = if seen.contains_key(name) && seen[name] < fields.len() {
                FnView {
                    errors: v1.errors.push(
                        crate::typeck::view::DiagView {
                            span: field.span,
                            related: Some(fields[seen[name] as int].span),
                            error: ErrView::FieldSetTwice(field.ident),
                        },
                    ),
                    ..v1
                }
            } else {
                v1.emit(field.span, ErrView::UnknownStructField(field.ident))
            };
            check_struct_fields(g, names, v2, substs, variant, fields, remaining, seen, i + 1)
        }
    }
}

/// Checks the body of a function in the context of its caller: the return
/// type and the safety of the caller are put back afterwards.
pub open spec fn check_fn(
    g: Globals,
    names: &Interner,
    v: FnView,
    params: Seq<Term>,
    ret: Term,
    body: &ir::Body,
) -> FnView
    decreases body, 1nat,
{
    let inner = check_body(g, names, FnView { ret_ty: ret, unsafe_ctx: false, ..v }, params, body);
    FnView { ret_ty: v.ret_ty, unsafe_ctx: v.unsafe_ctx, ..inner }
}

/// Checks a body: the patterns of the parameters against the parameter
/// types, the expression against the return type.
pub open spec fn check_body(g: Globals, names: &Interner, v: FnView, params: Seq<Term>, body: &ir::Body) -> FnView
    decreases body, 0nat,
{
    let v1 = check_params(g, names, v, body.params@, params, 0);
    let (v2, t) = check_expr(g, names, v1, &body.expr);
    // the type of the body is the return type, also where the body itself
    // diverges
    coerce(g, v2, body.expr.id, body.expr.span, t, v2.ret_ty).record_ty(body.expr.id, v2.ret_ty)
}

pub open spec fn check_params(
    g: Globals,
    names: &Interner,
    v: FnView,
    ps: Seq<ir::Param>,
    tys: Seq<Term>,
    i: nat,
) -> FnView
    decreases ps, ps.len() - i,
{
    if i >= ps.len() || i >= tys.len() {
        v
    } else {
        check_params(
            g,
            names,
            check_pat(g, names, v, &ps[i as int].pat, tys[i as int]).0,
            ps,
            tys,
            i + 1,
        )
    }
}

/// A block: inside an unsafe block the context is unsafe.
pub open spec fn check_block(g: Globals, names: &Interner, v: FnView, b: &ir::Block) -> (FnView, Term)
    decreases b, 1nat,
{
    if b.is_unsafe {
        let (v1, t) = check_block_inner(g, names, FnView { unsafe_ctx: true, ..v }, b);
        (FnView { unsafe_ctx: v.unsafe_ctx, ..v1 }, t)
    } else {
        check_block_inner(g, names, v, b)
    }
}

pub open spec fn check_block_inner(g: Globals, names: &Interner, v: FnView, b: &ir::Block) -> (
    FnView,
    Term,
)
    decreases b, 0nat,
{
    let v1 = check_stmts(g, names, v, b.stmts@, 0);
    match &b.expr {
        Some(x) => check_expr(g, names, v1, x),
        None => (v1, ty_unit()),
    }
}

pub open spec fn check_stmts(g: Globals, names: &Interner, v: FnView, stmts: Seq<ir::Stmt>, i: nat) -> FnView
    decreases stmts, stmts.len() - i,
{
    if i >= stmts.len() {
        v
    } else {
        check_stmts(g, names, check_stmt(g, names, v, &stmts[i as int]), stmts, i + 1)
    }
}

/// The type of what a `let` binds: the type that was written, or a fresh
/// variable.
pub open spec fn let_type(g: Globals, v: FnView, l: &ir::Let) -> (FnView, Term) {
    match &l.ty {
        Some(t) => conv_ty(g, v, true, t),
        None => v.fresh(l.span),
    }
}

/// The initializer of a `let` has to be of the type of what is bound.
pub open spec fn let_init(g: Globals, names: &Interner, v: FnView, l: &ir::Let, ty: Term) -> FnView
    decreases l, 0nat,
{
    match &l.init {
        Some(init) => {
            let (va, it) = check_expr(g, names, v, init);
            va.equate(init.span, ty, it)
        },
        None => v,
    }
}

/// A statement. A `let` gives its pattern the type that was written, or a
/// fresh variable, and the initializer has to be of that type.
pub open spec fn check_stmt(g: Globals, names: &Interner, v: FnView, stmt: &ir::Stmt) -> FnView
    decreases stmt, 0nat,
{
    match &stmt.kind {
        StmtKind::Let(l) => {
            let (v1, ty) = let_type(g, v, l);
            check_pat(g, names, let_init(g, names, v1, l, ty), &l.pat, ty).0
        },
        StmtKind::Expr(x) => check_expr(g, names, v, x).0,
        StmtKind::Semi(x) => check_expr(g, names, v, x).0,
    }
}

/// Checks a pattern against the type of what it is matched with: the type
/// of the pattern, recorded for its node.
pub open spec fn check_pat(g: Globals, names: &Interner, v: FnView, pat: &ir::Pattern, ty: Term) -> (
    FnView,
    Term,
)
    decreases pat, 1nat,
{
    let (v1, t) = check_pat_kind(g, names, v, pat, ty);
    (v1.record_ty(pat.id, t), t)
}

pub open spec fn check_pat_kind(g: Globals, names: &Interner, v: FnView, pat: &ir::Pattern, ty: Term) -> (
    FnView,
    Term,
)
    decreases pat, 0nat,
{
    match &pat.kind {
        PatternKind::Wildcard => (v, ty),
        PatternKind::Binding(_, m) => (v.def_local(pat.id, *m, ty), ty),
        PatternKind::Tuple(pats) => {
            // a fresh variable for each element
            let (v1, vars) = fresh_n(v, pat.span, pats@.len());
            let v2 = check_pats(g, names, v1, pats@, vars, 0);
            let t = tuple(vars);
            (v2.equate(pat.span, ty, t), t)
        },
        PatternKind::Lit(e) => {
            let (v1, lt) = check_expr(g, names, v, &**e);
            (v1.equate(pat.span, ty, lt), ty)
        },
        PatternKind::Variant(path, pats) => {
            let (v1, ctor) = check_expr_path(g, v, path);
            let (v2, vars) = fresh_n(v1, pat.span, pats@.len());
            let expected = if pats@.len() == 0 && ctor.apply(v2.bindings).con != TyCon::Fn {
                ty
            } else {
                fn_ptr(vars, ty)
            };
            let v3 = v2.equate(pat.span, expected, ctor);
            (check_pats(g, names, v3, pats@, vars, 0), ty)
        },
        PatternKind::Struct(path, fps) => {
            let (v1, found) = check_struct_path(g, v, path);
            match found {
                None => (v1, ty_err()),
                Some((a, i, sty)) => {
                    let v2 = v1.equate(pat.span, ty, sty);
                    (check_field_pats(g, names, v2, g.adts[a].variants[i], sty, fps@, 0), ty)
                },
            }
        },
    }
}

pub open spec fn check_pats(
    g: Globals,
    names: &Interner,
    v: FnView,
    pats: Seq<ir::Pattern>,
    tys: Seq<Term>,
    i: nat,
) -> FnView
    decreases pats, pats.len() - i,
{
    if i >= pats.len() || i >= tys.len() {
        v
    } else {
        check_pats(g, names, check_pat(g, names, v, &pats[i as int], tys[i as int]).0, pats, tys, i + 1)
    }
}

/// The field patterns of a struct pattern from position `i` on: each is
/// checked against the declared type of its field. A field that the struct
/// does not have is complained about, and its pattern is checked against
/// the error sentinel.
pub open spec fn check_field_pats(
    g: Globals,
    names: &Interner,
    v: FnView,
    variant: VariantView,
    sty: Term,
    fps: Seq<ir::FieldPat>,
    i: nat,
) -> FnView
    decreases fps, fps.len() - i,
{
    if i >= fps.len() {
        v
    } else {
        let fp = &fps[i as int];
        let v1 = match find_field(variant.fields, fp.ident.symbol, 0) {
            Some(idx) => check_pat(
                g,
                names,
                v.record_field_index(fp.id, idx as usize),
                &fp.pat,
                variant.fields[idx].ty.subst(sty.args),
            ).0,
            None => check_pat(
                g,
                names,
                v.emit(fp.span, ErrView::UnknownField(sty, fp.ident)),
                &fp.pat,
                ty_err(),
            ).0,
        };
        check_field_pats(g, names, v1, variant, sty, fps, i + 1)
    }
}

} // verus!
