//! What the builder makes of a typed tree, as functions on models.

use crate::ast::BinOp;
use crate::fxmap::lookup;
use crate::index::FieldIdx;
use crate::list::List;
use crate::mir::build::{steps, unit_const, BlockAnd, BuilderView};
use crate::mir::{
    BlockId, Const, ConstKind, Lvalue, MirError, Operand, Projection, Rvalue, SpanInfo,
    TerminatorKind, VarId, VarKind, RETURN,
};
use crate::ast::Lit;
use crate::tir::{Arm, Block, Expr, ExprKind, Field, FieldPat, Pattern, PatternKind, Stmt, StmtKind};
use crate::ty::kind::Ty;
use crate::ty::store::TyCtx;
use vstd::prelude::*;

verus! {

/// What a lowering function owes: where the model says `Ok`, the result and
/// the new state are what the model says, and the state has made a step;
/// where the model says `Err`, the result is that error.
pub open spec fn ok2(
    old: BuilderView,
    new: BuilderView,
    block: BlockId,
    r: Result<BlockId, MirError>,
    model: Result<(BuilderView, BlockId), MirError>,
) -> bool {
    match model {
        Ok((v, b)) => r == Ok::<BlockId, MirError>(b) && new == v && steps(old, new, block, b),
        Err(x) => r == Err::<BlockId, MirError>(x),
    }
}

pub open spec fn ok3<T>(
    old: BuilderView,
    new: BuilderView,
    block: BlockId,
    r: Result<BlockAnd<T>, MirError>,
    model: Result<(BuilderView, BlockId, T), MirError>,
) -> bool {
    match model {
        Ok((v, b, t)) => r is Ok && r->Ok_0.0 == b && r->Ok_0.1 == t && new == v && steps(
            old,
            new,
            block,
            b,
        ),
        Err(x) => r is Err && r->Err_0 == x,
    }
}

/// The same for a function that hands back a vector: its view is what the
/// model says.
pub open spec fn ok_vec<T>(
    old: BuilderView,
    new: BuilderView,
    block: BlockId,
    r: Result<BlockAnd<Vec<T>>, MirError>,
    model: Result<(BuilderView, BlockId, Seq<T>), MirError>,
) -> bool {
    match model {
        Ok((v, b, t)) => r is Ok && r->Ok_0.0 == b && r->Ok_0.1@ == t && new == v && steps(
            old,
            new,
            block,
            b,
        ),
        Err(x) => r is Err && r->Err_0 == x,
    }
}

/// A result with more elements in front of its own.
pub open spec fn prepend<T>(
    acc: Seq<T>,
    r: Result<(BuilderView, BlockId, Seq<T>), MirError>,
) -> Result<(BuilderView, BlockId, Seq<T>), MirError> {
    match r {
        Ok((v, b, rest)) => Ok((v, b, acc + rest)),
        Err(x) => Err(x),
    }
}

pub proof fn lemma_prepend_push<T>(
    acc: Seq<T>,
    x: T,
    r: Result<(BuilderView, BlockId, Seq<T>), MirError>,
)
    ensures
        prepend(acc, prepend(seq![x], r)) == prepend(acc.push(x), r),
{
    match r {
        Ok((v, b, rest)) => {
            assert(acc + (seq![x] + rest) =~= acc.push(x) + rest);
        },
        Err(_) => {},
    }
}

/// How an expression is lowered by itself: as control flow, as a value form,
/// as a place, or as a constant.
pub open spec fn class(e: &Expr) -> nat {
    match e.kind {
        ExprKind::Block(_) | ExprKind::Call(_, _) | ExprKind::Match(_, _) | ExprKind::Ret(_) => 0,
        ExprKind::Adt(_, _, _) | ExprKind::Bin(_, _, _) | ExprKind::Unary(_, _) | ExprKind::Tuple(
            _,
        ) | ExprKind::Box(_) | ExprKind::Ref(_) | ExprKind::Assign(_, _) | ExprKind::Closure(_) => 1,
        ExprKind::VarRef(_, _) | ExprKind::Field(_, _) | ExprKind::Deref(_) => 2,
        ExprKind::Lit(_) | ExprKind::ItemRef(_) => 3,
    }
}

pub open spec fn rank_write(e: &Expr) -> nat {
    if class(e) == 0 {
        1
    } else if class(e) == 1 {
        2
    } else if class(e) == 2 {
        4
    } else {
        3
    }
}

pub open spec fn rank_tmp(e: &Expr) -> nat {
    if class(e) == 0 {
        2
    } else if class(e) == 1 {
        3
    } else if class(e) == 2 {
        5
    } else {
        4
    }
}

pub open spec fn rank_operand(e: &Expr) -> nat {
    if class(e) == 0 {
        3
    } else if class(e) == 1 {
        4
    } else if class(e) == 2 {
        2
    } else {
        1
    }
}

pub open spec fn rank_lvalue(e: &Expr) -> nat {
    if class(e) == 0 {
        3
    } else if class(e) == 1 {
        4
    } else if class(e) == 2 {
        1
    } else {
        5
    }
}

pub open spec fn rank_rvalue(e: &Expr) -> nat {
    if class(e) == 0 {
        4
    } else if class(e) == 1 {
        1
    } else if class(e) == 2 {
        3
    } else {
        2
    }
}

pub open spec fn info_of(e: &Expr) -> SpanInfo {
    SpanInfo { span: e.span }
}

/// The constant of a literal.
pub open spec fn const_of_lit(lit: Lit, ty: Ty) -> Const {
    match lit {
        Lit::Float(bits) => Const { kind: ConstKind::Float(bits), ty },
        Lit::Int(i) => Const { kind: ConstKind::Int(i), ty },
        Lit::Bool(b) => Const { kind: ConstKind::Bool(b), ty },
    }
}

pub open spec fn whole(id: VarId) -> Lvalue {
    Lvalue { id, projs: List::Nil }
}

pub open spec fn ret_lvalue() -> Lvalue {
    whole(VarId(RETURN))
}

/// The place one step inside a place.
pub open spec fn project(lvalue: Lvalue, p: Projection) -> Lvalue {
    Lvalue { id: lvalue.id, projs: crate::mir::spec_snoc(lvalue.projs, p) }
}

/// The number of fields that a variant declares, if the store knows the
/// variant.
pub open spec fn field_count(tcx: &TyCtx, adt: crate::ty::kind::AdtId, variant: crate::index::VariantIdx) -> Option<
    nat,
> {
    if adt.0 < tcx.spec_adts().len() && variant.0 < tcx.spec_adts()[adt.0 as int].variants@.len() {
        Some(tcx.spec_adts()[adt.0 as int].variants@[variant.0 as int].fields@.len())
    } else {
        None
    }
}

/// The position, among the fields as written, of the last one that sets the
/// field of an index.
pub open spec fn written_at(fields: Seq<Field>, index: nat, below: int) -> Option<int>
    decreases below,
{
    if below <= 0 {
        None
    } else if fields[below - 1].index.0 == index {
        Some(below - 1)
    } else {
        written_at(fields, index, below - 1)
    }
}

/// The operands of the fields in the order of declaration, up to `upto`;
/// the field that is left out, if there is one.
pub open spec fn ordered_fields(fields: Seq<Field>, ops: Seq<Operand>, upto: nat) -> Result<
    Seq<Operand>,
    MirError,
>
    decreases upto,
{
    if upto == 0 {
        Ok(Seq::empty())
    } else {
        match ordered_fields(fields, ops, (upto - 1) as nat) {
            Err(e) => Err(e),
            Ok(before) => match written_at(fields, (upto - 1) as nat, fields.len() as int) {
                Some(k) => Ok(before.push(ops[k])),
                None => Err(MirError::MissingField(FieldIdx((upto - 1) as usize))),
            },
        }
    }
}

/// Writes the value of an expression into a place.
pub open spec fn write_expr(v: BuilderView, tcx: &TyCtx, block: BlockId, dest: Lvalue, e: &Expr) -> Result<
    (BuilderView, BlockId),
    MirError,
>
    decreases e, rank_write(e),
{
    let info = info_of(e);
    match &e.kind {
        ExprKind::Block(b) => build_block(v, tcx, block, dest, &**b),
        ExprKind::Call(f, args) => match as_operand(v, tcx, block, &**f) {
            Err(x) => Err(x),
            Ok((v1, b1, fop)) => match as_operands(v1, tcx, b1, args@, 0) {
                Err(x) => Err(x),
                Ok((v2, b2, ops)) => {
                    let (v3, target) = v2.append_block();
                    Ok(
                        (
                            v3.terminate(
                                info,
                                b2,
                                TerminatorKind::Call(fop, List::of(ops), dest, target),
                            ),
                            target,
                        ),
                    )
                },
            },
        },
        ExprKind::Match(_, _) => build_match(v, tcx, block, dest, e),
        ExprKind::Ret(opt) => {
            let written = match opt {
                Some(x) => write_expr(v, tcx, block, ret_lvalue(), &**x),
                None => Ok(
                    (
                        v.push_assignment(
                            tcx,
                            info,
                            block,
                            ret_lvalue(),
                            Rvalue::Use(Operand::Const(unit_const(tcx))),
                        ),
                        block,
                    ),
                ),
            };
            match written {
                Err(x) => Err(x),
                Ok((v1, b1)) => {
                    let v2 = v1.release_all(b1).terminate(info, b1, TerminatorKind::Return);
                    let (v3, fresh) = v2.append_block();
                    Ok((v3, fresh))
                },
            }
        },
        _ => match as_rvalue(v, tcx, block, e) {
            Err(x) => Err(x),
            Ok((v1, b1, rv)) => Ok((v1.push_assignment(tcx, info, b1, dest, rv), b1)),
        },
    }
}

/// The value form of an expression: its own form where it has one, else the
/// use of its operand.
pub open spec fn as_rvalue(v: BuilderView, tcx: &TyCtx, block: BlockId, e: &Expr) -> Result<
    (BuilderView, BlockId, Rvalue),
    MirError,
>
    decreases e, rank_rvalue(e),
{
    let info = info_of(e);
    match &e.kind {
        ExprKind::Adt(adt, variant_idx, fields) => match as_fields(v, tcx, block, fields@, 0) {
            Err(x) => Err(x),
            Ok((v1, b1, ops)) => match field_count(tcx, *adt, *variant_idx) {
                None => Err(MirError::UnknownVariant(*adt, *variant_idx)),
                Some(n) => match ordered_fields(fields@, ops, n) {
                    Err(x) => Err(x),
                    Ok(ordered) => Ok(
                        (v1, b1, Rvalue::Adt(*adt, *variant_idx, e.ty, List::of(ordered))),
                    ),
                },
            },
        },
        ExprKind::Bin(op, l, r) => match as_operand(v, tcx, block, &**l) {
            Err(x) => Err(x),
            Ok((v1, b1, lhs)) => match as_operand(v1, tcx, b1, &**r) {
                Err(x) => Err(x),
                Ok((v2, b2, rhs)) => Ok((v2, b2, Rvalue::Bin(*op, lhs, rhs))),
            },
        },
        ExprKind::Closure(_) => Err(MirError::Closure),
        ExprKind::Unary(op, x) => match as_operand(v, tcx, block, &**x) {
            Err(x) => Err(x),
            Ok((v1, b1, operand)) => Ok((v1, b1, Rvalue::Unary(*op, operand))),
        },
        ExprKind::Assign(l, r) => match as_lvalue(v, tcx, block, &**l) {
            Err(x) => Err(x),
            Ok((v1, b1, lhs)) => match as_rvalue(v1, tcx, b1, &**r) {
                Err(x) => Err(x),
                Ok((v2, b2, rhs)) => Ok((v2.push_assignment(tcx, info, b2, lhs, rhs), b2, rhs)),
            },
        },
        ExprKind::Tuple(xs) => match as_operands(v, tcx, block, xs@, 0) {
            Err(x) => Err(x),
            Ok((v1, b1, ops)) => Ok((v1, b1, Rvalue::Tuple(List::of(ops)))),
        },
        ExprKind::Box(x) => match as_operand(v, tcx, block, &**x) {
            Err(x) => Err(x),
            Ok((v1, b1, operand)) => Ok((v1, b1, Rvalue::Box(operand))),
        },
        ExprKind::Ref(x) => match as_lvalue(v, tcx, block, &**x) {
            Err(x) => Err(x),
            Ok((v1, b1, lvalue)) => Ok((v1, b1, Rvalue::Ref(lvalue))),
        },
        _ => match as_operand(v, tcx, block, e) {
            Err(x) => Err(x),
            Ok((v1, b1, operand)) => Ok((v1, b1, Rvalue::Use(operand))),
        },
    }
}

/// The operand of an expression: a constant, an item, a place, or a
/// temporary that holds the value.
pub open spec fn as_operand(v: BuilderView, tcx: &TyCtx, block: BlockId, e: &Expr) -> Result<
    (BuilderView, BlockId, Operand),
    MirError,
>
    decreases e, rank_operand(e),
{
    match &e.kind {
        ExprKind::Lit(lit) => Ok((v, block, Operand::Const(const_of_lit(*lit, e.ty)))),
        ExprKind::ItemRef(def) => Ok((v, block, Operand::Item(*def, e.ty))),
        ExprKind::VarRef(_, _) | ExprKind::Field(_, _) | ExprKind::Deref(_) => match as_lvalue(
            v,
            tcx,
            block,
            e,
        ) {
            Err(x) => Err(x),
            Ok((v1, b1, lvalue)) => Ok((v1, b1, Operand::Lvalue(lvalue))),
        },
        _ => match as_tmp(v, tcx, block, e) {
            Err(x) => Err(x),
            Ok((v1, b1, lvalue)) => Ok((v1, b1, Operand::Lvalue(lvalue))),
        },
    }
}

/// The operands of the expressions from position `i` on, evaluated from the
/// left.
pub open spec fn as_operands(v: BuilderView, tcx: &TyCtx, block: BlockId, es: Seq<Expr>, i: nat) -> Result<
    (BuilderView, BlockId, Seq<Operand>),
    MirError,
>
    decreases es, es.len() - i,
{
    if i >= es.len() {
        Ok((v, block, Seq::empty()))
    } else {
        match as_operand(v, tcx, block, &es[i as int]) {
            Err(x) => Err(x),
            Ok((v1, b1, op)) => match as_operands(v1, tcx, b1, es, i + 1) {
                Err(x) => Err(x),
                Ok((v2, b2, ops)) => Ok((v2, b2, seq![op] + ops)),
            },
        }
    }
}

/// The operands of the fields from position `i` on, in the order in which
/// they were written.
pub open spec fn as_fields(v: BuilderView, tcx: &TyCtx, block: BlockId, fs: Seq<Field>, i: nat) -> Result<
    (BuilderView, BlockId, Seq<Operand>),
    MirError,
>
    decreases fs, fs.len() - i,
{
    if i >= fs.len() {
        Ok((v, block, Seq::empty()))
    } else {
        match as_operand(v, tcx, block, &fs[i as int].expr) {
            Err(x) => Err(x),
            Ok((v1, b1, op)) => match as_fields(v1, tcx, b1, fs, i + 1) {
                Err(x) => Err(x),
                Ok((v2, b2, ops)) => Ok((v2, b2, seq![op] + ops)),
            },
        }
    }
}

/// The place of an expression: the variable and the path of a syntactic
/// place, a temporary that holds the value of anything else.
pub open spec fn as_lvalue(v: BuilderView, tcx: &TyCtx, block: BlockId, e: &Expr) -> Result<
    (BuilderView, BlockId, Lvalue),
    MirError,
>
    decreases e, rank_lvalue(e),
{
    match &e.kind {
        ExprKind::VarRef(id, _) => match lookup(v.var_map, id.local.0) {
            Some(var) => Ok((v, block, whole(VarId(var)))),
            None => Err(MirError::UnboundVariable(*id)),
        },
        ExprKind::Field(base, idx) => match as_lvalue(v, tcx, block, &**base) {
            Err(x) => Err(x),
            Ok((v1, b1, lvalue)) => Ok((v1, b1, project(lvalue, Projection::Field(*idx, e.ty)))),
        },
        ExprKind::Deref(base) => match as_lvalue(v, tcx, block, &**base) {
            Err(x) => Err(x),
            Ok((v1, b1, lvalue)) => Ok((v1, b1, project(lvalue, Projection::Deref))),
        },
        _ => as_tmp(v, tcx, block, e),
    }
}

/// A fresh temporary of the expression's type, with the value of the
/// expression written into it.
pub open spec fn as_tmp(v: BuilderView, tcx: &TyCtx, block: BlockId, e: &Expr) -> Result<
    (BuilderView, BlockId, Lvalue),
    MirError,
>
    decreases e, rank_tmp(e),
{
    let (v1, tmp) = v.alloc_var(info_of(e), VarKind::Tmp, e.ty);
    match write_expr(v1, tcx, block, whole(tmp), e) {
        Err(x) => Err(x),
        Ok((v2, b2)) => Ok((v2, b2, whole(tmp))),
    }
}

/// A block: a scope of its own, the statements in order, the value of the
/// final expression (or unit) into the place, and then the releases of the
/// scope.
pub open spec fn build_block(v: BuilderView, tcx: &TyCtx, block: BlockId, dest: Lvalue, blk: &Block) -> Result<
    (BuilderView, BlockId),
    MirError,
>
    decreases blk, 0nat,
{
    match build_stmts(v.push_scope(), tcx, block, blk.stmts@, 0) {
        Err(x) => Err(x),
        Ok((v1, b1)) => {
            let last = match &blk.expr {
                Some(x) => write_expr(v1, tcx, b1, dest, x),
                None => Ok(
                    (
                        v1.push_assignment(
                            tcx,
                            SpanInfo { span: blk.span },
                            b1,
                            dest,
                            Rvalue::Use(Operand::Const(unit_const(tcx))),
                        ),
                        b1,
                    ),
                ),
            };
            match last {
                Err(x) => Err(x),
                Ok((v2, b2)) => Ok((v2.exit_scope(b2), b2)),
            }
        },
    }
}

/// The statements from position `i` on.
pub open spec fn build_stmts(v: BuilderView, tcx: &TyCtx, block: BlockId, stmts: Seq<Stmt>, i: nat) -> Result<
    (BuilderView, BlockId),
    MirError,
>
    decreases stmts, stmts.len() - i,
{
    if i >= stmts.len() {
        Ok((v, block))
    } else {
        match build_stmt(v, tcx, block, &stmts[i as int]) {
            Err(x) => Err(x),
            Ok((v1, b1)) => build_stmts(v1, tcx, b1, stmts, i + 1),
        }
    }
}

/// One statement: a `let` binds its pattern to the place of its
/// initializer; an expression is evaluated into a temporary that nobody
/// reads.
pub open spec fn build_stmt(v: BuilderView, tcx: &TyCtx, block: BlockId, stmt: &Stmt) -> Result<
    (BuilderView, BlockId),
    MirError,
>
    decreases stmt, 0nat,
{
    match &stmt.kind {
        StmtKind::Let(l) => match &l.init {
            Some(init) => match as_lvalue(v, tcx, block, init) {
                Err(x) => Err(x),
                Ok((v1, b1, lvalue)) => Ok((bind_pat(v1, tcx, b1, &l.pat, lvalue), b1)),
            },
            None => Ok((declare_pat(v, &l.pat), block)),
        },
        StmtKind::Expr(x) => match as_tmp(v, tcx, block, x) {
            Err(x) => Err(x),
            Ok((v1, b1, _)) => Ok((v1, b1)),
        },
    }
}

/// Gives every binding of a pattern a variable, without a value.
pub open spec fn declare_pat(v: BuilderView, pat: &Pattern) -> BuilderView
    decreases pat, 0nat,
{
    match &pat.kind {
        PatternKind::Binding(_, _) => {
            let (v1, var) = v.alloc_var(SpanInfo { span: pat.span }, VarKind::Local, pat.ty);
            v1.bind(pat.id, var)
        },
        PatternKind::Field(fps) => declare_field_pats(v, fps@, 0),
        PatternKind::Variant(_, _, pats) => declare_pats(v, pats@, 0),
        _ => v,
    }
}

pub open spec fn declare_field_pats(v: BuilderView, fps: Seq<FieldPat>, i: nat) -> BuilderView
    decreases fps, fps.len() - i,
{
    if i >= fps.len() {
        v
    } else {
        declare_field_pats(declare_pat(v, &fps[i as int].pat), fps, i + 1)
    }
}

pub open spec fn declare_pats(v: BuilderView, pats: Seq<Pattern>, i: nat) -> BuilderView
    decreases pats, pats.len() - i,
{
    if i >= pats.len() {
        v
    } else {
        declare_pats(declare_pat(v, &pats[i as int]), pats, i + 1)
    }
}

/// Binds a pattern to a place: every binding gets a variable of its own,
/// and the part of the place that it stands for is copied into it.
pub open spec fn bind_pat(v: BuilderView, tcx: &TyCtx, block: BlockId, pat: &Pattern, lvalue: Lvalue) -> BuilderView
    decreases pat, 0nat,
{
    match &pat.kind {
        PatternKind::Binding(_, _) => {
            let info = SpanInfo { span: pat.span };
            let (v1, var) = v.alloc_var(info, VarKind::Local, pat.ty);
            v1.bind(pat.id, var).push_assignment(
                tcx,
                info,
                block,
                whole(var),
                Rvalue::Use(Operand::Lvalue(lvalue)),
            )
        },
        PatternKind::Field(fps) => bind_field_pats(v, tcx, block, fps@, lvalue, 0),
        PatternKind::Variant(_, _, pats) => bind_variant_pats(v, tcx, block, pats@, lvalue, 0),
        _ => v,
    }
}

pub open spec fn bind_field_pats(
    v: BuilderView,
    tcx: &TyCtx,
    block: BlockId,
    fps: Seq<FieldPat>,
    lvalue: Lvalue,
    i: nat,
) -> BuilderView
    decreases fps, fps.len() - i,
{
    if i >= fps.len() {
        v
    } else {
        let fp = &fps[i as int];
        bind_field_pats(
            bind_pat(v, tcx, block, &fp.pat, project(lvalue, Projection::Field(fp.field, fp.pat.ty))),
            tcx,
            block,
            fps,
            lvalue,
            i + 1,
        )
    }
}

/// The field of a variant's value at a position: the fields follow the
/// discriminant.
pub open spec fn variant_field(lvalue: Lvalue, i: nat, ty: Ty) -> Lvalue {
    project(lvalue, Projection::Field(FieldIdx((i + 1) as usize), ty))
}

pub open spec fn bind_variant_pats(
    v: BuilderView,
    tcx: &TyCtx,
    block: BlockId,
    pats: Seq<Pattern>,
    lvalue: Lvalue,
    i: nat,
) -> BuilderView
    decreases pats, pats.len() - i,
{
    if i >= pats.len() {
        v
    } else {
        let p = &pats[i as int];
        bind_variant_pats(
            bind_pat(v, tcx, block, p, variant_field(lvalue, i, p.ty)),
            tcx,
            block,
            pats,
            lvalue,
            i + 1,
        )
    }
}

/// The builder at the start of a body: the entry block, the scope of the
/// body, and no variable.
pub open spec fn initial(argc: usize) -> BuilderView {
    BuilderView {
        blocks: seq![crate::mir::BlockView::empty()],
        vars: Seq::empty(),
        var_map: Map::empty(),
        scopes: seq![Seq::empty()],
        argc,
    }
}

/// The parameters from position `i` on: each gets a variable, and its
/// pattern is bound to the variable.
pub open spec fn build_params(v: BuilderView, tcx: &TyCtx, block: BlockId, params: Seq<crate::tir::Param>, i: nat) -> BuilderView
    decreases params.len() - i,
{
    if i >= params.len() {
        v
    } else {
        let pat = &params[i as int].pat;
        let (v1, arg) = v.alloc_var(SpanInfo { span: pat.span }, VarKind::Arg, pat.ty);
        build_params(
            bind_pat(v1.bind(pat.id, arg), tcx, block, pat, whole(arg)),
            tcx,
            block,
            params,
            i + 1,
        )
    }
}

/// A whole body: the return slot, the parameters, the value of the body
/// into the return slot, the releases of the body's scope, and `return`.
pub open spec fn build_body(tcx: &TyCtx, body: &crate::tir::Body) -> Result<BuilderView, MirError> {
    let info = info_of(&body.expr);
    let entry = BlockId(crate::mir::ENTRY_BLOCK);
    let (v1, _) = initial(body.params@.len() as usize).alloc_var(info, VarKind::Ret, body.expr.ty);
    let v2 = build_params(v1, tcx, entry, body.params@, 0);
    match write_expr(v2, tcx, entry, ret_lvalue(), &body.expr) {
        Err(x) => Err(x),
        Ok((v3, b)) => Ok(v3.exit_scope(b).terminate(info, b, TerminatorKind::Return)),
    }
}

/// The model with `n` empty blocks at its end.
pub open spec fn with_blocks(v: BuilderView, n: nat) -> BuilderView
    decreases n,
{
    if n == 0 {
        v
    } else {
        with_blocks(v, (n - 1) as nat).append_block().0
    }
}

/// A match of N arms: N predicate blocks and N body blocks, allocated in
/// turn; the scrutinee as a place; a branch to the first predicate block (to
/// an unreachable block where there is no arm); a join block; then the arms
/// in source order. The result is the join block.
pub open spec fn build_match(v: BuilderView, tcx: &TyCtx, block: BlockId, dest: Lvalue, e: &Expr) -> Result<
    (BuilderView, BlockId),
    MirError,
>
    decreases e, 0nat,
{
    let info = info_of(e);
    match &e.kind {
        ExprKind::Match(scrut, arms) => {
            let first = v.blocks.len();
            let v1 = with_blocks(v, 2 * arms@.len());
            match as_lvalue(v1, tcx, block, &**scrut) {
                Err(x) => Err(x),
                Ok((v2, b2, place)) => {
                    let (v3, entry) = if arms@.len() == 0 {
                        v2.mk_unreachable(info)
                    } else {
                        (v2, BlockId(first as usize))
                    };
                    let v4 = v3.terminate(info, b2, TerminatorKind::Branch(entry));
                    let (v5, join) = v4.append_block();
                    match build_arms(v5, tcx, dest, info, place, arms@, first, join, 0) {
                        Err(x) => Err(x),
                        Ok(v6) => Ok((v6, join)),
                    }
                },
            }
        },
        _ => Ok((v, block)),
    }
}

/// The predicate block of arm `i`.
pub open spec fn pblock(first: nat, i: nat) -> BlockId {
    BlockId((first + 2 * i) as usize)
}

/// The body block of arm `i`.
pub open spec fn body_block(first: nat, i: nat) -> BlockId {
    BlockId((first + 2 * i + 1) as usize)
}

/// The arms from position `i` on. An arm that does not match goes on to the
/// predicate block of the next arm; the last arm, to an unreachable block.
/// Every body ends in a branch to the join block.
pub open spec fn build_arms(
    v: BuilderView,
    tcx: &TyCtx,
    dest: Lvalue,
    info: SpanInfo,
    place: Lvalue,
    arms: Seq<Arm>,
    first: nat,
    join: BlockId,
    i: nat,
) -> Result<BuilderView, MirError>
    decreases arms, arms.len() - i,
{
    if i >= arms.len() {
        Ok(v)
    } else {
        let (v1, next) = if i + 1 < arms.len() {
            (v, pblock(first, i + 1))
        } else {
            v.mk_unreachable(info)
        };
        match build_match_arm(
            v1,
            tcx,
            pblock(first, i),
            body_block(first, i),
            next,
            dest,
            info,
            place,
            &arms[i as int],
        ) {
            Err(x) => Err(x),
            Ok((v2, end)) => build_arms(
                v2.terminate(info, end, TerminatorKind::Branch(join)),
                tcx,
                dest,
                info,
                place,
                arms,
                first,
                join,
                i + 1,
            ),
        }
    }
}

/// One arm: the predicate, a conditional branch on it to the body block or
/// to the next block, and the value of the body into the place.
pub open spec fn build_match_arm(
    v: BuilderView,
    tcx: &TyCtx,
    pblock: BlockId,
    body_block: BlockId,
    next: BlockId,
    dest: Lvalue,
    info: SpanInfo,
    place: Lvalue,
    arm: &Arm,
) -> Result<(BuilderView, BlockId), MirError>
    decreases arm, 0nat,
{
    match build_arm_predicate(v, tcx, pblock, place, &arm.pat) {
        Err(x) => Err(x),
        Ok((v1, pb, predicate)) => write_expr(
            v1.terminate(info, pb, TerminatorKind::Cond(Operand::Lvalue(predicate), body_block, next)),
            tcx,
            body_block,
            dest,
            &arm.body,
        ),
    }
}

pub open spec fn bool_const(tcx: &TyCtx, b: bool) -> Const {
    Const { kind: ConstKind::Bool(b), ty: tcx.spec_types().bool }
}

/// The code that tests whether a pattern matches: a boolean temporary that
/// starts as true, and one conjunct for every requirement of the pattern.
pub open spec fn build_arm_predicate(
    v: BuilderView,
    tcx: &TyCtx,
    pblock: BlockId,
    place: Lvalue,
    pat: &Pattern,
) -> Result<(BuilderView, BlockId, Lvalue), MirError>
    decreases pat, 1nat,
{
    let info = SpanInfo { span: pat.span };
    let (v1, p) = v.alloc_var(info, VarKind::Tmp, tcx.spec_types().bool);
    let v2 = v1.push_assignment(
        tcx,
        info,
        pblock,
        whole(p),
        Rvalue::Use(Operand::Const(bool_const(tcx, true))),
    );
    match build_conjuncts(v2, tcx, pblock, whole(p), place, pat) {
        Err(x) => Err(x),
        Ok((v3, pb)) => Ok((v3, pb, whole(p))),
    }
}

/// Computes a comparison into a temporary of its own, and ands the
/// temporary into the predicate.
pub open spec fn and_into(
    v: BuilderView,
    tcx: &TyCtx,
    info: SpanInfo,
    block: BlockId,
    predicate: Lvalue,
    comparison: Rvalue,
) -> BuilderView {
    let (v1, c) = v.alloc_var(info, VarKind::Tmp, tcx.spec_types().bool);
    v1.push_assignment(tcx, info, block, whole(c), comparison).push_assignment(
        tcx,
        info,
        block,
        predicate,
        Rvalue::Bin(BinOp::And, Operand::Lvalue(whole(c)), Operand::Lvalue(predicate)),
    )
}

/// The conjuncts of a pattern. A wildcard asks for nothing. A binding copies
/// the value into its variable. A literal is evaluated into a temporary and
/// compared with the value. A variant reads the discriminant of the value
/// into an integer temporary, compares it with its own index as an integer
/// constant, and goes on with its sub-patterns on the fields of the value.
pub open spec fn build_conjuncts(
    v: BuilderView,
    tcx: &TyCtx,
    pblock: BlockId,
    predicate: Lvalue,
    place: Lvalue,
    pat: &Pattern,
) -> Result<(BuilderView, BlockId), MirError>
    decreases pat, 0nat,
{
    let info = SpanInfo { span: pat.span };
    match &pat.kind {
        PatternKind::Wildcard => Ok((v, pblock)),
        PatternKind::Binding(_, _) => Ok((bind_pat(v, tcx, pblock, pat, place), pblock)),
        PatternKind::Field(fps) => field_conjuncts(v, tcx, pblock, predicate, place, fps@, 0),
        PatternKind::Lit(expr) => {
            let (v1, t) = v.alloc_var(info, VarKind::Tmp, expr.ty);
            match write_expr(v1, tcx, pblock, whole(t), &**expr) {
                Err(x) => Err(x),
                Ok((v2, pb)) => Ok(
                    (
                        and_into(
                            v2,
                            tcx,
                            info,
                            pb,
                            predicate,
                            Rvalue::Bin(
                                BinOp::Eq,
                                Operand::Lvalue(whole(t)),
                                Operand::Lvalue(place),
                            ),
                        ),
                        pb,
                    ),
                ),
            }
        },
        PatternKind::Variant(_, idx, pats) => {
            let (v1, d) = v.alloc_var(info, VarKind::Tmp, tcx.spec_types().int);
            let v2 = v1.push_assignment(tcx, info, pblock, whole(d), Rvalue::Discriminant(place));
            let v3 = and_into(
                v2,
                tcx,
                info,
                pblock,
                predicate,
                Rvalue::Bin(
                    BinOp::Eq,
                    Operand::Const(Const { kind: ConstKind::Int(idx.0 as i64), ty: tcx.spec_types().int }),
                    Operand::Lvalue(whole(d)),
                ),
            );
            variant_conjuncts(v3, tcx, pblock, predicate, place, pats@, 0)
        },
    }
}

pub open spec fn field_conjuncts(
    v: BuilderView,
    tcx: &TyCtx,
    pblock: BlockId,
    predicate: Lvalue,
    place: Lvalue,
    fps: Seq<FieldPat>,
    i: nat,
) -> Result<(BuilderView, BlockId), MirError>
    decreases fps, fps.len() - i,
{
    if i >= fps.len() {
        Ok((v, pblock))
    } else {
        let fp = &fps[i as int];
        match build_conjuncts(
            v,
            tcx,
            pblock,
            predicate,
            project(place, Projection::Field(fp.field, fp.pat.ty)),
            &fp.pat,
        ) {
            Err(x) => Err(x),
            Ok((v1, pb)) => field_conjuncts(v1, tcx, pb, predicate, place, fps, i + 1),
        }
    }
}

pub open spec fn variant_conjuncts(
    v: BuilderView,
    tcx: &TyCtx,
    pblock: BlockId,
    predicate: Lvalue,
    place: Lvalue,
    pats: Seq<Pattern>,
    i: nat,
) -> Result<(BuilderView, BlockId), MirError>
    decreases pats, pats.len() - i,
{
    if i >= pats.len() {
        Ok((v, pblock))
    } else {
        let p = &pats[i as int];
        match build_conjuncts(v, tcx, pblock, predicate, variant_field(place, i, p.ty), p) {
            Err(x) => Err(x),
            Ok((v1, pb)) => variant_conjuncts(v1, tcx, pb, predicate, place, pats, i + 1),
        }
    }
}

} // verus!
