//! The typed tree as text: every expression with its type behind it.

use crate::ast::{BinOp, Ident, Lit, UnaryOp};
use crate::index::Symbol;
use crate::symbol::Interner;
use crate::text::{decimal_i64, decimal_usize, push_i64, push_usize};
use crate::tir::{Block, Body, Expr, ExprKind, Pattern, PatternKind, Stmt, StmtKind};
use crate::ty::kind::{InferTy, Ty, TyCon};
use crate::ty::store::TyCtx;
use crate::ty::term::Term;
use vstd::prelude::*;
use vstd::string::*;

verus! {

pub open spec fn binop_str(op: BinOp) -> Seq<char> {
    match op {
        BinOp::Mul => "*"@,
        BinOp::Div => "/"@,
        BinOp::Add => "+"@,
        BinOp::Sub => "-"@,
        BinOp::Lt => "<"@,
        BinOp::Gt => ">"@,
        BinOp::Eq => "=="@,
        BinOp::Neq => "!="@,
        BinOp::And => "&&"@,
        BinOp::Or => "||"@,
    }
}

pub fn binop_text(op: BinOp) -> (s: &'static str)
    ensures
        s@ == binop_str(op),
{
    match op {
        BinOp::Mul => "*",
        BinOp::Div => "/",
        BinOp::Add => "+",
        BinOp::Sub => "-",
        BinOp::Lt => "<",
        BinOp::Gt => ">",
        BinOp::Eq => "==",
        BinOp::Neq => "!=",
        BinOp::And => "&&",
        BinOp::Or => "||",
    }
}

pub open spec fn unop_str(op: UnaryOp) -> Seq<char> {
    match op {
        UnaryOp::Neg => "-"@,
        UnaryOp::Not => "!"@,
        UnaryOp::Deref => "*"@,
        UnaryOp::Ref => "&"@,
    }
}

pub fn unop_text(op: UnaryOp) -> (s: &'static str)
    ensures
        s@ == unop_str(op),
{
    match op {
        UnaryOp::Neg => "-",
        UnaryOp::Not => "!",
        UnaryOp::Deref => "*",
        UnaryOp::Ref => "&",
    }
}

/// The printer of a typed tree: the store for the types, the table of names
/// for the identifiers.
pub struct Formatter<'a> {
    pub tcx: &'a TyCtx,
    pub names: &'a Interner,
}

impl<'a> Formatter<'a> {
    /// The text with a name behind it; `?` for a symbol without a name.
    pub open spec fn name_into(&self, acc: Seq<char>, sym: Symbol) -> Seq<char> {
        if self.names.has(sym) {
            acc + self.names.name(sym)
        } else {
            acc + "?"@
        }
    }

    /// The text with a type behind it. The integer type is written
    /// `number`; a function type, `fn(<ty>,<ty>)->ty`.
    pub open spec fn ty_into(&self, acc: Seq<char>, t: Term) -> Seq<char>
        decreases t, 0nat,
    {
        match t.con {
            TyCon::Bool => acc + "bool"@,
            TyCon::Char => acc + "char"@,
            TyCon::Float => acc + "float"@,
            TyCon::Int => acc + "number"@,
            TyCon::Discr => acc + "discr"@,
            TyCon::Error => acc + "err"@,
            TyCon::Never => acc + "!"@,
            TyCon::Array(n) => self.tys_into(acc + "["@, t.args, 0) + ";"@ + decimal_usize(n) + "]"@,
            TyCon::Fn => if t.args.len() >= 1 {
                self.ty_into(
                    self.tys_into(acc + "fn("@, t.args.drop_last(), 0) + ")->"@,
                    t.args.last(),
                )
            } else {
                acc + "fn"@
            },
            TyCon::FnDef(def) => self.tys_into(acc + "fn#"@ + decimal_usize(def.0) + "<"@, t.args, 0)
                + ">"@,
            TyCon::Tuple => self.tys_into(acc + "("@, t.args, 0) + ")"@,
            TyCon::Infer(InferTy::TyVar(v)) => acc + "?"@ + decimal_usize(v.0),
            TyCon::Param(p) => acc + "T"@ + decimal_usize(p.idx.0),
            TyCon::Adt(a) => {
                let named = if a.0 < self.tcx.spec_adts().len() {
                    self.name_into(acc, self.tcx.spec_adts()[a.0 as int].ident.symbol)
                } else {
                    acc + "?"@
                };
                if t.args.len() == 0 {
                    named
                } else {
                    self.tys_into(named + "<"@, t.args, 0) + ">"@
                }
            },
            TyCon::Scheme(f) => self.tys_into(
                acc + "forall<"@ + decimal_usize(f.binders) + ">."@,
                t.args,
                0,
            ),
            TyCon::Box => self.tys_into(acc + "box<"@, t.args, 0) + ">"@,
            TyCon::Ptr => self.tys_into(acc + "&"@, t.args, 0),
        }
    }

    /// The text with the types from position `i` on behind it, commas
    /// between them.
    pub open spec fn tys_into(&self, acc: Seq<char>, ts: Seq<Term>, i: nat) -> Seq<char>
        decreases ts, ts.len() - i,
    {
        if i >= ts.len() {
            acc
        } else {
            let sep = if i > 0 {
                acc + ","@
            } else {
                acc
            };
            self.tys_into(self.ty_into(sep, ts[i as int]), ts, i + 1)
        }
    }

    pub open spec fn lit_into(&self, acc: Seq<char>, l: Lit) -> Seq<char> {
        match l {
            Lit::Int(i) => acc + decimal_i64(i),
            // a truth value is written as a number
            Lit::Bool(b) => if b {
                acc + "1"@
            } else {
                acc + "0"@
            },
            Lit::Float(bits) => acc + "f"@ + decimal_usize(bits as usize),
        }
    }

    /// The text with an expression behind it: `<what>:<type>`.
    pub open spec fn expr_into(&self, acc: Seq<char>, e: &Expr) -> Seq<char>
        decreases e, 1nat,
    {
        self.ty_into(self.kind_into(acc, e) + ":"@, self.term_of(e.ty))
    }

    /// The tree of a type of the store; the error sentinel for a handle
    /// that is none of the store.
    pub open spec fn term_of(&self, t: Ty) -> Term {
        if self.tcx.has(t) {
            self.tcx.term(t)
        } else {
            Term::leaf(TyCon::Error)
        }
    }

    pub open spec fn kind_into(&self, acc: Seq<char>, e: &Expr) -> Seq<char>
        decreases e, 0nat,
    {
        match &e.kind {
            ExprKind::Lit(l) => self.lit_into(acc, *l),
            ExprKind::Bin(op, l, r) => self.expr_into(
                self.expr_into(acc + "("@ + binop_str(*op) + " "@, &**l) + " "@,
                &**r,
            ) + ")"@,
            ExprKind::Unary(op, x) => self.expr_into(acc + "("@ + unop_str(*op) + " "@, &**x) + ")"@,
            ExprKind::Block(b) => self.block_into(acc, &**b),
            ExprKind::VarRef(_, ident) => self.name_into(acc, ident.symbol),
            ExprKind::ItemRef(def) => acc + "#"@ + decimal_usize(def.0),
            ExprKind::Tuple(xs) => self.exprs_into(acc + "(tup"@, xs@, 0) + ")"@,
            ExprKind::Closure(body) => self.expr_into(
                self.params_into(acc + "(\u{3bb}("@, body.params@, 0) + ") "@,
                &body.expr,
            ) + ")"@,
            ExprKind::Call(f, args) => self.exprs_into(self.expr_into(acc + "("@, &**f), args@, 0)
                + ")"@,
            ExprKind::Match(s, arms) => self.arms_into(
                self.expr_into(acc + "(match "@, &**s),
                arms@,
                0,
            ) + ")"@,
            ExprKind::Assign(l, r) => self.expr_into(
                self.expr_into(acc + "(= "@, &**l) + " "@,
                &**r,
            ) + ")"@,
            ExprKind::Field(base, idx) => self.expr_into(acc + "(. "@, &**base) + " "@
                + decimal_usize(idx.0) + ")"@,
            ExprKind::Adt(a, v, fields) => self.fields_into(
                acc + "(adt "@ + decimal_usize(a.0) + " "@ + decimal_usize(v.0),
                fields@,
                0,
            ) + ")"@,
            ExprKind::Ret(opt) => match opt {
                Some(x) => self.expr_into(acc + "(ret "@, &**x) + ")"@,
                None => acc + "(ret)"@,
            },
            ExprKind::Box(x) => self.expr_into(acc + "(box "@, &**x) + ")"@,
            ExprKind::Ref(x) => self.expr_into(acc + "(& "@, &**x) + ")"@,
            ExprKind::Deref(x) => self.expr_into(acc + "(* "@, &**x) + ")"@,
        }
    }

    /// The text with the expressions from position `i` on behind it, a
    /// blank before each.
    pub open spec fn exprs_into(&self, acc: Seq<char>, es: Seq<Expr>, i: nat) -> Seq<char>
        decreases es, es.len() - i,
    {
        if i >= es.len() {
            acc
        } else {
            self.exprs_into(self.expr_into(acc + " "@, &es[i as int]), es, i + 1)
        }
    }

    pub open spec fn fields_into(&self, acc: Seq<char>, fs: Seq<crate::tir::Field>, i: nat) -> Seq<
        char,
    >
        decreases fs, fs.len() - i,
    {
        if i >= fs.len() {
            acc
        } else {
            self.fields_into(
                self.expr_into(acc + " "@ + decimal_usize(fs[i as int].index.0) + "="@, &fs[i as int].expr),
                fs,
                i + 1,
            )
        }
    }

    pub open spec fn arms_into(&self, acc: Seq<char>, arms: Seq<crate::tir::Arm>, i: nat) -> Seq<char>
        decreases arms, arms.len() - i,
    {
        if i >= arms.len() {
            acc
        } else {
            self.arms_into(
                self.expr_into(self.pat_into(acc + " "@, &arms[i as int].pat) + " => "@, &arms[i as int].body),
                arms,
                i + 1,
            )
        }
    }

    /// The text with the parameters from position `i` on behind it, a
    /// comma and a blank between them.
    pub open spec fn params_into(&self, acc: Seq<char>, ps: Seq<crate::tir::Param>, i: nat) -> Seq<
        char,
    >
        decreases ps, ps.len() - i,
    {
        if i >= ps.len() {
            acc
        } else {
            let sep = if i > 0 {
                acc + ", "@
            } else {
                acc
            };
            self.params_into(self.pat_into(sep, &ps[i as int].pat), ps, i + 1)
        }
    }

    /// The text with a pattern behind it: `<what>:<type>`.
    pub open spec fn pat_into(&self, acc: Seq<char>, p: &Pattern) -> Seq<char>
        decreases p, 1nat,
    {
        self.ty_into(self.pat_kind_into(acc, p) + ":"@, self.term_of(p.ty))
    }

    pub open spec fn pat_kind_into(&self, acc: Seq<char>, p: &Pattern) -> Seq<char>
        decreases p, 0nat,
    {
        match &p.kind {
            PatternKind::Wildcard => acc + "_"@,
            PatternKind::Binding(m, ident) => self.name_into(
                if m is Mut {
                    acc + "mut "@
                } else {
                    acc
                },
                ident.symbol,
            ),
            PatternKind::Field(fps) => self.field_pats_into(acc + "{"@, fps@, 0) + "}"@,
            PatternKind::Lit(e) => self.expr_into(acc, &**e),
            PatternKind::Variant(a, v, pats) => self.pats_into(
                acc + "(variant "@ + decimal_usize(a.0) + " "@ + decimal_usize(v.0),
                pats@,
                0,
            ) + ")"@,
        }
    }

    pub open spec fn pats_into(&self, acc: Seq<char>, ps: Seq<Pattern>, i: nat) -> Seq<char>
        decreases ps, ps.len() - i,
    {
        if i >= ps.len() {
            acc
        } else {
            self.pats_into(self.pat_into(acc + " "@, &ps[i as int]), ps, i + 1)
        }
    }

    pub open spec fn field_pats_into(&self, acc: Seq<char>, fps: Seq<crate::tir::FieldPat>, i: nat) -> Seq<
        char,
    >
        decreases fps, fps.len() - i,
    {
        if i >= fps.len() {
            acc
        } else {
            self.field_pats_into(
                self.pat_into(acc + " "@ + decimal_usize(fps[i as int].field.0) + "="@, &fps[i as int].pat),
                fps,
                i + 1,
            )
        }
    }

    /// The text with a block behind it, in braces.
    pub open spec fn block_into(&self, acc: Seq<char>, b: &Block) -> Seq<char>
        decreases b, 0nat,
    {
        let with_stmts = self.stmts_into(acc + "{"@, b.stmts@, 0);
        match &b.expr {
            Some(x) => self.expr_into(with_stmts + " "@, x) + " }"@,
            None => with_stmts + " }"@,
        }
    }

    pub open spec fn stmts_into(&self, acc: Seq<char>, ss: Seq<Stmt>, i: nat) -> Seq<char>
        decreases ss, ss.len() - i,
    {
        if i >= ss.len() {
            acc
        } else {
            self.stmts_into(self.stmt_into(acc + " "@, &ss[i as int]), ss, i + 1)
        }
    }

    /// The text with a statement behind it: a `let` as
    /// `let <pattern> = <expression>;`, an expression with a semicolon.
    pub open spec fn stmt_into(&self, acc: Seq<char>, s: &Stmt) -> Seq<char>
        decreases s, 0nat,
    {
        match &s.kind {
            StmtKind::Let(l) => {
                let with_pat = self.pat_into(acc + "let "@, &l.pat);
                match &l.init {
                    Some(x) => self.expr_into(with_pat + " = "@, x) + ";"@,
                    None => with_pat + ";"@,
                }
            },
            StmtKind::Expr(x) => self.expr_into(acc, x) + ";"@,
        }
    }
}

impl<'a> Formatter<'a> {
    pub fn new(tcx: &'a TyCtx, names: &'a Interner) -> (f: Formatter<'a>)
        ensures
            f.tcx == tcx,
            f.names == names,
    {
        Formatter { tcx, names }
    }

    pub fn fmt_name(&self, out: &mut String, sym: Symbol)
        ensures
            final(out)@ == self.name_into(old(out)@, sym),
    {
        if sym.0 < self.names.len() {
            out.append(self.names.get(sym));
        } else {
            out.append("?");
        }
    }

    /// Writes a type.
    pub fn fmt_ty(&self, out: &mut String, t: Ty)
        requires
            self.tcx.wf(),
            self.tcx.has(t),
        ensures
            final(out)@ == self.ty_into(old(out)@, self.tcx.term(t)),
        decreases t.0, 1nat,
    {
        proof {
            self.tcx.lemma_args_valid(t);
        }
        let args = crate::ty::store::copy_tys(self.tcx.args(t));
        match self.tcx.con(t) {
            TyCon::Bool => out.append("bool"),
            TyCon::Char => out.append("char"),
            TyCon::Float => out.append("float"),
            TyCon::Int => out.append("number"),
            TyCon::Discr => out.append("discr"),
            TyCon::Error => out.append("err"),
            TyCon::Never => out.append("!"),
            TyCon::Array(n) => {
                out.append("[");
                self.fmt_tys(out, &args, Ghost(t.0));
                out.append(";");
                push_usize(out, n);
                out.append("]");
            },
            TyCon::Fn => {
                if args.len() >= 1 {
                    let mut params = args;
                    let ghost all = params@;
                    let ret = params.pop().unwrap();
                    proof {
                        assert(params@ =~= all.drop_last());
                        assert(self.tcx.terms(params@) =~= self.tcx.term(t).args.drop_last());
                        assert(self.tcx.term(ret) == self.tcx.term(t).args.last());
                    }
                    out.append("fn(");
                    self.fmt_tys(out, &params, Ghost(t.0));
                    out.append(")->");
                    self.fmt_ty(out, ret);
                } else {
                    out.append("fn");
                }
            },
            TyCon::FnDef(def) => {
                out.append("fn#");
                push_usize(out, def.0);
                out.append("<");
                self.fmt_tys(out, &args, Ghost(t.0));
                out.append(">");
            },
            TyCon::Tuple => {
                out.append("(");
                self.fmt_tys(out, &args, Ghost(t.0));
                out.append(")");
            },
            TyCon::Infer(InferTy::TyVar(v)) => {
                out.append("?");
                push_usize(out, v.0);
            },
            TyCon::Param(p) => {
                out.append("T");
                push_usize(out, p.idx.0);
            },
            TyCon::Adt(a) => {
                if a.0 < self.tcx.adt_count() {
                    self.fmt_name(out, self.tcx.adt(a).ident.symbol);
                } else {
                    out.append("?");
                }
                if args.len() > 0 {
                    out.append("<");
                    self.fmt_tys(out, &args, Ghost(t.0));
                    out.append(">");
                }
            },
            TyCon::Scheme(f) => {
                out.append("forall<");
                push_usize(out, f.binders);
                out.append(">.");
                self.fmt_tys(out, &args, Ghost(t.0));
            },
            TyCon::Box => {
                out.append("box<");
                self.fmt_tys(out, &args, Ghost(t.0));
                out.append(">");
            },
            TyCon::Ptr => {
                out.append("&");
                self.fmt_tys(out, &args, Ghost(t.0));
            },
        }
    }

    /// Writes a list of types, commas between them.
    pub fn fmt_tys(&self, out: &mut String, ts: &Vec<Ty>, Ghost(bound): Ghost<usize>)
        requires
            self.tcx.wf(),
            self.tcx.has_all(ts@),
            forall|i: int| 0 <= i < ts@.len() ==> (#[trigger] ts@[i]).0 < bound,
        ensures
            final(out)@ == self.tys_into(old(out)@, self.tcx.terms(ts@), 0),
        decreases bound, 0nat,
    {
        let ghost terms = self.tcx.terms(ts@);
        let ghost total = self.tys_into(out@, terms, 0);
        let mut i: usize = 0;
        while i < ts.len()
            invariant
                i <= ts.len(),
                self.tcx.wf(),
                self.tcx.has_all(ts@),
                terms == self.tcx.terms(ts@),
                forall|k: int| 0 <= k < ts@.len() ==> (#[trigger] ts@[k]).0 < bound,
                total == self.tys_into(out@, terms, i as nat),
            decreases ts.len() - i,
        {
            if i > 0 {
                out.append(",");
            }
            proof {
                assert(terms[i as int] == self.tcx.term(ts@[i as int]));
            }
            self.fmt_ty(out, ts[i]);
            i += 1;
        }
    }

    /// Writes the type of a node.
    pub fn fmt_node_ty(&self, out: &mut String, t: Ty)
        requires
            self.tcx.wf(),
        ensures
            final(out)@ == self.ty_into(old(out)@, self.term_of(t)),
    {
        if self.tcx.contains(t) {
            self.fmt_ty(out, t);
        } else {
            out.append("err");
        }
    }

    pub fn fmt_lit(&self, out: &mut String, l: Lit)
        ensures
            final(out)@ == self.lit_into(old(out)@, l),
    {
        match l {
            Lit::Int(i) => push_i64(out, i),
            Lit::Bool(b) => {
                if b {
                    out.append("1");
                } else {
                    out.append("0");
                }
            },
            Lit::Float(bits) => {
                out.append("f");
                push_usize(out, bits as usize);
            },
        }
    }

    /// Writes an expression, its type behind it.
    pub fn fmt_expr(&self, out: &mut String, e: &Expr)
        requires
            self.tcx.wf(),
        ensures
            final(out)@ == self.expr_into(old(out)@, e),
        decreases e, 1nat,
    {
        self.fmt_kind(out, e);
        out.append(":");
        self.fmt_node_ty(out, e.ty);
    }

    #[verifier::loop_isolation(false)]
    pub fn fmt_kind(&self, out: &mut String, e: &Expr)
        requires
            self.tcx.wf(),
        ensures
            final(out)@ == self.kind_into(old(out)@, e),
        decreases e, 0nat,
    {
        match &e.kind {
            ExprKind::Lit(l) => self.fmt_lit(out, *l),
            ExprKind::Bin(op, l, r) => {
                out.append("(");
                out.append(binop_text(*op));
                out.append(" ");
                self.fmt_expr(out, &**l);
                out.append(" ");
                self.fmt_expr(out, &**r);
                out.append(")");
            },
            ExprKind::Unary(op, x) => {
                out.append("(");
                out.append(unop_text(*op));
                out.append(" ");
                self.fmt_expr(out, &**x);
                out.append(")");
            },
            ExprKind::Block(b) => self.fmt_block(out, &**b),
            ExprKind::VarRef(_, ident) => self.fmt_name(out, ident.symbol),
            ExprKind::ItemRef(def) => {
                out.append("#");
                push_usize(out, def.0);
            },
            ExprKind::Tuple(xs) => {
                out.append("(tup");
                self.fmt_exprs(out, xs);
                out.append(")");
            },
            ExprKind::Closure(body) => {
                out.append("(\u{3bb}(");
                let ghost start = out@;
                let mut i: usize = 0;
                while i < body.params.len()
                    invariant
                        i <= body.params.len(),
                        self.params_into(start, body.params@, 0) == self.params_into(
                            out@,
                            body.params@,
                            i as nat,
                        ),
                    decreases body.params.len() - i,
                {
                    if i > 0 {
                        out.append(", ");
                    }
                    self.fmt_pat(out, &body.params[i].pat);
                    i += 1;
                }
                out.append(") ");
                self.fmt_expr(out, &body.expr);
                out.append(")");
            },
            ExprKind::Call(f, args) => {
                out.append("(");
                self.fmt_expr(out, &**f);
                self.fmt_exprs(out, args);
                out.append(")");
            },
            ExprKind::Match(s, arms) => {
                out.append("(match ");
                self.fmt_expr(out, &**s);
                let ghost start = out@;
                let mut i: usize = 0;
                while i < arms.len()
                    invariant
                        i <= arms.len(),
                        self.arms_into(start, arms@, 0) == self.arms_into(out@, arms@, i as nat),
                    decreases arms.len() - i,
                {
                    out.append(" ");
                    self.fmt_pat(out, &arms[i].pat);
                    out.append(" => ");
                    self.fmt_expr(out, &arms[i].body);
                    i += 1;
                }
                out.append(")");
            },
            ExprKind::Assign(l, r) => {
                out.append("(= ");
                self.fmt_expr(out, &**l);
                out.append(" ");
                self.fmt_expr(out, &**r);
                out.append(")");
            },
            ExprKind::Field(base, idx) => {
                out.append("(. ");
                self.fmt_expr(out, &**base);
                out.append(" ");
                push_usize(out, idx.0);
                out.append(")");
            },
            ExprKind::Adt(a, v, fields) => {
                out.append("(adt ");
                push_usize(out, a.0);
                out.append(" ");
                push_usize(out, v.0);
                let ghost start = out@;
                let mut i: usize = 0;
                while i < fields.len()
                    invariant
                        i <= fields.len(),
                        self.fields_into(start, fields@, 0) == self.fields_into(
                            out@,
                            fields@,
                            i as nat,
                        ),
                    decreases fields.len() - i,
                {
                    out.append(" ");
                    push_usize(out, fields[i].index.0);
                    out.append("=");
                    self.fmt_expr(out, &fields[i].expr);
                    i += 1;
                }
                out.append(")");
            },
            ExprKind::Ret(opt) => match opt {
                Some(x) => {
                    out.append("(ret ");
                    self.fmt_expr(out, &**x);
                    out.append(")");
                },
                None => out.append("(ret)"),
            },
            ExprKind::Box(x) => {
                out.append("(box ");
                self.fmt_expr(out, &**x);
                out.append(")");
            },
            ExprKind::Ref(x) => {
                out.append("(& ");
                self.fmt_expr(out, &**x);
                out.append(")");
            },
            ExprKind::Deref(x) => {
                out.append("(* ");
                self.fmt_expr(out, &**x);
                out.append(")");
            },
        }
    }

    /// Writes a list of expressions, a blank before each.
    #[verifier::loop_isolation(false)]
    pub fn fmt_exprs(&self, out: &mut String, es: &Vec<Expr>)
        requires
            self.tcx.wf(),
        ensures
            final(out)@ == self.exprs_into(old(out)@, es@, 0),
        decreases es@, 0nat,
    {
        let mut i: usize = 0;
        while i < es.len()
            invariant
                i <= es.len(),
                self.exprs_into(old(out)@, es@, 0) == self.exprs_into(out@, es@, i as nat),
            decreases es.len() - i,
        {
            out.append(" ");
            self.fmt_expr(out, &es[i]);
            i += 1;
        }
    }

    /// Writes a pattern, its type behind it.
    pub fn fmt_pat(&self, out: &mut String, p: &Pattern)
        requires
            self.tcx.wf(),
        ensures
            final(out)@ == self.pat_into(old(out)@, p),
        decreases p, 1nat,
    {
        self.fmt_pat_kind(out, p);
        out.append(":");
        self.fmt_node_ty(out, p.ty);
    }

    #[verifier::loop_isolation(false)]
    pub fn fmt_pat_kind(&self, out: &mut String, p: &Pattern)
        requires
            self.tcx.wf(),
        ensures
            final(out)@ == self.pat_kind_into(old(out)@, p),
        decreases p, 0nat,
    {
        match &p.kind {
            PatternKind::Wildcard => out.append("_"),
            PatternKind::Binding(m, ident) => {
                match m {
                    crate::ast::Mutability::Mut => out.append("mut "),
                    crate::ast::Mutability::Imm => {},
                }
                self.fmt_name(out, ident.symbol);
            },
            PatternKind::Field(fps) => {
                out.append("{");
                let ghost start = out@;
                let mut i: usize = 0;
                while i < fps.len()
                    invariant
                        i <= fps.len(),
                        self.field_pats_into(start, fps@, 0) == self.field_pats_into(
                            out@,
                            fps@,
                            i as nat,
                        ),
                    decreases fps.len() - i,
                {
                    out.append(" ");
                    push_usize(out, fps[i].field.0);
                    out.append("=");
                    self.fmt_pat(out, &fps[i].pat);
                    i += 1;
                }
                out.append("}");
            },
            PatternKind::Lit(e) => self.fmt_expr(out, &**e),
            PatternKind::Variant(a, v, pats) => {
                out.append("(variant ");
                push_usize(out, a.0);
                out.append(" ");
                push_usize(out, v.0);
                let ghost start = out@;
                let mut i: usize = 0;
                while i < pats.len()
                    invariant
                        i <= pats.len(),
                        self.pats_into(start, pats@, 0) == self.pats_into(out@, pats@, i as nat),
                    decreases pats.len() - i,
                {
                    out.append(" ");
                    self.fmt_pat(out, &pats[i]);
                    i += 1;
                }
                out.append(")");
            },
        }
    }

    /// Writes a block.
    #[verifier::loop_isolation(false)]
    pub fn fmt_block(&self, out: &mut String, b: &Block)
        requires
            self.tcx.wf(),
        ensures
            final(out)@ == self.block_into(old(out)@, b),
        decreases b, 0nat,
    {
        out.append("{");
        let ghost start = out@;
        let mut i: usize = 0;
        while i < b.stmts.len()
            invariant
                i <= b.stmts.len(),
                self.stmts_into(start, b.stmts@, 0) == self.stmts_into(out@, b.stmts@, i as nat),
            decreases b.stmts.len() - i,
        {
            out.append(" ");
            self.fmt_stmt(out, &b.stmts[i]);
            i += 1;
        }
        match &b.expr {
            Some(x) => {
                out.append(" ");
                self.fmt_expr(out, x);
                out.append(" }");
            },
            None => out.append(" }"),
        }
    }

    /// Writes a statement.
    pub fn fmt_stmt(&self, out: &mut String, s: &Stmt)
        requires
            self.tcx.wf(),
        ensures
            final(out)@ == self.stmt_into(old(out)@, s),
        decreases s, 0nat,
    {
        match &s.kind {
            StmtKind::Let(l) => {
                out.append("let ");
                self.fmt_pat(out, &l.pat);
                match &l.init {
                    Some(x) => {
                        out.append(" = ");
                        self.fmt_expr(out, x);
                        out.append(";");
                    },
                    None => out.append(";"),
                }
            },
            StmtKind::Expr(x) => {
                self.fmt_expr(out, x);
                out.append(";");
            },
        }
    }

    /// The statements of a block, one line each, and the final expression
    /// of the block as the last line.
    pub fn block_lines(&self, b: &Block) -> (lines: Vec<String>)
        requires
            self.tcx.wf(),
        ensures
            lines@.len() == b.stmts@.len() + (if b.expr is Some {
                1int
            } else {
                0int
            }),
            forall|i: int|
                0 <= i < b.stmts@.len() ==> (#[trigger] lines@[i])@ == self.stmt_into(
                    Seq::empty(),
                    &b.stmts@[i],
                ),
            b.expr matches Some(x) ==> lines@[b.stmts@.len() as int]@ == self.expr_into(
                Seq::empty(),
                &x,
            ),
    {
        let mut lines: Vec<String> = Vec::new();
        let mut i: usize = 0;
        while i < b.stmts.len()
            invariant
                i <= b.stmts.len(),
                lines@.len() == i,
                self.tcx.wf(),
                forall|j: int|
                    0 <= j < i ==> (#[trigger] lines@[j])@ == self.stmt_into(
                        Seq::empty(),
                        &b.stmts@[j],
                    ),
            decreases b.stmts.len() - i,
        {
            let mut line = String::new();
            self.fmt_stmt(&mut line, &b.stmts[i]);
            lines.push(line);
            i += 1;
        }
        match &b.expr {
            Some(x) => {
                let mut line = String::new();
                self.fmt_expr(&mut line, x);
                lines.push(line);
            },
            None => {},
        }
        lines
    }
}

} // verus!
