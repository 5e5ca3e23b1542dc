use std::collections::HashMap;

use lcore::ast::{BinOp, Ident, Lit, Mutability, Visibility};
use lcore::index::{DefId, FieldIdx, LocalId, ParamIdx, Symbol, VariantIdx};
use lcore::indexed::Variants;
use lcore::infer::InferCtx;
use lcore::ir;
use lcore::ir::{DefKind, PrimTy, Res};
use lcore::list::List;
use lcore::lowering::{IrLoweringCtx, LoweringError};
use lcore::mir;
use lcore::mir::build::build_fn;
use lcore::mir::{ConstKind, MirError, Operand, Projection, Rvalue, StmtKind, TerminatorKind, VarKind};
use lcore::span::{FileIdx, Span};
use lcore::symbol::Interner;
use lcore::tir;
use lcore::tir_fmt::Formatter;
use lcore::ty::{
    AdtId, AdtKind, CtorKind, Diagnostic, FieldTy, Forall, Ty, TyCtx, TypeError, VariantTy,
};
use lcore::typeck::collect::{check_item, collect_item, type_item, typeck};
use lcore::typeck::prog::{collect, run_typeck};
use lcore::typeck::fcx::FnCtx;

// ---------------------------------------------------------------------
// building resolved trees by hand
// ---------------------------------------------------------------------

fn sp() -> Span {
    Span::new(FileIdx(0), 0, 0)
}

fn at(lo: usize, hi: usize) -> Span {
    Span::new(FileIdx(0), lo, hi)
}

/// Hands out the identities of the nodes of one item.
struct Gen {
    def: usize,
    next: usize,
}

impl Gen {
    fn new(def: usize) -> Gen {
        Gen { def, next: 0 }
    }

    fn id(&mut self) -> ir::Id {
        let id = ir::Id { def: DefId(self.def), local: LocalId(self.next) };
        self.next += 1;
        id
    }

    fn expr(&mut self, kind: ir::ExprKind) -> ir::Expr {
        ir::Expr { span: sp(), id: self.id(), kind }
    }

    fn int_lit(&mut self, i: i64) -> ir::Expr {
        self.expr(ir::ExprKind::Lit(Lit::Int(i)))
    }

    fn bool_lit(&mut self, b: bool) -> ir::Expr {
        self.expr(ir::ExprKind::Lit(Lit::Bool(b)))
    }

    fn float_lit(&mut self, f: f64) -> ir::Expr {
        self.expr(ir::ExprKind::Lit(Lit::Float(f.to_bits())))
    }

    fn path(&mut self, res: Res, name: Ident) -> ir::Path {
        ir::Path {
            span: sp(),
            res,
            segments: vec![ir::PathSegment { ident: name, id: self.id(), args: None }],
        }
    }

    fn local(&mut self, binder: &ir::Pattern, name: Ident) -> ir::Expr {
        let p = self.path(Res::Local(binder.id), name);
        self.expr(ir::ExprKind::Path(p))
    }

    fn local_id(&mut self, id: ir::Id, name: Ident) -> ir::Expr {
        let p = self.path(Res::Local(id), name);
        self.expr(ir::ExprKind::Path(p))
    }

    fn item(&mut self, def: usize, kind: DefKind, name: Ident) -> ir::Expr {
        let p = self.path(Res::Def(DefId(def), kind), name);
        self.expr(ir::ExprKind::Path(p))
    }

    fn bin(&mut self, op: BinOp, l: ir::Expr, r: ir::Expr) -> ir::Expr {
        self.expr(ir::ExprKind::Bin(op, Box::new(l), Box::new(r)))
    }

    fn call(&mut self, f: ir::Expr, args: Vec<ir::Expr>) -> ir::Expr {
        self.expr(ir::ExprKind::Call(Box::new(f), args))
    }

    fn tuple(&mut self, xs: Vec<ir::Expr>) -> ir::Expr {
        self.expr(ir::ExprKind::Tuple(xs))
    }

    fn block(&mut self, stmts: Vec<ir::Stmt>, expr: Option<ir::Expr>) -> ir::Block {
        ir::Block { id: self.id(), span: sp(), stmts, expr, is_unsafe: false }
    }

    fn block_expr(&mut self, stmts: Vec<ir::Stmt>, expr: Option<ir::Expr>) -> ir::Expr {
        let b = self.block(stmts, expr);
        self.expr(ir::ExprKind::Block(Box::new(b)))
    }

    fn pat(&mut self, kind: ir::PatternKind) -> ir::Pattern {
        ir::Pattern { id: self.id(), span: sp(), kind }
    }

    fn bind(&mut self, name: Ident) -> ir::Pattern {
        self.pat(ir::PatternKind::Binding(name, Mutability::Imm))
    }

    fn wildcard(&mut self) -> ir::Pattern {
        self.pat(ir::PatternKind::Wildcard)
    }

    fn lit_pat(&mut self, e: ir::Expr) -> ir::Pattern {
        self.pat(ir::PatternKind::Lit(Box::new(e)))
    }

    fn let_stmt(&mut self, pat: ir::Pattern, init: Option<ir::Expr>) -> ir::Stmt {
        let l = ir::Let { id: self.id(), span: sp(), pat, ty: None, init };
        ir::Stmt { id: self.id(), span: sp(), kind: ir::StmtKind::Let(l) }
    }

    fn semi(&mut self, e: ir::Expr) -> ir::Stmt {
        ir::Stmt { id: self.id(), span: sp(), kind: ir::StmtKind::Semi(e) }
    }

    fn arm(&mut self, pat: ir::Pattern, body: ir::Expr) -> ir::Arm {
        ir::Arm { id: self.id(), span: sp(), pat, body }
    }

    fn match_expr(&mut self, scrut: ir::Expr, arms: Vec<ir::Arm>) -> ir::Expr {
        self.expr(ir::ExprKind::Match(Box::new(scrut), arms, ir::MatchSource::Match))
    }

    /// `if c { a } else { b }`, as the front end hands it on: a match of
    /// the condition against `true` and against anything.
    fn if_expr(&mut self, cond: ir::Expr, thn: ir::Expr, els: ir::Expr) -> ir::Expr {
        let t = self.bool_lit(true);
        let pat_a = self.lit_pat(t);
        let arm_a = self.arm(pat_a, thn);
        let pat_b = self.wildcard();
        let arm_b = self.arm(pat_b, els);
        self.expr(ir::ExprKind::Match(Box::new(cond), vec![arm_a, arm_b], ir::MatchSource::If))
    }

    fn ty(&mut self, kind: ir::TyKind) -> ir::Ty {
        ir::Ty { span: sp(), id: self.id(), kind }
    }

    fn prim(&mut self, p: PrimTy) -> ir::Ty {
        let path = ir::Path { span: sp(), res: Res::PrimTy(p), segments: vec![] };
        self.ty(ir::TyKind::Path(path))
    }

    fn infer(&mut self) -> ir::Ty {
        self.ty(ir::TyKind::Infer)
    }

    fn param(&mut self, pat: ir::Pattern) -> ir::Param {
        ir::Param { span: sp(), id: self.id(), pat }
    }

    /// `fn(<params>) => <body>`: no type is written, all are to infer.
    fn lambda(&mut self, params: Vec<ir::Pattern>, body: ir::Expr) -> ir::Expr {
        let mut inputs = Vec::new();
        let mut ps = Vec::new();
        for p in params {
            inputs.push(self.infer());
            ps.push(self.param(p));
        }
        let output = Some(self.infer());
        let sig = ir::FnSig { inputs, output };
        let body = ir::Body { params: ps, expr: body };
        self.expr(ir::ExprKind::Closure(sig, Box::new(body)))
    }
}

fn name(names: &mut Interner, s: &str) -> Ident {
    Ident { span: sp(), symbol: names.intern(s) }
}

fn no_generics() -> ir::Generics {
    ir::Generics { span: sp(), params: vec![] }
}

fn fn_item(def: usize, ident: Ident, sig: ir::FnSig, body: ir::Body) -> ir::Item {
    ir::Item {
        span: sp(),
        id: ir::Id { def: DefId(def), local: LocalId(0) },
        vis: Visibility::Private,
        ident,
        kind: ir::ItemKind::Fn(sig, no_generics(), body),
    }
}

fn body_of(item: &ir::Item) -> &ir::Body {
    match &item.kind {
        ir::ItemKind::Fn(_, _, body) => body,
        _ => panic!("no function"),
    }
}

// ---------------------------------------------------------------------
// declaring structs and enums
// ---------------------------------------------------------------------

fn variants_of(list: Vec<VariantTy>) -> Variants {
    let mut variants = Variants::new();
    for (i, v) in list.into_iter().enumerate() {
        assert_eq!(variants.push(v), VariantIdx(i));
    }
    variants
}

/// The blocks of a body, in their order.
fn blocks(body: &mir::Body) -> Vec<&mir::BasicBlock> {
    (0..body.basic_blocks.len()).map(|i| body.basic_blocks.get(mir::BlockId(i))).collect()
}

/// The variables of a body, in their order.
fn vars(body: &mir::Body) -> Vec<mir::Var> {
    (0..body.vars.len()).map(|i| body.vars.get(mir::VarId(i))).collect()
}

fn declare_struct(
    tcx: &mut TyCtx,
    def: usize,
    ident: Ident,
    fields: Vec<(Ident, Ty)>,
) -> (AdtId, Vec<Diagnostic>) {
    let fields = fields
        .into_iter()
        .map(|(ident, ty)| FieldTy { def_id: DefId(def), ident, vis: Visibility::Public, ty })
        .collect();
    let variant = VariantTy { ctor: None, ident, fields, ctor_kind: CtorKind::Struct };
    let (adt, errors) = tcx.mk_adt(DefId(def), AdtKind::Struct, ident, variants_of(vec![variant]));
    let adt_ty = tcx.mk_adt_ty(adt, vec![]);
    let scheme = tcx.mk_ty_scheme(Forall { binders: 0 }, adt_ty);
    tcx.collect_ty(DefId(def), scheme);
    let unit = tcx.types().unit;
    tcx.cache_generics(DefId(def), unit);
    (adt, errors)
}

/// Declares an enum of tuple and unit variants; the definition of the
/// constructor of variant `i` is `def + 1 + i`.
fn declare_enum(tcx: &mut TyCtx, def: usize, ident: Ident, variants: Vec<(Ident, Vec<Ty>)>) -> AdtId {
    let mut descrs = Vec::new();
    for (i, (vident, tys)) in variants.iter().enumerate() {
        let fields: Vec<FieldTy> = tys
            .iter()
            .map(|ty| FieldTy { def_id: DefId(def), ident: *vident, vis: Visibility::Public, ty: *ty })
            .collect();
        let kind = if tys.is_empty() { CtorKind::Unit } else { CtorKind::Tuple };
        descrs.push(VariantTy {
            ctor: Some(DefId(def + 1 + i)),
            ident: *vident,
            fields,
            ctor_kind: kind,
        });
    }
    let (adt, _) = tcx.mk_adt(DefId(def), AdtKind::Enum, ident, variants_of(descrs));
    let adt_ty = tcx.mk_adt_ty(adt, vec![]);
    let scheme = tcx.mk_ty_scheme(Forall { binders: 0 }, adt_ty);
    tcx.collect_ty(DefId(def), scheme);
    for (i, (_, tys)) in variants.iter().enumerate() {
        let ctor_ty = if tys.is_empty() { adt_ty } else { tcx.mk_fn_ty(tys.clone(), adt_ty) };
        let scheme = tcx.mk_ty_scheme(Forall { binders: 0 }, ctor_ty);
        tcx.collect_ty(DefId(def + 1 + i), scheme);
    }
    adt
}

// ---------------------------------------------------------------------
// running the stages
// ---------------------------------------------------------------------

/// A program that went through every stage, ready to run.
struct Program {
    tcx: TyCtx,
    bodies: HashMap<usize, mir::Body>,
    /// constructor -> (variant, number of fields)
    ctors: HashMap<usize, (usize, usize)>,
}

fn compile(tcx: TyCtx, names: &Interner, items: Vec<ir::Item>, ctors: HashMap<usize, (usize, usize)>) -> Program {
    let prog = ir::Ir { items };
    let typed = run_typeck(tcx, names, &prog);
    assert!(typed.errors.is_empty(), "collection complained: {:?}", typed.errors);
    let mut bodies = HashMap::new();
    for (i, item) in prog.items.iter().enumerate() {
        let checked = &typed.checked[i];
        assert!(checked.errors.is_empty(), "checking complained: {:?}", checked.errors);
        let body = match &typed.items[i] {
            Some(tir::Item { kind: tir::ItemKind::Fn(_, body), .. }) => body,
            _ => panic!("no typed function"),
        };
        let built = build_fn(&typed.tcx, body).unwrap();
        bodies.insert(item.id.def.0, built);
    }
    Program { tcx: typed.tcx, bodies, ctors }
}

// ---------------------------------------------------------------------
// a reference machine for the control-flow graph
// ---------------------------------------------------------------------

#[derive(Clone, Debug, PartialEq)]
enum Val {
    Uninit,
    Unit,
    Int(i64),
    Bool(bool),
    Float(u64),
    Tuple(Vec<Val>),
    Boxed(Box<Val>),
    Item(usize),
}

struct Machine<'a> {
    program: &'a Program,
    retained: Vec<usize>,
    released: Vec<usize>,
}

fn operands(list: &List<Operand>) -> Vec<&Operand> {
    let mut out = Vec::new();
    let mut cur = list;
    while let List::Cons(x, rest) = cur {
        out.push(x);
        cur = rest;
    }
    out
}

fn projections(list: &List<Projection>) -> Vec<Projection> {
    let mut out = Vec::new();
    let mut cur = list;
    while let List::Cons(x, rest) = cur {
        out.push(*x);
        cur = rest;
    }
    out
}

impl<'a> Machine<'a> {
    fn new(program: &'a Program) -> Machine<'a> {
        Machine { program, retained: Vec::new(), released: Vec::new() }
    }

    fn read(&self, vars: &[Val], lvalue: &mir::Lvalue) -> Val {
        let mut v = vars[lvalue.id.0].clone();
        for p in projections(&lvalue.projs) {
            v = match (p, v) {
                (Projection::Field(FieldIdx(i), _), Val::Tuple(xs)) => xs[i].clone(),
                (Projection::Deref, Val::Boxed(x)) => *x,
                (p, v) => panic!("cannot project {:?} out of {:?}", p, v),
            };
        }
        v
    }

    fn write(&self, vars: &mut [Val], lvalue: &mir::Lvalue, val: Val) {
        let projs = projections(&lvalue.projs);
        let mut slot = &mut vars[lvalue.id.0];
        for p in projs {
            slot = match (p, slot) {
                (Projection::Field(FieldIdx(i), _), Val::Tuple(xs)) => &mut xs[i],
                (Projection::Deref, Val::Boxed(x)) => &mut **x,
                (p, _) => panic!("cannot project {:?}", p),
            };
        }
        *slot = val;
    }

    fn operand(&self, vars: &[Val], op: &Operand) -> Val {
        match op {
            Operand::Const(c) => match c.kind {
                ConstKind::Int(i) => Val::Int(i),
                ConstKind::Bool(b) => Val::Bool(b),
                ConstKind::Float(bits) => Val::Float(bits),
                ConstKind::Discr(v) => Val::Int(v.0 as i64),
                ConstKind::Unit => Val::Unit,
            },
            Operand::Lvalue(l) => self.read(vars, l),
            Operand::Item(def, _) => match self.program.ctors.get(&def.0) {
                Some((variant, 0)) => Val::Tuple(vec![Val::Int(*variant as i64)]),
                _ => Val::Item(def.0),
            },
        }
    }

    fn rvalue(&self, vars: &[Val], rv: &Rvalue) -> Val {
        match rv {
            Rvalue::Use(op) => self.operand(vars, op),
            Rvalue::Bin(op, a, b) => {
                let a = self.operand(vars, a);
                let b = self.operand(vars, b);
                match (op, a, b) {
                    (BinOp::Add, Val::Int(x), Val::Int(y)) => Val::Int(x + y),
                    (BinOp::Sub, Val::Int(x), Val::Int(y)) => Val::Int(x - y),
                    (BinOp::Mul, Val::Int(x), Val::Int(y)) => Val::Int(x * y),
                    (BinOp::Div, Val::Int(x), Val::Int(y)) => Val::Int(x / y),
                    (BinOp::Lt, Val::Int(x), Val::Int(y)) => Val::Bool(x < y),
                    (BinOp::Gt, Val::Int(x), Val::Int(y)) => Val::Bool(x > y),
                    (BinOp::Eq, x, y) => Val::Bool(x == y),
                    (BinOp::Neq, x, y) => Val::Bool(x != y),
                    (BinOp::And, Val::Bool(x), Val::Bool(y)) => Val::Bool(x && y),
                    (BinOp::Or, Val::Bool(x), Val::Bool(y)) => Val::Bool(x || y),
                    (op, x, y) => panic!("cannot apply {:?} to {:?} and {:?}", op, x, y),
                }
            }
            Rvalue::Unary(_, _) => panic!("no unary operators in these programs"),
            Rvalue::Tuple(ops) => {
                Val::Tuple(operands(ops).into_iter().map(|o| self.operand(vars, o)).collect())
            }
            Rvalue::Adt(adt, variant, _, ops) => {
                let mut fields: Vec<Val> =
                    operands(ops).into_iter().map(|o| self.operand(vars, o)).collect();
                match self.program.tcx.adt(*adt).kind {
                    AdtKind::Struct => Val::Tuple(fields),
                    AdtKind::Enum => {
                        let mut all = vec![Val::Int(variant.0 as i64)];
                        all.append(&mut fields);
                        Val::Tuple(all)
                    }
                }
            }
            Rvalue::Discriminant(l) => match self.read(vars, l) {
                Val::Tuple(xs) => xs[0].clone(),
                v => panic!("no discriminant in {:?}", v),
            },
            Rvalue::Box(op) => Val::Boxed(Box::new(self.operand(vars, op))),
            Rvalue::Ref(l) => self.read(vars, l),
        }
    }

    fn call(&mut self, def: usize, args: Vec<Val>) -> Val {
        if let Some((variant, _)) = self.program.ctors.get(&def) {
            let mut all = vec![Val::Int(*variant as i64)];
            all.extend(args);
            return Val::Tuple(all);
        }
        let body = &self.program.bodies[&def];
        let declared = vars(body);
        let mut vars = vec![Val::Uninit; declared.len()];
        let mut next_arg = 0;
        for (i, var) in declared.iter().enumerate() {
            if var.kind == VarKind::Arg {
                vars[i] = args[next_arg].clone();
                next_arg += 1;
            }
        }
        assert_eq!(next_arg, args.len());
        assert_eq!(body.argc, args.len());
        let mut block = 0;
        loop {
            let bb = body.basic_blocks.get(mir::BlockId(block));
            for stmt in &bb.stmts {
                match &stmt.kind {
                    StmtKind::Assign(l, rv) => {
                        let v = self.rvalue(&vars, rv);
                        self.write(&mut vars, l, v);
                    }
                    StmtKind::Retain(v) => self.retained.push(v.0),
                    StmtKind::Release(v) => self.released.push(v.0),
                }
            }
            match &bb.terminator.as_ref().expect("a block without terminator").kind {
                TerminatorKind::Branch(b) => block = b.0,
                TerminatorKind::Cond(op, t, f) => match self.operand(&vars, op) {
                    Val::Bool(true) => block = t.0,
                    Val::Bool(false) => block = f.0,
                    v => panic!("not a truth value: {:?}", v),
                },
                TerminatorKind::Return => return vars[0].clone(),
                TerminatorKind::Unreachable => panic!("reached the unreachable"),
                TerminatorKind::Call(f, args, dest, target) => {
                    let callee = match self.operand(&vars, f) {
                        Val::Item(d) => d,
                        v => panic!("not a function: {:?}", v),
                    };
                    let args = operands(args).into_iter().map(|o| self.operand(&vars, o)).collect();
                    let v = self.call(callee, args);
                    self.write(&mut vars, dest, v);
                    block = target.0;
                }
            }
        }
    }
}

fn run_main(program: &Program, main: usize) -> i64 {
    match Machine::new(program).call(main, vec![]) {
        Val::Int(i) => i,
        v => panic!("main handed back {:?}", v),
    }
}

const MAIN: usize = 100;

/// `fn main() -> int { <body> }`
fn main_item(names: &mut Interner, g: &mut Gen, body: ir::Expr) -> ir::Item {
    let output = Some(g.prim(PrimTy::Int));
    let ident = name(names, "main");
    fn_item(MAIN, ident, ir::FnSig { inputs: vec![], output }, ir::Body { params: vec![], expr: body })
}

// ---------------------------------------------------------------------
// pattern matching
// ---------------------------------------------------------------------

#[test]
fn llvm_struct_pattern_test() {
    // struct S { b: bool, x: int, y: int }
    // fn main() -> int { let s = S { x: 9, b: false, y: 7 }; let S { x, y } = s; x - y }
    let mut names = Interner::new();
    let mut tcx = TyCtx::new();
    let types = tcx.types();
    let s_name = name(&mut names, "S");
    let (b, x, y) = (name(&mut names, "b"), name(&mut names, "x"), name(&mut names, "y"));
    let (_, errors) =
        declare_struct(&mut tcx, 1, s_name, vec![(b, types.bool), (x, types.int), (y, types.int)]);
    assert!(errors.is_empty());

    let mut g = Gen::new(MAIN);
    let field = |g: &mut Gen, ident: Ident, expr: ir::Expr| ir::Field { id: g.id(), span: sp(), ident, expr };
    let nine = g.int_lit(9);
    let no = g.bool_lit(false);
    let seven = g.int_lit(7);
    let fields = vec![field(&mut g, x, nine), field(&mut g, b, no), field(&mut g, y, seven)];
    let s_path = g.path(Res::Def(DefId(1), DefKind::Struct), s_name);
    let init = g.expr(ir::ExprKind::Struct(s_path, fields));
    let s_pat = g.bind(name(&mut names, "s"));
    let s_use = g.local(&s_pat, name(&mut names, "s"));
    let let_s = g.let_stmt(s_pat, Some(init));

    let x_pat = g.bind(x);
    let y_pat = g.bind(y);
    let x_use = g.local(&x_pat, x);
    let y_use = g.local(&y_pat, y);
    let fps = vec![
        ir::FieldPat { id: g.id(), span: sp(), ident: x, pat: x_pat },
        ir::FieldPat { id: g.id(), span: sp(), ident: y, pat: y_pat },
    ];
    let s_path = g.path(Res::Def(DefId(1), DefKind::Struct), s_name);
    let destructure = g.pat(ir::PatternKind::Struct(s_path, fps));
    let let_xy = g.let_stmt(destructure, Some(s_use));
    let diff = g.bin(BinOp::Sub, x_use, y_use);
    let body = g.block_expr(vec![let_s, let_xy], Some(diff));
    let main = main_item(&mut names, &mut g, body);

    let program = compile(tcx, &names, vec![main], HashMap::new());
    assert_eq!(run_main(&program, MAIN), 2);
}

/// `fn main() -> int { let <pat> = <callee>(); i }` and the callee beside it.
fn unpack_program(
    names: &mut Interner,
    pattern: impl FnOnce(&mut Gen, &mut Interner) -> (ir::Pattern, ir::Expr),
    callee_ty: impl FnOnce(&mut Gen) -> ir::Ty,
    callee_body: impl FnOnce(&mut Gen) -> ir::Expr,
) -> Vec<ir::Item> {
    let callee = 101;
    let callee_name = name(names, "mk");
    let mut g = Gen::new(MAIN);
    let (pat, result) = pattern(&mut g, names);
    let f = g.item(callee, DefKind::Fn, callee_name);
    let init = g.call(f, vec![]);
    let stmt = g.let_stmt(pat, Some(init));
    let body = g.block_expr(vec![stmt], Some(result));
    let main = main_item(names, &mut g, body);

    let mut h = Gen::new(callee);
    let output = Some(callee_ty(&mut h));
    let value = callee_body(&mut h);
    let body = h.block_expr(vec![], Some(value));
    let mk = fn_item(callee, callee_name, ir::FnSig { inputs: vec![], output }, ir::Body { params: vec![], expr: body });
    vec![main, mk]
}

#[test]
fn llvm_unpack_tuple_in_let() {
    // fn main() -> int { let (i, b) = mktuple(); i }
    // fn mktuple() -> (int, bool) { (30, true) }
    let mut names = Interner::new();
    let items = unpack_program(
        &mut names,
        |g, names| {
            let i = g.bind(name(names, "i"));
            let i_use = g.local(&i, name(names, "i"));
            let b = g.bind(name(names, "b"));
            (g.pat(ir::PatternKind::Tuple(vec![i, b])), i_use)
        },
        |h| {
            let int_ty = h.prim(PrimTy::Int);
            let bool_ty = h.prim(PrimTy::Bool);
            h.ty(ir::TyKind::Tuple(vec![int_ty, bool_ty]))
        },
        |h| {
            let a = h.int_lit(30);
            let b = h.bool_lit(true);
            h.tuple(vec![a, b])
        },
    );
    let program = compile(TyCtx::new(), &names, items, HashMap::new());
    assert_eq!(run_main(&program, MAIN), 30)
}

#[test]
fn llvm_unpack_nested_tuples_in_let() {
    // fn main() -> int { let (f, (i, b)) = mk_nested_tuple(); i }
    // fn mk_nested_tuple() -> (float, (int, bool)) { (90.0, (30, false)) }
    let mut names = Interner::new();
    let items = unpack_program(
        &mut names,
        |g, names| {
            let f = g.bind(name(names, "f"));
            let i = g.bind(name(names, "i"));
            let i_use = g.local(&i, name(names, "i"));
            let b = g.bind(name(names, "b"));
            let inner = g.pat(ir::PatternKind::Tuple(vec![i, b]));
            (g.pat(ir::PatternKind::Tuple(vec![f, inner])), i_use)
        },
        |h| {
            let float_ty = h.prim(PrimTy::Float);
            let int_ty = h.prim(PrimTy::Int);
            let bool_ty = h.prim(PrimTy::Bool);
            let inner = h.ty(ir::TyKind::Tuple(vec![int_ty, bool_ty]));
            h.ty(ir::TyKind::Tuple(vec![float_ty, inner]))
        },
        |h| {
            let f = h.float_lit(90.0);
            let a = h.int_lit(30);
            let b = h.bool_lit(false);
            let inner = h.tuple(vec![a, b]);
            h.tuple(vec![f, inner])
        },
    );
    let program = compile(TyCtx::new(), &names, items, HashMap::new());
    assert_eq!(run_main(&program, MAIN), 30)
}

#[test]
fn llvm_unpack_tuple_in_parameter() {
    // fn main() -> int { let i = snd((false, 185)); i }
    // fn snd((b, i): (bool, int_ty)) -> int { i }
    let mut names = Interner::new();
    let snd = 101;
    let snd_name = name(&mut names, "snd");
    let mut g = Gen::new(MAIN);
    let i_pat = g.bind(name(&mut names, "i"));
    let i_use = g.local(&i_pat, name(&mut names, "i"));
    let f = g.item(snd, DefKind::Fn, snd_name);
    let no = g.bool_lit(false);
    let n = g.int_lit(185);
    let arg = g.tuple(vec![no, n]);
    let init = g.call(f, vec![arg]);
    let stmt = g.let_stmt(i_pat, Some(init));
    let body = g.block_expr(vec![stmt], Some(i_use));
    let main = main_item(&mut names, &mut g, body);

    let mut h = Gen::new(snd);
    let b = h.bind(name(&mut names, "b"));
    let i = h.bind(name(&mut names, "i"));
    let i_use = h.local(&i, name(&mut names, "i"));
    let pat = h.pat(ir::PatternKind::Tuple(vec![b, i]));
    let bool_ty = h.prim(PrimTy::Bool);
    let int_ty = h.prim(PrimTy::Int);
    let input = h.ty(ir::TyKind::Tuple(vec![bool_ty, int_ty]));
    let output = Some(h.prim(PrimTy::Int));
    let param = h.param(pat);
    let body = h.block_expr(vec![], Some(i_use));
    let snd_item = fn_item(
        snd,
        snd_name,
        ir::FnSig { inputs: vec![input], output },
        ir::Body { params: vec![param], expr: body },
    );

    let program = compile(TyCtx::new(), &names, vec![main, snd_item], HashMap::new());
    assert_eq!(run_main(&program, MAIN), 185)
}

fn conditional(cond: bool) -> i64 {
    // fn main() -> int { if <cond> { 20 } else { 30 } }
    let mut names = Interner::new();
    let mut g = Gen::new(MAIN);
    let c = g.bool_lit(cond);
    let a = g.int_lit(20);
    let thn = g.block_expr(vec![], Some(a));
    let b = g.int_lit(30);
    let els = g.block_expr(vec![], Some(b));
    let ite = g.if_expr(c, thn, els);
    let body = g.block_expr(vec![], Some(ite));
    let main = main_item(&mut names, &mut g, body);
    let program = compile(TyCtx::new(), &names, vec![main], HashMap::new());
    run_main(&program, MAIN)
}

#[test]
fn simple_conditionals() {
    assert_eq!(conditional(true), 20);
    assert_eq!(conditional(false), 30);
}

#[test]
fn simple_enum_match() {
    // enum Option { Some(int), None }
    // fn main() -> int {
    //     let opt = Option::Some(9);
    //     match opt { Option::Some(x) => x, Option::None => 77 }
    // }
    let mut names = Interner::new();
    let mut tcx = TyCtx::new();
    let int_ty = tcx.types().int;
    let option = name(&mut names, "Option");
    let some = name(&mut names, "Some");
    let none = name(&mut names, "None");
    declare_enum(&mut tcx, 1, option, vec![(some, vec![int_ty]), (none, vec![])]);
    let (some_ctor, none_ctor) = (2, 3);
    let mut ctors = HashMap::new();
    ctors.insert(some_ctor, (0, 1));
    ctors.insert(none_ctor, (1, 0));

    let mut g = Gen::new(MAIN);
    let ctor = g.item(some_ctor, DefKind::Ctor(CtorKind::Tuple), some);
    let nine = g.int_lit(9);
    let init = g.call(ctor, vec![nine]);
    let opt = g.bind(name(&mut names, "opt"));
    let scrut = g.local(&opt, name(&mut names, "opt"));
    let stmt = g.let_stmt(opt, Some(init));

    let x = g.bind(name(&mut names, "x"));
    let x_use = g.local(&x, name(&mut names, "x"));
    let some_path = g.path(Res::Def(DefId(some_ctor), DefKind::Ctor(CtorKind::Tuple)), some);
    let some_pat = g.pat(ir::PatternKind::Variant(some_path, vec![x]));
    let arm1 = g.arm(some_pat, x_use);
    let none_path = g.path(Res::Def(DefId(none_ctor), DefKind::Ctor(CtorKind::Unit)), none);
    let none_pat = g.pat(ir::PatternKind::Variant(none_path, vec![]));
    let other = g.int_lit(77);
    let arm2 = g.arm(none_pat, other);
    let m = g.match_expr(scrut, vec![arm1, arm2]);
    let body = g.block_expr(vec![stmt], Some(m));
    let main = main_item(&mut names, &mut g, body);

    let program = compile(tcx, &names, vec![main], ctors);
    assert_eq!(run_main(&program, MAIN), 9);
}

/// `fn main() -> int { match <scrut> { <lit> => <hit>, _ => <miss> } }`
fn literal_match(scrut: i64, lit: i64, hit: i64, miss: i64) -> i64 {
    let mut names = Interner::new();
    let mut g = Gen::new(MAIN);
    let s = g.int_lit(scrut);
    let l = g.int_lit(lit);
    let pat_a = g.lit_pat(l);
    let h = g.int_lit(hit);
    let arm1 = g.arm(pat_a, h);
    let pat_b = g.wildcard();
    let m = g.int_lit(miss);
    let arm2 = g.arm(pat_b, m);
    let matched = g.match_expr(s, vec![arm1, arm2]);
    let body = g.block_expr(vec![], Some(matched));
    let main = main_item(&mut names, &mut g, body);
    let program = compile(TyCtx::new(), &names, vec![main], HashMap::new());
    run_main(&program, MAIN)
}

#[test]
fn simple_literal_match() {
    assert_eq!(literal_match(8, 8, 50, 33), 50);
    assert_eq!(literal_match(8, 30, 50, 34), 34);
}

#[test]
fn a_match_lowers_to_a_predicate_and_a_body_block_per_arm_and_one_join_block() {
    let mut names = Interner::new();
    let mut g = Gen::new(MAIN);
    let s = g.int_lit(8);
    let l = g.int_lit(8);
    let pat_a = g.lit_pat(l);
    let h = g.int_lit(50);
    let arm1 = g.arm(pat_a, h);
    let pat_b = g.wildcard();
    let m = g.int_lit(33);
    let arm2 = g.arm(pat_b, m);
    let matched = g.match_expr(s, vec![arm1, arm2]);
    let main = main_item(&mut names, &mut g, matched);
    let program = compile(TyCtx::new(), &names, vec![main], HashMap::new());
    let body = &program.bodies[&MAIN];
    // entry, two predicate blocks, two body blocks, the join block, and the
    // unreachable block behind the last arm
    assert_eq!(body.basic_blocks.len(), 7);
    assert!(blocks(body).iter().all(|b| b.terminator.is_some()));
    let unreachable = blocks(body)
        .iter()
        .filter(|b| matches!(b.terminator.as_ref().unwrap().kind, TerminatorKind::Unreachable))
        .count();
    assert_eq!(unreachable, 1);
    // the entry branches to the first predicate block, which tests and goes
    // to its body or to the next predicate block
    assert!(matches!(
        blocks(body)[0].terminator.as_ref().unwrap().kind,
        TerminatorKind::Branch(mir::BlockId(1))
    ));
    match &blocks(body)[1].terminator.as_ref().unwrap().kind {
        TerminatorKind::Cond(_, t, f) => {
            assert_eq!(*t, mir::BlockId(2));
            assert_eq!(*f, mir::BlockId(3));
        }
        _ => panic!("no conditional branch"),
    }
}

// ---------------------------------------------------------------------
// reference counting
// ---------------------------------------------------------------------

/// fn f(c: bool) -> int { let b = box 5; if c { return 1; } else {}; 2 }
fn boxed_program(names: &mut Interner) -> (Vec<ir::Item>, ir::Id) {
    let f = MAIN;
    let mut g = Gen::new(f);
    let c = g.bind(name(names, "c"));
    let c_use = g.local(&c, name(names, "c"));
    let param = g.param(c);
    let five = g.int_lit(5);
    let boxed = g.expr(ir::ExprKind::Box(Box::new(five)));
    let b = g.bind(name(names, "b"));
    let b_id = b.id;
    let let_b = g.let_stmt(b, Some(boxed));
    let one = g.int_lit(1);
    let ret = g.expr(ir::ExprKind::Ret(Some(Box::new(one))));
    let ret_stmt = g.semi(ret);
    let thn = g.block_expr(vec![ret_stmt], None);
    let els = g.block_expr(vec![], None);
    let ite = g.if_expr(c_use, thn, els);
    let ite_stmt = g.semi(ite);
    let two = g.int_lit(2);
    let body = g.block_expr(vec![let_b, ite_stmt], Some(two));
    let input = g.prim(PrimTy::Bool);
    let output = Some(g.prim(PrimTy::Int));
    let item = fn_item(
        f,
        name(names, "f"),
        ir::FnSig { inputs: vec![input], output },
        ir::Body { params: vec![param], expr: body },
    );
    (vec![item], b_id)
}

#[test]
fn a_box_is_retained_once_and_released_once_on_every_exit_path() {
    let mut names = Interner::new();
    let (items, _) = boxed_program(&mut names);
    let program = compile(TyCtx::new(), &names, items, HashMap::new());
    let body = &program.bodies[&MAIN];
    // the variable of the binding `b` is the named local of box type
    let b = vars(body)
        .iter()
        .position(|v| v.kind == VarKind::Local && program.tcx.is_box(v.ty))
        .expect("no local of box type");
    let retains = blocks(body)
        .iter()
        .flat_map(|bb| bb.stmts.iter())
        .filter(|s| matches!(s.kind, StmtKind::Retain(v) if v.0 == b))
        .count();
    assert_eq!(retains, 1);

    for (flag, expected) in [(true, 1), (false, 2)] {
        let mut machine = Machine::new(&program);
        let result = machine.call(MAIN, vec![Val::Bool(flag)]);
        assert_eq!(result, Val::Int(expected));
        assert_eq!(machine.retained.iter().filter(|v| **v == b).count(), 1);
        assert_eq!(machine.released.iter().filter(|v| **v == b).count(), 1);
    }
}

// ---------------------------------------------------------------------
// checking of functions
// ---------------------------------------------------------------------

fn check_main(body: impl FnOnce(&mut Gen, &mut Interner) -> ir::Expr) -> Vec<Diagnostic> {
    let mut names = Interner::new();
    let mut g = Gen::new(MAIN);
    let expr = body(&mut g, &mut names);
    let main = main_item(&mut names, &mut g, expr);
    let (tcx, errors) = collect_item(TyCtx::new(), &names, &main);
    assert!(errors.is_empty());
    typeck(tcx, &names, DefId(MAIN), body_of(&main)).errors
}

#[test]
fn main_function_return_type_annotations() {
    // fn main() -> int { 5 }
    let errors = check_main(|g, _| {
        let five = g.int_lit(5);
        g.block_expr(vec![], Some(five))
    });
    assert!(errors.is_empty());
}

#[test]
fn typeck_return_stmt_expr() {
    // fn main() -> int { return 5; }
    // the final return statement reaches the checker as the expression of
    // the block
    let errors = check_main(|g, _| {
        let five = g.int_lit(5);
        let ret = g.expr(ir::ExprKind::Ret(Some(Box::new(five))));
        g.block_expr(vec![], Some(ret))
    });
    assert!(errors.is_empty());
}

#[test]
fn a_body_of_the_wrong_type_is_a_mismatch() {
    // fn main() -> int { true }
    let errors = check_main(|g, _| {
        let t = g.bool_lit(true);
        g.block_expr(vec![], Some(t))
    });
    assert_eq!(errors.len(), 1);
    assert!(matches!(errors[0].error, TypeError::Mismatch(_, _)));
}

// ---------------------------------------------------------------------
// checking of closures
// ---------------------------------------------------------------------

/// Checks the statements and the final expression of a block, and prints
/// the typed block, a line for each of them.
fn typeck_lines(names: &Interner, g: &mut Gen, stmts: Vec<ir::Stmt>, last: Option<ir::Expr>) -> (Vec<String>, Vec<Diagnostic>) {
    let block = g.block_expr(stmts, last);
    let infcx = InferCtx::new(TyCtx::new());
    let unit = infcx.tcx.types().unit;
    let mut fcx = FnCtx::new(infcx, names, unit);
    fcx.check_expr(&block);
    let checked = fcx.resolve_inference_variables();
    let lines = match IrLoweringCtx::new(&checked.tcx, &checked.tables).lower_expr(&block) {
        Ok(typed) => match &typed.kind {
            tir::ExprKind::Block(b) => Formatter::new(&checked.tcx, names).block_lines(b),
            _ => unreachable!(),
        },
        Err(LoweringError::Unresolved) => Vec::new(),
    };
    (lines, checked.errors)
}

/// Checks a block and panics where the checker complains.
fn typeck_or_panic(names: &Interner, g: &mut Gen, stmts: Vec<ir::Stmt>, last: Option<ir::Expr>) -> Vec<String> {
    let (lines, errors) = typeck_lines(names, g, stmts, last);
    assert!(errors.is_empty(), "the checker complained: {:?}", errors);
    lines
}

#[test]
#[should_panic]
fn check_lambda_wrong_arity_0() {
    // (fn () => 5)(3); 5
    let names = Interner::new();
    let mut g = Gen::new(MAIN);
    let five = g.int_lit(5);
    let lambda = g.lambda(vec![], five);
    let three = g.int_lit(3);
    let call = g.call(lambda, vec![three]);
    let stmt = g.semi(call);
    let last = g.int_lit(5);
    typeck_or_panic(&names, &mut g, vec![stmt], Some(last));
}

#[test]
#[should_panic]
fn check_lambda_wrong_arity_1() {
    // (fn (x) => x)(3, 5); 5
    let mut names = Interner::new();
    let mut g = Gen::new(MAIN);
    let x = g.bind(name(&mut names, "x"));
    let x_use = g.local(&x, name(&mut names, "x"));
    let lambda = g.lambda(vec![x], x_use);
    let three = g.int_lit(3);
    let five = g.int_lit(5);
    let call = g.call(lambda, vec![three, five]);
    let stmt = g.semi(call);
    let last = g.int_lit(5);
    typeck_or_panic(&names, &mut g, vec![stmt], Some(last));
}

#[test]
#[should_panic]
fn check_call_non_function() {
    // 5(5); 5
    let names = Interner::new();
    let mut g = Gen::new(MAIN);
    let callee = g.int_lit(5);
    let arg = g.int_lit(5);
    let call = g.call(callee, vec![arg]);
    let stmt = g.semi(call);
    let last = g.int_lit(5);
    typeck_or_panic(&names, &mut g, vec![stmt], Some(last));
}

#[test]
fn check_recursive_named_closure() {
    // fn f() { f() }
    let mut names = Interner::new();
    let mut g = Gen::new(MAIN);
    let f = name(&mut names, "f");
    // the name of the closure is resolved to the closure itself
    let closure_id = ir::Id { def: DefId(MAIN), local: LocalId(1000) };
    let callee = g.local_id(closure_id, f);
    let call = g.call(callee, vec![]);
    let body = g.block_expr(vec![], Some(call));
    let mut closure = g.lambda(vec![], body);
    closure.id = closure_id;
    let _tir = typeck_lines(&names, &mut g, vec![], Some(closure));
}

#[test]
fn check_simple_lambda_no_capture() {
    // fn () => 5; 5
    let names = Interner::new();
    let mut g = Gen::new(MAIN);
    let five = g.int_lit(5);
    let lambda = g.lambda(vec![], five);
    let stmt = g.semi(lambda);
    let last = g.int_lit(5);
    let (lines, errors) = typeck_lines(&names, &mut g, vec![stmt], Some(last));
    assert!(errors.is_empty());
    assert_eq!(lines[0], "(λ() 5:number):fn()->number;");
}

#[test]
fn check_simple_lambda_with_parameter_no_capture() {
    // fn (x) => 5 + x; 5
    let mut names = Interner::new();
    let mut g = Gen::new(MAIN);
    let x = g.bind(name(&mut names, "x"));
    let x_use = g.local(&x, name(&mut names, "x"));
    let five = g.int_lit(5);
    let sum = g.bin(BinOp::Add, five, x_use);
    let lambda = g.lambda(vec![x], sum);
    let stmt = g.semi(lambda);
    let last = g.int_lit(5);
    let (lines, errors) = typeck_lines(&names, &mut g, vec![stmt], Some(last));
    assert!(errors.is_empty());
    assert_eq!(lines[0], "(λ(x:number) (+ 5:number x:number):number):fn(number)->number;");
}

#[test]
fn check_fn_call() {
    // let f = fn(x) => x; f(3)
    let mut names = Interner::new();
    let mut g = Gen::new(MAIN);
    let x = g.bind(name(&mut names, "x"));
    let x_use = g.local(&x, name(&mut names, "x"));
    let lambda = g.lambda(vec![x], x_use);
    let f = g.bind(name(&mut names, "f"));
    let f_use = g.local(&f, name(&mut names, "f"));
    let let_f = g.let_stmt(f, Some(lambda));
    let three = g.int_lit(3);
    let call = g.call(f_use, vec![three]);
    let (lines, errors) = typeck_lines(&names, &mut g, vec![let_f], Some(call));
    assert!(errors.is_empty());
    assert_eq!(lines[0], "let f:fn(number)->number = (λ(x:number) x:number):fn(number)->number;");
    assert_eq!(lines[1], "(f:fn(number)->number 3:number):number");
}

#[test]
fn check_lambda_with_capture() {
    // let num = 55; fn(y) => num + y; num
    let mut names = Interner::new();
    let mut g = Gen::new(MAIN);
    let num = g.bind(name(&mut names, "num"));
    let num_use = g.local(&num, name(&mut names, "num"));
    let num_last = g.local(&num, name(&mut names, "num"));
    let init = g.int_lit(55);
    let let_num = g.let_stmt(num, Some(init));
    let y = g.bind(name(&mut names, "y"));
    let y_use = g.local(&y, name(&mut names, "y"));
    let sum = g.bin(BinOp::Add, num_use, y_use);
    let lambda = g.lambda(vec![y], sum);
    let stmt = g.semi(lambda);
    let (lines, errors) = typeck_lines(&names, &mut g, vec![let_num, stmt], Some(num_last));
    assert!(errors.is_empty());
    assert_eq!(lines[0], "let num:number = 55:number;");
    assert_eq!(lines[1], "(λ(y:number) (+ num:number y:number):number):fn(number)->number;");
}

#[test]
fn check_higher_order_lambda() {
    // let f = fn(x) => false; let g = fn(p) => p(3); g(f); 5
    let mut names = Interner::new();
    let mut g = Gen::new(MAIN);
    let x = g.bind(name(&mut names, "x"));
    let no = g.bool_lit(false);
    let lambda_f = g.lambda(vec![x], no);
    let f = g.bind(name(&mut names, "f"));
    let f_use = g.local(&f, name(&mut names, "f"));
    let let_f = g.let_stmt(f, Some(lambda_f));

    let p = g.bind(name(&mut names, "p"));
    let p_use = g.local(&p, name(&mut names, "p"));
    let three = g.int_lit(3);
    let apply = g.call(p_use, vec![three]);
    let lambda_g = g.lambda(vec![p], apply);
    let gg = g.bind(name(&mut names, "g"));
    let g_use = g.local(&gg, name(&mut names, "g"));
    let let_g = g.let_stmt(gg, Some(lambda_g));

    let call = g.call(g_use, vec![f_use]);
    let stmt = g.semi(call);
    let last = g.int_lit(5);
    let (lines, errors) = typeck_lines(&names, &mut g, vec![let_f, let_g, stmt], Some(last));
    assert!(errors.is_empty());
    // note `false` is represented as `0`
    assert_eq!(lines[0], "let f:fn(number)->bool = (λ(x:number) 0:bool):fn(number)->bool;");
    assert_eq!(
        lines[1],
        "let g:fn(fn(number)->bool)->bool = (λ(p:fn(number)->bool) (p:fn(number)->bool 3:number):bool):fn(fn(number)->bool)->bool;"
    );
    assert_eq!(lines[2], "(g:fn(fn(number)->bool)->bool f:fn(number)->bool):bool;");
}

#[test]
fn a_lambda_called_with_too_many_arguments_is_a_mismatch() {
    // (fn () => 5)(3); 5
    let names = Interner::new();
    let mut g = Gen::new(MAIN);
    let five = g.int_lit(5);
    let lambda = g.lambda(vec![], five);
    let three = g.int_lit(3);
    let call = g.call(lambda, vec![three]);
    let stmt = g.semi(call);
    let last = g.int_lit(5);
    let (_, errors) = typeck_lines(&names, &mut g, vec![stmt], Some(last));
    assert!(errors.iter().any(|d| matches!(d.error, TypeError::Mismatch(_, _))));
}

#[test]
fn calling_a_number_is_a_mismatch() {
    // 5(5); 5
    let names = Interner::new();
    let mut g = Gen::new(MAIN);
    let callee = g.int_lit(5);
    let arg = g.int_lit(5);
    let call = g.call(callee, vec![arg]);
    let stmt = g.semi(call);
    let last = g.int_lit(5);
    let (_, errors) = typeck_lines(&names, &mut g, vec![stmt], Some(last));
    assert!(errors.iter().any(|d| matches!(d.error, TypeError::Mismatch(_, _))));
}

#[test]
fn an_unused_lambda_parameter_is_ambiguous() {
    // fn (x) => 5; 5
    let mut names = Interner::new();
    let mut g = Gen::new(MAIN);
    let x = g.bind(name(&mut names, "x"));
    let five = g.int_lit(5);
    let lambda = g.lambda(vec![x], five);
    let stmt = g.semi(lambda);
    let last = g.int_lit(5);
    let (_, errors) = typeck_lines(&names, &mut g, vec![stmt], Some(last));
    assert_eq!(errors.len(), 1);
    assert_eq!(errors[0].error, TypeError::InferenceFailure);
}

// ---------------------------------------------------------------------
// the complaints of the checker
// ---------------------------------------------------------------------

fn struct_s(names: &mut Interner) -> (TyCtx, Ident, Ident, Ident) {
    let mut tcx = TyCtx::new();
    let types = tcx.types();
    let s = name(names, "S");
    let x = name(names, "x");
    let y = name(names, "y");
    let (_, errors) = declare_struct(&mut tcx, 1, s, vec![(x, types.int), (y, types.bool)]);
    assert!(errors.is_empty());
    (tcx, s, x, y)
}

fn check_with(tcx: TyCtx, names: &Interner, e: &ir::Expr) -> Vec<Diagnostic> {
    let infcx = InferCtx::new(tcx);
    let unit = infcx.tcx.types().unit;
    let mut fcx = FnCtx::new(infcx, names, unit);
    fcx.check_expr(e);
    fcx.resolve_inference_variables().errors
}

fn struct_expr(g: &mut Gen, s: Ident, fields: Vec<(Ident, ir::Expr)>) -> ir::Expr {
    let fields = fields
        .into_iter()
        .map(|(ident, expr)| ir::Field { id: g.id(), span: sp(), ident, expr })
        .collect();
    let path = g.path(Res::Def(DefId(1), DefKind::Struct), s);
    g.expr(ir::ExprKind::Struct(path, fields))
}

#[test]
fn a_field_declared_twice_is_complained_about_and_recorded() {
    let mut names = Interner::new();
    let mut tcx = TyCtx::new();
    let int_ty = tcx.types().int;
    let s = name(&mut names, "S");
    let x = Ident { span: at(1, 2), symbol: names.intern("x") };
    let x_again = Ident { span: at(5, 6), symbol: names.intern("x") };
    let (adt, errors) = declare_struct(&mut tcx, 1, s, vec![(x, int_ty), (x_again, int_ty)]);
    assert_eq!(errors.len(), 1);
    assert_eq!(errors[0].error, TypeError::FieldAlreadyDeclared(x_again, s));
    assert_eq!(errors[0].spans(), vec![at(5, 6), at(1, 2)]);
    // the duplicate is recorded all the same
    assert_eq!(tcx.adt(adt).variants.get(VariantIdx(0)).fields.len(), 2);
}

#[test]
fn a_struct_expression_that_leaves_a_field_out_is_incomplete() {
    let mut names = Interner::new();
    let (tcx, s, x, _) = struct_s(&mut names);
    let mut g = Gen::new(MAIN);
    let one = g.int_lit(1);
    let e = struct_expr(&mut g, s, vec![(x, one)]);
    let errors = check_with(tcx, &names, &e);
    assert_eq!(errors.len(), 1);
    assert_eq!(errors[0].error, TypeError::IncompleteFields);
}

#[test]
fn a_struct_expression_that_sets_a_field_twice_is_complained_about() {
    let mut names = Interner::new();
    let (tcx, s, x, y) = struct_s(&mut names);
    let mut g = Gen::new(MAIN);
    let one = g.int_lit(1);
    let two = g.int_lit(2);
    let t = g.bool_lit(true);
    let e = struct_expr(&mut g, s, vec![(x, one), (x, two), (y, t)]);
    let errors = check_with(tcx, &names, &e);
    assert_eq!(errors.len(), 1);
    assert_eq!(errors[0].error, TypeError::FieldSetTwice(x));
}

#[test]
fn a_struct_expression_with_a_field_that_is_not_declared_is_complained_about() {
    let mut names = Interner::new();
    let (tcx, s, x, y) = struct_s(&mut names);
    let z = name(&mut names, "z");
    let mut g = Gen::new(MAIN);
    let one = g.int_lit(1);
    let t = g.bool_lit(true);
    let three = g.int_lit(3);
    let e = struct_expr(&mut g, s, vec![(x, one), (y, t), (z, three)]);
    let errors = check_with(tcx, &names, &e);
    assert_eq!(errors.len(), 1);
    assert_eq!(errors[0].error, TypeError::UnknownStructField(z));
}

#[test]
fn a_struct_expression_of_a_local_is_no_struct_path() {
    let mut names = Interner::new();
    let (tcx, s, _, _) = struct_s(&mut names);
    let mut g = Gen::new(MAIN);
    let path = g.path(Res::Local(ir::Id { def: DefId(MAIN), local: LocalId(77) }), s);
    let e = g.expr(ir::ExprKind::Struct(path, vec![]));
    let errors = check_with(tcx, &names, &e);
    assert_eq!(errors.len(), 1);
    assert_eq!(errors[0].error, TypeError::ExpectedStructPath);
}

fn field_access(names: &mut Interner, field: &str) -> Vec<Diagnostic> {
    let (tcx, s, x, y) = struct_s(names);
    let mut g = Gen::new(MAIN);
    let one = g.int_lit(1);
    let t = g.bool_lit(true);
    let base = struct_expr(&mut g, s, vec![(x, one), (y, t)]);
    let e = g.expr(ir::ExprKind::Field(Box::new(base), name(names, field)));
    // `s.y` is a truth value: adding it to a number tells `x` from `y`
    let two = g.int_lit(2);
    let sum = g.bin(BinOp::Add, two, e);
    check_with(tcx, names, &sum)
}

#[test]
fn a_field_is_found_by_its_name() {
    let mut names = Interner::new();
    assert!(field_access(&mut names, "x").is_empty());
    let errors = field_access(&mut names, "y");
    assert_eq!(errors.len(), 1);
    assert!(matches!(errors[0].error, TypeError::Mismatch(_, _)));
}

#[test]
fn a_field_that_is_not_declared_is_unknown() {
    let mut names = Interner::new();
    let errors = field_access(&mut names, "z");
    assert_eq!(errors.len(), 1);
    assert!(matches!(errors[0].error, TypeError::UnknownField(_, _)));
}

fn tuple_access(index: &str) -> Vec<Diagnostic> {
    let mut names = Interner::new();
    let mut g = Gen::new(MAIN);
    let a = g.int_lit(1);
    let b = g.bool_lit(true);
    let base = g.tuple(vec![a, b]);
    let e = g.expr(ir::ExprKind::Field(Box::new(base), name(&mut names, index)));
    let two = g.int_lit(2);
    let sum = g.bin(BinOp::Add, two, e);
    check_with(TyCtx::new(), &names, &sum)
}

#[test]
fn an_element_of_a_tuple_is_found_by_its_position() {
    assert!(tuple_access("0").is_empty());
    let errors = tuple_access("1");
    assert_eq!(errors.len(), 1);
    assert!(matches!(errors[0].error, TypeError::Mismatch(_, _)));
}

#[test]
fn a_position_beyond_the_tuple_is_out_of_bounds() {
    let errors = tuple_access("2");
    assert_eq!(errors.len(), 1);
    assert_eq!(errors[0].error, TypeError::TupleOutOfBounds(2, 2));
}

#[test]
fn a_number_has_no_fields() {
    let mut names = Interner::new();
    let mut g = Gen::new(MAIN);
    let base = g.int_lit(1);
    let e = g.expr(ir::ExprKind::Field(Box::new(base), name(&mut names, "x")));
    let errors = check_with(TyCtx::new(), &names, &e);
    assert_eq!(errors.len(), 1);
    assert!(matches!(errors[0].error, TypeError::BadFieldAccess(_)));
}

#[test]
fn taking_a_reference_needs_an_unsafe_block() {
    let names = Interner::new();
    let mut g = Gen::new(MAIN);
    let one = g.int_lit(1);
    let reference = g.expr(ir::ExprKind::Unary(lcore::ast::UnaryOp::Ref, Box::new(one)));
    let errors = check_with(TyCtx::new(), &names, &reference);
    assert_eq!(errors.len(), 1);
    assert_eq!(errors[0].error, TypeError::RequireUnsafeCtx);

    let mut g = Gen::new(MAIN);
    let one = g.int_lit(1);
    let reference = g.expr(ir::ExprKind::Unary(lcore::ast::UnaryOp::Ref, Box::new(one)));
    let mut block = g.block(vec![], Some(reference));
    block.is_unsafe = true;
    let e = g.expr(ir::ExprKind::Block(Box::new(block)));
    assert!(check_with(TyCtx::new(), &names, &e).is_empty());
}

#[test]
fn assigning_to_a_number_is_no_assignment_to_a_place() {
    let names = Interner::new();
    let mut g = Gen::new(MAIN);
    let l = g.int_lit(1);
    let r = g.int_lit(2);
    let e = g.expr(ir::ExprKind::Assign(Box::new(l), Box::new(r)));
    let errors = check_with(TyCtx::new(), &names, &e);
    assert_eq!(errors.len(), 1);
    assert_eq!(errors[0].error, TypeError::ExpectedLvalue);
}

#[test]
fn a_wrong_number_of_generic_arguments_is_complained_about() {
    // let v: S<int> = ..., where S declares no parameter
    let mut names = Interner::new();
    let (tcx, s, x, y) = struct_s(&mut names);
    let mut g = Gen::new(MAIN);
    let arg = g.prim(PrimTy::Int);
    let path = ir::Path {
        span: sp(),
        res: Res::Def(DefId(1), DefKind::Struct),
        segments: vec![ir::PathSegment {
            ident: s,
            id: g.id(),
            args: Some(ir::GenericArgs { span: sp(), args: vec![arg] }),
        }],
    };
    let written = g.ty(ir::TyKind::Path(path));
    let one = g.int_lit(1);
    let t = g.bool_lit(true);
    let init = struct_expr(&mut g, s, vec![(x, one), (y, t)]);
    let v = g.bind(name(&mut names, "v"));
    let l = ir::Let { id: g.id(), span: sp(), pat: v, ty: Some(written), init: Some(init) };
    let stmt = ir::Stmt { id: g.id(), span: sp(), kind: ir::StmtKind::Let(l) };
    let e = g.block_expr(vec![stmt], None);
    let errors = check_with(tcx, &names, &e);
    assert_eq!(errors.len(), 1);
    assert_eq!(errors[0].error, TypeError::GenericArgCount(0, 1));
}

#[test]
fn a_type_left_to_infer_in_a_signature_is_complained_about() {
    // fn f(_: _) -> int
    let mut names = Interner::new();
    let mut g = Gen::new(MAIN);
    let input = g.infer();
    let output = Some(g.prim(PrimTy::Int));
    let p = g.wildcard();
    let param = g.param(p);
    let five = g.int_lit(5);
    let item = fn_item(
        MAIN,
        name(&mut names, "f"),
        ir::FnSig { inputs: vec![input], output },
        ir::Body { params: vec![param], expr: five },
    );
    let (_, errors) = collect_item(TyCtx::new(), &names, &item);
    assert_eq!(errors.len(), 1);
    assert_eq!(errors[0].error, TypeError::InferenceFailure);
}

#[test]
fn a_generic_function_is_collected_as_a_scheme_over_its_parameters() {
    // fn id<T>(x: T) -> T
    let mut names = Interner::new();
    let mut g = Gen::new(MAIN);
    let t_def = DefId(7);
    let t_ty = |g: &mut Gen| {
        let path = ir::Path {
            span: sp(),
            res: Res::Def(t_def, DefKind::TyParam(ParamIdx(0))),
            segments: vec![],
        };
        g.ty(ir::TyKind::Path(path))
    };
    let input = t_ty(&mut g);
    let output = Some(t_ty(&mut g));
    let x = g.bind(name(&mut names, "x"));
    let x_use = g.local(&x, name(&mut names, "x"));
    let param = g.param(x);
    let generics = ir::Generics {
        span: sp(),
        params: vec![ir::TyParam {
            span: sp(),
            id: ir::Id { def: t_def, local: LocalId(0) },
            ident: name(&mut names, "T"),
            index: ParamIdx(0),
        }],
    };
    let item = ir::Item {
        span: sp(),
        id: ir::Id { def: DefId(MAIN), local: LocalId(0) },
        vis: Visibility::Private,
        ident: name(&mut names, "id"),
        kind: ir::ItemKind::Fn(
            ir::FnSig { inputs: vec![input], output },
            generics,
            ir::Body { params: vec![param], expr: x_use },
        ),
    };
    let (tcx, errors) = collect_item(TyCtx::new(), &names, &item);
    assert!(errors.is_empty());
    let scheme = tcx.collected_ty(DefId(MAIN));
    assert!(matches!(tcx.con(scheme), lcore::ty::TyCon::Scheme(Forall { binders: 1 })));
    let sig = tcx.fn_sig(DefId(MAIN)).unwrap();
    let mut line = String::new();
    Formatter::new(&tcx, &names).fmt_ty(&mut line, sig);
    assert_eq!(line, "fn(T0)->T0");
    // the body is checked with the parameter itself
    let checked = typeck(tcx, &names, DefId(MAIN), body_of(&item));
    assert!(checked.errors.is_empty());
}

// ---------------------------------------------------------------------
// what the later stages refuse
// ---------------------------------------------------------------------

#[test]
fn a_tree_with_an_error_in_it_is_not_lowered() {
    let names = Interner::new();
    let mut g = Gen::new(MAIN);
    let broken = g.expr(ir::ExprKind::Error);
    let infcx = InferCtx::new(TyCtx::new());
    let unit = infcx.tcx.types().unit;
    let mut fcx = FnCtx::new(infcx, &names, unit);
    fcx.check_expr(&broken);
    let checked = fcx.resolve_inference_variables();
    let lowered = IrLoweringCtx::new(&checked.tcx, &checked.tables).lower_expr(&broken);
    assert!(matches!(lowered, Err(LoweringError::Unresolved)));
}

fn typed(tcx: &TyCtx, kind: tir::ExprKind, ty: Ty) -> tir::Expr {
    let _ = tcx;
    tir::Expr { span: sp(), kind, ty }
}

#[test]
fn a_variable_that_no_pattern_binds_is_unbound() {
    let tcx = TyCtx::new();
    let int_ty = tcx.types().int;
    let id = ir::Id { def: DefId(MAIN), local: LocalId(5) };
    let x = Ident { span: sp(), symbol: Symbol(0) };
    let body = tir::Body { params: vec![], expr: typed(&tcx, tir::ExprKind::VarRef(id, x), int_ty) };
    assert!(matches!(build_fn(&tcx, &body), Err(MirError::UnboundVariable(i)) if i == id));
}

#[test]
fn a_closure_is_not_built() {
    let tcx = TyCtx::new();
    let int_ty = tcx.types().int;
    let inner = tir::Body { params: vec![], expr: typed(&tcx, tir::ExprKind::Lit(Lit::Int(1)), int_ty) };
    let body = tir::Body {
        params: vec![],
        expr: typed(&tcx, tir::ExprKind::Closure(Box::new(inner)), int_ty),
    };
    assert!(matches!(build_fn(&tcx, &body), Err(MirError::Closure)));
}

#[test]
fn a_value_of_a_variant_has_to_set_every_field_of_a_known_variant() {
    let mut names = Interner::new();
    let (tcx, _, _, _) = struct_s(&mut names);
    let int_ty = tcx.types().int;
    let one = typed(&tcx, tir::ExprKind::Lit(Lit::Int(1)), int_ty);
    let fields = vec![tir::Field { index: FieldIdx(0), expr: one }];
    let body = tir::Body {
        params: vec![],
        expr: typed(
            &tcx,
            tir::ExprKind::Adt(AdtId(0), VariantIdx(0), fields),
            int_ty,
        ),
    };
    assert!(matches!(build_fn(&tcx, &body), Err(MirError::MissingField(FieldIdx(1)))));

    let body = tir::Body {
        params: vec![],
        expr: typed(&tcx, tir::ExprKind::Adt(AdtId(9), VariantIdx(0), vec![]), int_ty),
    };
    assert!(matches!(build_fn(&tcx, &body), Err(MirError::UnknownVariant(AdtId(9), _))));
}

#[test]
fn the_fields_of_a_value_are_evaluated_as_written_and_stored_as_declared() {
    // S { y: true, x: 1 } with S { x: int, y: bool }
    let mut names = Interner::new();
    let (tcx, _, _, _) = struct_s(&mut names);
    let types = tcx.types();
    let yes = typed(&tcx, tir::ExprKind::Lit(Lit::Bool(true)), types.bool);
    let one = typed(&tcx, tir::ExprKind::Lit(Lit::Int(1)), types.int);
    let fields = vec![
        tir::Field { index: FieldIdx(1), expr: yes },
        tir::Field { index: FieldIdx(0), expr: one },
    ];
    let body = tir::Body {
        params: vec![],
        expr: typed(
            &tcx,
            tir::ExprKind::Adt(AdtId(0), VariantIdx(0), fields),
            types.int,
        ),
    };
    let built = build_fn(&tcx, &body).unwrap();
    let stmt = &built.basic_blocks.get(mir::BlockId(0)).stmts[0];
    match &stmt.kind {
        StmtKind::Assign(_, Rvalue::Adt(_, _, _, ops)) => {
            let ops = operands(ops);
            assert!(matches!(ops[0], Operand::Const(c) if c.kind == ConstKind::Int(1)));
            assert!(matches!(ops[1], Operand::Const(c) if c.kind == ConstKind::Bool(true)));
        }
        _ => panic!("no value of a variant"),
    }
}

// ---------------------------------------------------------------------
// whole programs
// ---------------------------------------------------------------------

/// `fn one() -> int { 1 }` and `fn wrong() -> int { true }`
fn two_functions(names: &mut Interner) -> Vec<ir::Item> {
    let mut g = Gen::new(10);
    let one = g.int_lit(1);
    let output = Some(g.prim(PrimTy::Int));
    let first = fn_item(10, name(names, "one"), ir::FnSig { inputs: vec![], output }, ir::Body { params: vec![], expr: one });
    let mut h = Gen::new(11);
    let yes = h.bool_lit(true);
    let output = Some(h.prim(PrimTy::Int));
    let second = fn_item(11, name(names, "wrong"), ir::FnSig { inputs: vec![], output }, ir::Body { params: vec![], expr: yes });
    vec![first, second]
}

#[test]
fn collection_records_the_signature_of_every_function() {
    let mut names = Interner::new();
    let items = two_functions(&mut names);
    let (tcx, errors) = collect(TyCtx::new(), &names, &items);
    assert!(errors.is_empty());
    let int_ty = tcx.types().int;
    for def in [10, 11] {
        let sig = tcx.fn_sig(DefId(def)).unwrap();
        let (params, ret) = tcx.expect_fn(sig);
        assert!(params.is_empty());
        assert_eq!(ret, int_ty);
        let (forall, body) = tcx.expect_scheme(tcx.item_ty(DefId(def)));
        assert_eq!(forall, Forall { binders: 0 });
        assert_eq!(tcx.con(body), lcore::ty::TyCon::FnDef(DefId(def)));
    }
    assert!(tcx.fn_sig(DefId(12)).is_none());
}

#[test]
fn an_item_that_is_complained_about_is_not_lowered_and_the_others_are() {
    let mut names = Interner::new();
    let prog = ir::Ir { items: two_functions(&mut names) };
    let typed = run_typeck(TyCtx::new(), &names, &prog);
    assert!(typed.errors.is_empty());
    assert_eq!(typed.checked.len(), 2);
    assert_eq!(typed.items.len(), 2);
    assert!(typed.checked[0].errors.is_empty());
    assert_eq!(typed.checked[1].errors.len(), 1);
    assert!(matches!(typed.checked[1].errors[0].error, TypeError::Mismatch(_, _)));
    assert!(typed.items[1].is_none());
    let int_ty = typed.tcx.types().int;
    match &typed.items[0] {
        Some(item) => {
            assert_eq!(item.id, prog.items[0].id);
            assert_eq!(item.ident, prog.items[0].ident);
            match &item.kind {
                tir::ItemKind::Fn(sig, body) => {
                    assert!(sig.inputs.is_empty());
                    assert_eq!(sig.output, int_ty);
                    assert_eq!(body.expr.ty, int_ty);
                    assert!(matches!(body.expr.kind, tir::ExprKind::Lit(Lit::Int(1))));
                }
                _ => panic!("no function"),
            }
        }
        None => panic!("the first function was not lowered"),
    }
}

#[test]
fn typing_an_item_is_checking_and_lowering_it() {
    let mut names = Interner::new();
    let items = two_functions(&mut names);
    let (tcx, _) = collect(TyCtx::new(), &names, &items);
    let typed = type_item(tcx, &names, &items[0]);
    assert!(typed.errors.is_empty());
    assert!(typed.item.is_some());
    let typed = type_item(typed.tcx, &names, &items[1]);
    assert_eq!(typed.errors.len(), 1);
    assert!(typed.item.is_none());
    let checked = check_item(typed.tcx, &names, &items[1]);
    assert_eq!(checked.errors.len(), 1);
}

#[test]
fn a_struct_is_lowered_to_its_descriptor() {
    let mut names = Interner::new();
    let (mut tcx, s, x, _) = struct_s(&mut names);
    let int_ty = tcx.types().int;
    let e = name(&mut names, "E");
    let v = name(&mut names, "V");
    let adt = declare_enum(&mut tcx, 5, e, vec![(v, vec![int_ty])]);
    assert_eq!(tcx.adt_of_def(DefId(1)), Some(AdtId(0)));
    assert_eq!(tcx.adt_of_def(DefId(5)), Some(adt));
    assert_eq!(tcx.adt_of_def(DefId(6)), None);
    assert_eq!(tcx.adt(AdtId(0)).only_variant().fields[0].ident, x);

    let mut g = Gen::new(1);
    let field_ty = g.prim(PrimTy::Int);
    let decl = ir::FieldDecl { span: sp(), ident: x, vis: Visibility::Public, id: g.id(), ty: field_ty };
    let item = ir::Item {
        span: sp(),
        id: ir::Id { def: DefId(1), local: LocalId(0) },
        vis: Visibility::Private,
        ident: s,
        kind: ir::ItemKind::Struct(no_generics(), ir::VariantKind::Struct(vec![decl])),
    };
    let typed = type_item(tcx, &names, &item);
    assert!(typed.errors.is_empty());
    assert!(matches!(typed.item, Some(tir::Item { kind: tir::ItemKind::Struct(AdtId(0)), .. })));
}

#[test]
fn the_discriminant_is_read_into_an_int_and_compared_with_the_index_of_the_variant() {
    // match <scrutinee of enum type> { V1 => 0 }, as a typed tree
    let mut names = Interner::new();
    let mut tcx = TyCtx::new();
    let types = tcx.types();
    let e = name(&mut names, "E");
    let first = name(&mut names, "A");
    let second = name(&mut names, "B");
    let adt = declare_enum(&mut tcx, 1, e, vec![(first, vec![]), (second, vec![])]);
    let enum_ty = tcx.mk_adt_ty(adt, vec![]);
    let scrut = typed(&tcx, tir::ExprKind::Adt(adt, VariantIdx(1), vec![]), enum_ty);
    let pat = tir::Pattern {
        id: ir::Id { def: DefId(MAIN), local: LocalId(1) },
        span: sp(),
        kind: tir::PatternKind::Variant(adt, VariantIdx(1), vec![]),
        ty: enum_ty,
    };
    let zero = typed(&tcx, tir::ExprKind::Lit(Lit::Int(0)), types.int);
    let arm = tir::Arm { span: sp(), pat, body: zero };
    let body = tir::Body {
        params: vec![],
        expr: typed(&tcx, tir::ExprKind::Match(Box::new(scrut), vec![arm]), types.int),
    };
    let built = build_fn(&tcx, &body).unwrap();
    let mut reads = Vec::new();
    let mut tests = Vec::new();
    for block in blocks(&built) {
        for stmt in &block.stmts {
            match &stmt.kind {
                StmtKind::Assign(l, Rvalue::Discriminant(_)) => reads.push(l.id),
                StmtKind::Assign(_, Rvalue::Bin(BinOp::Eq, Operand::Const(c), Operand::Lvalue(l))) => {
                    tests.push((*c, l.id))
                }
                _ => {}
            }
        }
    }
    assert_eq!(reads.len(), 1);
    assert_eq!(built.vars.get(reads[0]).ty, types.int);
    assert_eq!(built.vars.get(reads[0]).kind, VarKind::Tmp);
    assert_eq!(tests.len(), 1);
    assert_eq!(tests[0].0.kind, ConstKind::Int(1));
    assert_eq!(tests[0].0.ty, types.int);
    assert_eq!(tests[0].1, reads[0]);
}

#[test]
fn self_in_an_impl_of_a_struct_names_the_one_variant_of_the_struct() {
    // impl S { .. Self { x: 1, y: true } .. }
    let mut names = Interner::new();
    let (mut tcx, s, x, y) = struct_s(&mut names);
    let self_ty = tcx.mk_adt_ty(AdtId(0), vec![]);
    let impl_def = DefId(9);
    tcx.collect_ty(impl_def, self_ty);
    let mut g = Gen::new(MAIN);
    let one = g.int_lit(1);
    let yes = g.bool_lit(true);
    let fields = vec![
        ir::Field { id: g.id(), span: sp(), ident: x, expr: one },
        ir::Field { id: g.id(), span: sp(), ident: y, expr: yes },
    ];
    let path = g.path(Res::SelfVal(impl_def), s);
    let e = g.expr(ir::ExprKind::Struct(path, fields));

    let infcx = InferCtx::new(tcx);
    let unit = infcx.tcx.types().unit;
    let mut fcx = FnCtx::new(infcx, &names, unit);
    let ty = fcx.check_expr(&e);
    let checked = fcx.resolve_inference_variables();
    assert!(checked.errors.is_empty(), "{:?}", checked.errors);
    assert_eq!(checked.tcx.expect_adt(ty), AdtId(0));
    let lowered = IrLoweringCtx::new(&checked.tcx, &checked.tables).lower_expr(&e).unwrap();
    assert!(matches!(lowered.kind, tir::ExprKind::Adt(AdtId(0), VariantIdx(0), _)));

    // a field that is left out is still complained about
    let (mut tcx, s, x, _) = struct_s(&mut names);
    let self_ty = tcx.mk_adt_ty(AdtId(0), vec![]);
    tcx.collect_ty(impl_def, self_ty);
    let mut g = Gen::new(MAIN);
    let one = g.int_lit(1);
    let fields = vec![ir::Field { id: g.id(), span: sp(), ident: x, expr: one }];
    let path = g.path(Res::SelfVal(impl_def), s);
    let e = g.expr(ir::ExprKind::Struct(path, fields));
    let errors = check_with(tcx, &names, &e);
    assert_eq!(errors.len(), 1);
    assert_eq!(errors[0].error, TypeError::IncompleteFields);
}
