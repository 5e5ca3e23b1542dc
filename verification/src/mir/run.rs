//! What a body means: the values that its variables hold when the graph is
//! run from a block until it returns.
//!
//! The meaning covers one body: a call is not followed, and a reference is
//! not taken. Where a run has no meaning (a variable without a value, an
//! operator on values that it is not made for, an overflow, the end of the
//! fuel) the result is `None`.

use crate::ast::{BinOp, UnaryOp};
use crate::index::DefId;
use crate::list::List;
use crate::mir::{BlockView, ConstKind, Lvalue, Operand, Projection, Rvalue, Stmt, StmtKind, TerminatorKind};
use crate::ty::adt::AdtKind;
use crate::ty::store::TyCtx;
use vstd::prelude::*;

verus! {

/// A value of a run.
pub enum Value {
    Unit,
    Int(i64),
    Bool(bool),
    /// The bits of a double.
    Float(u64),
    Item(DefId),
    /// A tuple, or the fields of a struct; the value of an enum is the
    /// tuple of its discriminant and its fields.
    Tuple(Seq<Value>),
    /// A heap cell and what it holds.
    Cell(Box<Value>),
}

/// The values of the variables: nothing for a variable that was not yet
/// written.
pub type Env = Seq<Option<Value>>;

/// The value at the end of a path into a value.
pub open spec fn get(v: Value, projs: List<Projection>) -> Option<Value>
    decreases projs,
{
    match projs {
        List::Nil => Some(v),
        List::Cons(p, rest) => match (p, v) {
            (Projection::Field(i, _), Value::Tuple(xs)) => if i.0 < xs.len() {
                get(xs[i.0 as int], *rest)
            } else {
                None
            },
            (Projection::Deref, Value::Cell(x)) => get(*x, *rest),
            (Projection::PointerCast(_), x) => get(x, *rest),
            _ => None,
        },
    }
}

/// The value with a new value at the end of a path into it.
pub open spec fn put(v: Value, projs: List<Projection>, new: Value) -> Option<Value>
    decreases projs,
{
    match projs {
        List::Nil => Some(new),
        List::Cons(p, rest) => match (p, v) {
            (Projection::Field(i, _), Value::Tuple(xs)) => if i.0 < xs.len() {
                match put(xs[i.0 as int], *rest, new) {
                    Some(x) => Some(Value::Tuple(xs.update(i.0 as int, x))),
                    None => None,
                }
            } else {
                None
            },
            (Projection::Deref, Value::Cell(x)) => match put(*x, *rest, new) {
                Some(y) => Some(Value::Cell(Box::new(y))),
                None => None,
            },
            (Projection::PointerCast(_), x) => put(x, *rest, new),
            _ => None,
        },
    }
}

/// The value at a place.
pub open spec fn read(env: Env, l: Lvalue) -> Option<Value> {
    if l.id.0 < env.len() {
        match env[l.id.0 as int] {
            Some(v) => get(v, l.projs),
            None => None,
        }
    } else {
        None
    }
}

/// The variables after a value was written to a place. A whole variable
/// can be written before it holds anything.
pub open spec fn write(env: Env, l: Lvalue, new: Value) -> Option<Env> {
    if l.id.0 < env.len() {
        match l.projs {
            List::Nil => Some(env.update(l.id.0 as int, Some(new))),
            _ => match env[l.id.0 as int] {
                Some(v) => match put(v, l.projs, new) {
                    Some(x) => Some(env.update(l.id.0 as int, Some(x))),
                    None => None,
                },
                None => None,
            },
        }
    } else {
        None
    }
}

/// The value of a constant: a discriminant is the integer of its index.
pub open spec fn constant(kind: ConstKind) -> Value {
    match kind {
        ConstKind::Float(bits) => Value::Float(bits),
        ConstKind::Int(i) => Value::Int(i),
        ConstKind::Bool(b) => Value::Bool(b),
        ConstKind::Discr(v) => Value::Int(v.0 as i64),
        ConstKind::Unit => Value::Unit,
    }
}

pub open spec fn operand(env: Env, op: Operand) -> Option<Value> {
    match op {
        Operand::Const(c) => Some(constant(c.kind)),
        Operand::Lvalue(l) => read(env, l),
        Operand::Item(def, _) => Some(Value::Item(def)),
    }
}

pub open spec fn operands(env: Env, ops: Seq<Operand>, i: nat) -> Option<Seq<Value>>
    decreases ops.len() - i,
{
    if i >= ops.len() {
        Some(Seq::empty())
    } else {
        match (operand(env, ops[i as int]), operands(env, ops, i + 1)) {
            (Some(x), Some(rest)) => Some(seq![x] + rest),
            _ => None,
        }
    }
}

/// An integer that fits a machine word, or nothing.
pub open spec fn int_value(i: int) -> Option<Value> {
    if i64::MIN <= i <= i64::MAX {
        Some(Value::Int(i as i64))
    } else {
        None
    }
}

/// The quotient of two integers, rounded towards zero.
pub open spec fn truncated(x: int, y: int) -> int {
    let q = (if x < 0 {
        -x
    } else {
        x
    }) / (if y < 0 {
        -y
    } else {
        y
    });
    if (x < 0) == (y < 0) {
        q
    } else {
        -q
    }
}

/// A binary operator on two values.
pub open spec fn binary(op: BinOp, a: Value, b: Value) -> Option<Value> {
    match (op, a, b) {
        (BinOp::Add, Value::Int(x), Value::Int(y)) => int_value(x + y),
        (BinOp::Sub, Value::Int(x), Value::Int(y)) => int_value(x - y),
        (BinOp::Mul, Value::Int(x), Value::Int(y)) => int_value(x * y),
        (BinOp::Div, Value::Int(x), Value::Int(y)) => if y != 0 {
            int_value(truncated(x as int, y as int))
        } else {
            None
        },
        (BinOp::Lt, Value::Int(x), Value::Int(y)) => Some(Value::Bool(x < y)),
        (BinOp::Gt, Value::Int(x), Value::Int(y)) => Some(Value::Bool(x > y)),
        (BinOp::Eq, Value::Int(x), Value::Int(y)) => Some(Value::Bool(x == y)),
        (BinOp::Eq, Value::Bool(x), Value::Bool(y)) => Some(Value::Bool(x == y)),
        (BinOp::Neq, Value::Int(x), Value::Int(y)) => Some(Value::Bool(x != y)),
        (BinOp::Neq, Value::Bool(x), Value::Bool(y)) => Some(Value::Bool(x != y)),
        (BinOp::And, Value::Bool(x), Value::Bool(y)) => Some(Value::Bool(x && y)),
        (BinOp::Or, Value::Bool(x), Value::Bool(y)) => Some(Value::Bool(x || y)),
        _ => None,
    }
}

/// The value of a value form. A value of a struct is the tuple of its
/// fields; a value of an enum has its discriminant in front of them.
pub open spec fn rvalue(tcx: &TyCtx, env: Env, rv: Rvalue) -> Option<Value> {
    match rv {
        Rvalue::Use(op) => operand(env, op),
        Rvalue::Bin(op, a, b) => match (operand(env, a), operand(env, b)) {
            (Some(x), Some(y)) => binary(op, x, y),
            _ => None,
        },
        Rvalue::Unary(op, a) => match (op, operand(env, a)) {
            (UnaryOp::Neg, Some(Value::Int(x))) => int_value(-x),
            (UnaryOp::Not, Some(Value::Bool(x))) => Some(Value::Bool(!x)),
            _ => None,
        },
        Rvalue::Tuple(ops) => match operands(env, ops@, 0) {
            Some(xs) => Some(Value::Tuple(xs)),
            None => None,
        },
        Rvalue::Adt(adt, variant, _, ops) => match operands(env, ops@, 0) {
            Some(xs) => if adt.0 < tcx.spec_adts().len() {
                match tcx.spec_adts()[adt.0 as int].kind {
                    AdtKind::Struct => Some(Value::Tuple(xs)),
                    AdtKind::Enum => Some(Value::Tuple(seq![Value::Int(variant.0 as i64)] + xs)),
                }
            } else {
                None
            },
            None => None,
        },
        Rvalue::Discriminant(l) => match read(env, l) {
            Some(Value::Tuple(xs)) => if xs.len() > 0 && xs[0] is Int {
                Some(xs[0])
            } else {
                None
            },
            _ => None,
        },
        Rvalue::Box(op) => match operand(env, op) {
            Some(x) => Some(Value::Cell(Box::new(x))),
            None => None,
        },
        Rvalue::Ref(_) => None,
    }
}

/// The variables after the statements from position `i` on. Retain and
/// release change no value.
pub open spec fn statements(tcx: &TyCtx, env: Env, stmts: Seq<Stmt>, i: nat) -> Option<Env>
    decreases stmts.len() - i,
{
    if i >= stmts.len() {
        Some(env)
    } else {
        match stmts[i as int].kind {
            StmtKind::Assign(l, rv) => match rvalue(tcx, env, rv) {
                Some(x) => match write(env, l, x) {
                    Some(next) => statements(tcx, next, stmts, i + 1),
                    None => None,
                },
                None => None,
            },
            StmtKind::Retain(_) => statements(tcx, env, stmts, i + 1),
            StmtKind::Release(_) => statements(tcx, env, stmts, i + 1),
        }
    }
}

/// Runs the graph from a block until it returns: the variables at the
/// return, if the run gets there within `fuel` blocks.
pub open spec fn run(tcx: &TyCtx, blocks: Seq<BlockView>, env: Env, block: nat, fuel: nat) -> Option<Env>
    decreases fuel,
{
    if fuel == 0 || block >= blocks.len() {
        None
    } else {
        match statements(tcx, env, blocks[block as int].stmts, 0) {
            None => None,
            Some(next) => match blocks[block as int].terminator {
                None => None,
                Some(t) => match t.kind {
                    TerminatorKind::Branch(b) => run(tcx, blocks, next, b.0 as nat, (fuel - 1) as nat),
                    TerminatorKind::Cond(op, yes, no) => match operand(next, op) {
                        Some(Value::Bool(true)) => run(tcx, blocks, next, yes.0 as nat, (fuel - 1) as nat),
                        Some(Value::Bool(false)) => run(tcx, blocks, next, no.0 as nat, (fuel - 1) as nat),
                        _ => None,
                    },
                    TerminatorKind::Return => Some(next),
                    TerminatorKind::Unreachable => None,
                    TerminatorKind::Call(_, _, _, _) => None,
                },
            },
        }
    }
}

/// How often the statements from position `i` on retain a variable.
pub open spec fn retains(stmts: Seq<Stmt>, var: crate::mir::VarId, i: nat) -> nat
    decreases stmts.len() - i,
{
    if i >= stmts.len() {
        0
    } else {
        retains(stmts, var, i + 1) + if stmts[i as int].kind == StmtKind::Retain(var) {
            1nat
        } else {
            0nat
        }
    }
}

/// How often the statements from position `i` on release a variable.
pub open spec fn releases(stmts: Seq<Stmt>, var: crate::mir::VarId, i: nat) -> nat
    decreases stmts.len() - i,
{
    if i >= stmts.len() {
        0
    } else {
        releases(stmts, var, i + 1) + if stmts[i as int].kind == StmtKind::Release(var) {
            1nat
        } else {
            0nat
        }
    }
}

/// How often the blocks below `upto` retain a variable, all in all.
pub open spec fn retains_in(blocks: Seq<BlockView>, var: crate::mir::VarId, upto: nat) -> nat
    decreases upto,
{
    if upto == 0 || upto > blocks.len() {
        0
    } else {
        retains_in(blocks, var, (upto - 1) as nat) + retains(blocks[upto - 1].stmts, var, 0)
    }
}

/// How often a variable is released on the way of a run, from a block to
/// the return that the run ends in.
pub open spec fn released_on_run(
    tcx: &TyCtx,
    blocks: Seq<BlockView>,
    env: Env,
    block: nat,
    fuel: nat,
    var: crate::mir::VarId,
) -> Option<nat>
    decreases fuel,
{
    if fuel == 0 || block >= blocks.len() {
        None
    } else {
        let here = releases(blocks[block as int].stmts, var, 0);
        match statements(tcx, env, blocks[block as int].stmts, 0) {
            None => None,
            Some(next) => match blocks[block as int].terminator {
                None => None,
                Some(t) => {
                    let rest = match t.kind {
                        TerminatorKind::Branch(b) => released_on_run(
                            tcx,
                            blocks,
                            next,
                            b.0 as nat,
                            (fuel - 1) as nat,
                            var,
                        ),
                        TerminatorKind::Cond(op, yes, no) => match operand(next, op) {
                            Some(Value::Bool(true)) => released_on_run(
                                tcx,
                                blocks,
                                next,
                                yes.0 as nat,
                                (fuel - 1) as nat,
                                var,
                            ),
                            Some(Value::Bool(false)) => released_on_run(
                                tcx,
                                blocks,
                                next,
                                no.0 as nat,
                                (fuel - 1) as nat,
                                var,
                            ),
                            _ => None,
                        },
                        TerminatorKind::Return => Some(0nat),
                        TerminatorKind::Unreachable => None,
                        TerminatorKind::Call(_, _, _, _) => None,
                    };
                    match rest {
                        Some(n) => Some(here + n),
                        None => None,
                    }
                },
            },
        }
    }
}

/// The variables of a body before it runs: none holds a value.
pub open spec fn unset(n: nat) -> Env {
    Seq::new(n, |i: int| None::<Value>)
}

} // verus!
