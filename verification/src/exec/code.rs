//! The emitter: a builder that appends encoded instructions to a byte string.

use super::opcode::{Op, Type};
use vstd::bytes::{spec_u64_to_le_bytes, u64_to_le_bytes};
use vstd::prelude::*;

verus! {

/// Finished byte code.
#[derive(Debug)]
pub struct Code(pub Vec<u8>);

/// Byte code under construction. Every method consumes the builder and hands
/// it back with the bytes of one instruction appended.
pub struct CodeBuilder {
    code: Vec<u8>,
}

impl View for Code {
    type V = Seq<u8>;

    open spec fn view(&self) -> Seq<u8> {
        self.0@
    }
}

impl View for CodeBuilder {
    type V = Seq<u8>;

    closed spec fn view(&self) -> Seq<u8> {
        self.code@
    }
}

/// The two's complement bit pattern of a signed constant.
pub open spec fn bits_of(i: i64) -> u64 {
    i as u64
}

/// The eight bytes of a constant, least significant first.
pub open spec fn const_bytes(c: u64) -> Seq<u8> {
    spec_u64_to_le_bytes(c)
}

/// One byte per captured variable pair: whether it lives in the enclosing
/// function, then its index.
pub open spec fn upvalue_bytes(upvalues: Seq<(bool, u8)>) -> Seq<u8>
    decreases upvalues.len(),
{
    if upvalues.len() == 0 {
        Seq::empty()
    } else {
        upvalue_bytes(upvalues.drop_last()).push(if upvalues.last().0 { 1u8 } else { 0u8 }).push(
            upvalues.last().1,
        )
    }
}

impl CodeBuilder {
    /// A builder that holds no bytes.
    pub fn new() -> (b: Self)
        ensures
            b@ == Seq::<u8>::empty(),
    {
        CodeBuilder { code: Vec::new() }
    }

    pub fn emit_byte(self, byte: u8) -> (b: Self)
        ensures
            b@ == self@.push(byte),
    {
        let mut this = self;
        this.code.push(byte);
        this
    }

    pub fn emit_op(self, op: Op) -> (b: Self)
        ensures
            b@ == self@.push(op.spec_code()),
    {
        self.emit_byte(op.code())
    }

    /// `clsr`, the index of the function, then two bytes per captured variable.
    pub fn emit_closure(self, f_idx: u8, upvalues: Vec<(bool, u8)>) -> (b: Self)
        ensures
            b@ == self@.push(Op::clsr.spec_code()).push(f_idx) + upvalue_bytes(upvalues@),
    {
        let ghost start = self@;
        let mut this = self.emit_op(Op::clsr).emit_byte(f_idx);
        let mut i: usize = 0;
        while i < upvalues.len()
            invariant
                i <= upvalues.len(),
                this@ == start.push(Op::clsr.spec_code()).push(f_idx) + upvalue_bytes(
                    upvalues@.take(i as int),
                ),
            decreases upvalues.len() - i,
        {
            let (in_enclosing, index) = upvalues[i];
            proof {
                assert(upvalues@.take(i + 1).drop_last() == upvalues@.take(i as int));
            }
            this = this.emit_upval(in_enclosing, index);
            i += 1;
        }
        proof {
            assert(upvalues@.take(i as int) == upvalues@);
        }
        this
    }

    pub fn emit_upval(self, in_enclosing: bool, index: u8) -> (b: Self)
        ensures
            b@ == self@.push(if in_enclosing { 1u8 } else { 0u8 }).push(index),
    {
        let flag: u8 = if in_enclosing { 1 } else { 0 };
        self.emit_byte(flag).emit_byte(index)
    }

    pub fn emit_iconst(self, i: i64) -> (b: Self)
        ensures
            b@ == self@.push(Op::iconst.spec_code()) + const_bytes(bits_of(i)),
    {
        self.emit_op(Op::iconst).write_const(i as u64)
    }

    pub fn emit_uconst(self, u: u64) -> (b: Self)
        ensures
            b@ == self@.push(Op::uconst.spec_code()) + const_bytes(u),
    {
        self.emit_op(Op::uconst).write_const(u)
    }

    /// Writes an eight byte constant into the code, least significant byte
    /// first.
    pub fn write_const(self, c: u64) -> (b: Self)
        ensures
            b@ == self@ + const_bytes(c),
    {
        let mut this = self;
        let mut bytes = u64_to_le_bytes(c);
        this.code.append(&mut bytes);
        this
    }

    pub fn emit_invoke(self, argc: u8) -> (b: Self)
        ensures
            b@ == self@.push(Op::invoke.spec_code()).push(argc),
    {
        self.emit_op(Op::invoke).emit_byte(argc)
    }

    pub fn emit_ldc(self, idx: u8) -> (b: Self)
        ensures
            b@ == self@.push(Op::ldc.spec_code()).push(idx),
    {
        self.emit_op(Op::ldc).emit_byte(idx)
    }

    /// Pushes the size, then allocates an array of the element type.
    pub fn emit_array(self, ty: Type, size: u64) -> (b: Self)
        ensures
            b@ == (self@.push(Op::uconst.spec_code()) + const_bytes(size)).push(
                Op::newarr.spec_code(),
            ).push(ty.spec_code()),
    {
        self.emit_uconst(size).emit_op(Op::newarr).emit_byte(ty.code())
    }

    pub fn emit_iaload(self, index: u64) -> (b: Self)
        ensures
            b@ == (self@.push(Op::uconst.spec_code()) + const_bytes(index)).push(
                Op::iaload.spec_code(),
            ),
    {
        self.emit_uconst(index).emit_op(Op::iaload)
    }

    pub fn emit_iloadl(self, index: u8) -> (b: Self)
        ensures
            b@ == self@.push(Op::iloadl.spec_code()).push(index),
    {
        self.emit_op(Op::iloadl).emit_byte(index)
    }

    pub fn emit_istorel(self, index: u8, value: i64) -> (b: Self)
        ensures
            b@ == (self@.push(Op::iconst.spec_code()) + const_bytes(bits_of(value))).push(
                Op::istorel.spec_code(),
            ).push(index),
    {
        self.emit_iconst(value).emit_op(Op::istorel).emit_byte(index)
    }

    pub fn emit_iloadu(self, index: u8) -> (b: Self)
        ensures
            b@ == self@.push(Op::iloadu.spec_code()).push(index),
    {
        self.emit_op(Op::iloadu).emit_byte(index)
    }

    pub fn emit_istoreu(self, index: u8, value: i64) -> (b: Self)
        ensures
            b@ == (self@.push(Op::iconst.spec_code()) + const_bytes(bits_of(value))).push(
                Op::istoreu.spec_code(),
            ).push(index),
    {
        self.emit_iconst(value).emit_op(Op::istoreu).emit_byte(index)
    }

    pub fn emit_iastore(self, index: u64, value: i64) -> (b: Self)
        ensures
            b@ == ((self@.push(Op::uconst.spec_code()) + const_bytes(index)).push(
                Op::iconst.spec_code(),
            ) + const_bytes(bits_of(value))).push(Op::iastore.spec_code()),
    {
        self.emit_uconst(index).emit_iconst(value).emit_op(Op::iastore)
    }

    pub fn build(self) -> (c: Code)
        ensures
            c@ == self@,
    {
        Code(self.code)
    }
}

impl Default for CodeBuilder {
    fn default() -> (b: Self)
        ensures
            b@ == Seq::<u8>::empty(),
    {
        CodeBuilder::new()
    }
}

} // verus!
