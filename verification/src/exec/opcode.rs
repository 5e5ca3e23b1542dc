//! Instructions and value types, with their one-byte encodings.

use crate::error::{VMError, VMResult};
use vstd::prelude::*;

verus! {

/// An instruction of the virtual machine.
#[allow(non_camel_case_types)]
#[derive(Debug, Clone, Copy, PartialEq, Eq, Structural)]
pub enum Op {
    nop,
    iconst,
    uconst,
    ldc,
    iloadl,
    istorel,
    iloadu,
    istoreu,
    newarr,
    iaload,
    iastore,
    invoke,
    clsr,
    ret,
}

/// The element type of an array.
#[derive(Debug, Clone, Copy, PartialEq, Eq, Structural)]
pub enum Type {
    Int,
    UInt,
    Bool,
    Char,
}

impl Op {
    /// The byte that encodes the instruction.
    pub open spec fn spec_code(self) -> u8 {
        match self {
            Op::nop => 0,
            Op::iconst => 1,
            Op::uconst => 2,
            Op::ldc => 3,
            Op::iloadl => 4,
            Op::istorel => 5,
            Op::iloadu => 6,
            Op::istoreu => 7,
            Op::newarr => 8,
            Op::iaload => 9,
            Op::iastore => 10,
            Op::invoke => 11,
            Op::clsr => 12,
            Op::ret => 13,
        }
    }

    #[verifier::when_used_as_spec(spec_code)]
    pub fn code(self) -> (b: u8)
        ensures
            b == self.spec_code(),
    {
        match self {
            Op::nop => 0,
            Op::iconst => 1,
            Op::uconst => 2,
            Op::ldc => 3,
            Op::iloadl => 4,
            Op::istorel => 5,
            Op::iloadu => 6,
            Op::istoreu => 7,
            Op::newarr => 8,
            Op::iaload => 9,
            Op::iastore => 10,
            Op::invoke => 11,
            Op::clsr => 12,
            Op::ret => 13,
        }
    }

    /// Decodes a byte: the instruction whose code it is, or
    /// `InvalidOpcode` when it is the code of none.
    pub fn from_byte(b: u8) -> (r: VMResult<Op>)
        ensures
            b <= 13 ==> r is Ok && r->Ok_0.spec_code() == b,
            b > 13 ==> r == Err::<Op, VMError>(VMError::InvalidOpcode(b)),
    {
        match b {
            0 => Ok(Op::nop),
            1 => Ok(Op::iconst),
            2 => Ok(Op::uconst),
            3 => Ok(Op::ldc),
            4 => Ok(Op::iloadl),
            5 => Ok(Op::istorel),
            6 => Ok(Op::iloadu),
            7 => Ok(Op::istoreu),
            8 => Ok(Op::newarr),
            9 => Ok(Op::iaload),
            10 => Ok(Op::iastore),
            11 => Ok(Op::invoke),
            12 => Ok(Op::clsr),
            13 => Ok(Op::ret),
            _ => Err(VMError::InvalidOpcode(b)),
        }
    }
}

impl Type {
    /// The byte that encodes the element type.
    pub open spec fn spec_code(self) -> u8 {
        match self {
            Type::Int => 0,
            Type::UInt => 1,
            Type::Bool => 2,
            Type::Char => 3,
        }
    }

    #[verifier::when_used_as_spec(spec_code)]
    pub fn code(self) -> (b: u8)
        ensures
            b == self.spec_code(),
    {
        match self {
            Type::Int => 0,
            Type::UInt => 1,
            Type::Bool => 2,
            Type::Char => 3,
        }
    }
}

} // verus!
