//! Errors of the virtual machine.

use crate::text::{decimal_usize, push_usize};
use vstd::prelude::*;
use vstd::string::*;

verus! {

/// What the virtual machine can fail with.
#[derive(Debug, Clone, Copy, PartialEq, Eq, Structural)]
pub enum VMError {
    /// The byte is the code of no instruction.
    InvalidOpcode(u8),
}

pub type VMResult<T> = Result<T, VMError>;

impl VMError {
    pub open spec fn spec_message(&self) -> Seq<char> {
        match self {
            VMError::InvalidOpcode(b) => "invalid opcode `"@ + decimal_usize(*b as usize) + "`"@,
        }
    }

    /// The message of the error: for an invalid opcode, the byte between
    /// backquotes behind the words `invalid opcode`.
    pub fn message(&self) -> (s: String)
        ensures
            s@ == self.spec_message(),
    {
        match self {
            VMError::InvalidOpcode(b) => {
                let mut s = String::from_str("invalid opcode `");
                push_usize(&mut s, *b as usize);
                s.append("`");
                s
            },
        }
    }
}

} // verus!
