//! The byte code of the virtual machine: instructions and the emitter.

pub mod code;
pub mod opcode;

pub use code::{Code, CodeBuilder};
pub use opcode::{Op, Type};
