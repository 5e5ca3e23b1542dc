//! The middle tier of a compiler for a small statically typed language.
//!
//! [`ty`] holds the interned type store, [`subst`] the folders that rewrite
//! types, [`infer`] the unification engine, [`typeck`] the checker that fills
//! the per-item type tables, [`tir`] the fully typed tree, and [`mir`] the
//! builder that lowers a typed tree into a control-flow graph; [`mir::run`]
//! says what such a graph means when it is run. [`indexed`] holds the
//! vectors that are indexed by a type of their own. [`exec`] is the byte-code
//! emitter of the virtual machine.

pub mod ast;
pub mod error;
pub mod exec;
pub mod fxmap;
pub mod index;
pub mod indexed;
pub mod infer;
pub mod ir;
pub mod list;
pub mod lowering;
pub mod mir;
pub mod source_map;
pub mod span;
pub mod symbol;
pub mod text;
pub mod tir;
pub mod tir_fmt;
pub mod ty;
pub mod typeck;
