//! The checker: it walks a resolved item, unifies what has to be equal, and
//! records the type of every node.

pub mod collect;
pub mod expr;
pub mod field;
pub mod helpers;
pub mod pat;
pub mod prog;
pub mod structs;
pub mod fcx;
pub mod spec;
pub mod tyconv;
pub mod view;
pub mod writeback;
