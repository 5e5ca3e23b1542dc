//! Small integer handles. Every table of the compiler is indexed by one of
//! them, so that identity is equality of integers.

use vstd::prelude::*;

verus! {

/// A definition: an item, a constructor, a type parameter.
#[derive(Debug, Clone, Copy, PartialEq, Eq, Hash, Structural)]
pub struct DefId(pub usize);

/// A node of one item's tree, counted from the item's root.
#[derive(Debug, Clone, Copy, PartialEq, Eq, Hash, Structural)]
pub struct LocalId(pub usize);

/// The position of a generic parameter in its item's declaration.
#[derive(Debug, Clone, Copy, PartialEq, Eq, Hash, Structural)]
pub struct ParamIdx(pub usize);

/// The position of a variant in its type; also its discriminant.
#[derive(Debug, Clone, Copy, PartialEq, Eq, Hash, Structural)]
pub struct VariantIdx(pub usize);

/// The position of a field in its variant.
#[derive(Debug, Clone, Copy, PartialEq, Eq, Hash, Structural)]
pub struct FieldIdx(pub usize);

/// An inference variable.
#[derive(Debug, Clone, Copy, PartialEq, Eq, Hash, Structural)]
pub struct TyVid(pub usize);

/// An interned identifier.
#[derive(Debug, Clone, Copy, PartialEq, Eq, Hash, Structural)]
pub struct Symbol(pub usize);

} // verus!
