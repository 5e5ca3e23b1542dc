//! Vectors that are indexed by a type of their own: the `IndexVec` of the
//! `indexed_vec` crate, one for each kind of element that the library keeps
//! in one.
//!
//! What the functions at the top of each section say of a vector is not
//! proved here: it is what the source of the crate shows of the method that
//! the function calls, stated over the elements of the vector in their
//! order.

use crate::index::VariantIdx;
use crate::mir::{BasicBlock, BlockId, Var, VarId};
use crate::ty::adt::VariantTy;
use indexed_vec::{Idx, IndexVec};
use vstd::prelude::*;

verus! {

impl Idx for BlockId {
    fn new(v: usize) -> Self {
        BlockId(v)
    }

    fn index(self) -> usize {
        self.0
    }
}

impl Idx for VarId {
    fn new(v: usize) -> Self {
        VarId(v)
    }

    fn index(self) -> usize {
        self.0
    }
}

impl Idx for VariantIdx {
    fn new(v: usize) -> Self {
        VariantIdx(v)
    }

    fn index(self) -> usize {
        self.0
    }
}

/// The basic blocks of a body: an `IndexVec` of blocks by `BlockId`.
#[verifier::external_body]
pub struct Blocks {
    inner: IndexVec<BlockId, BasicBlock>,
}

/// The blocks that the vector holds, in their order.
pub uninterp spec fn blocks_of(v: Blocks) -> Seq<BasicBlock>;

impl View for Blocks {
    type V = Seq<BasicBlock>;

    open spec fn view(&self) -> Seq<BasicBlock> {
        blocks_of(*self)
    }
}

/// `IndexVec::new`: the new vector holds nothing.
#[verifier::external_body]
fn blocks_new() -> (res: Blocks)
    ensures
        blocks_of(res) == Seq::<BasicBlock>::empty(),
{
    Blocks { inner: IndexVec::new() }
}

/// `IndexVec::len`: the number of elements.
#[verifier::external_body]
fn blocks_len(v: &Blocks) -> (res: usize)
    ensures
        res == blocks_of(*v).len(),
{
    v.inner.len()
}

/// `IndexVec::push`: the element stands at the end afterwards, and the
/// result is its index, which is the number of elements of before.
#[verifier::external_body]
fn blocks_push(v: &mut Blocks, b: BasicBlock) -> (res: BlockId)
    ensures
        blocks_of(*final(v)) == blocks_of(*old(v)).push(b),
        res.0 == blocks_of(*old(v)).len(),
{
    v.inner.push(b)
}

/// `Index::index` of `IndexVec`: the element at the index.
#[verifier::external_body]
fn blocks_get(v: &Blocks, i: BlockId) -> (res: &BasicBlock)
    requires
        i.0 < blocks_of(*v).len(),
    ensures
        *res == blocks_of(*v)[i.0 as int],
{
    &v.inner[i]
}

/// `IndexMut::index_mut` of `IndexVec`, with `std::mem::swap`: the element
/// at the index and the given one change places.
#[verifier::external_body]
fn blocks_swap(v: &mut Blocks, i: BlockId, b: &mut BasicBlock)
    requires
        i.0 < blocks_of(*old(v)).len(),
    ensures
        blocks_of(*final(v)) == blocks_of(*old(v)).update(i.0 as int, *old(b)),
        *final(b) == blocks_of(*old(v))[i.0 as int],
{
    std::mem::swap(&mut v.inner[i], b);
}

impl Blocks {
    pub fn new() -> (v: Blocks)
        ensures
            v@ == Seq::<BasicBlock>::empty(),
    {
        blocks_new()
    }

    pub fn len(&self) -> (n: usize)
        ensures
            n == self@.len(),
    {
        blocks_len(self)
    }

    /// Appends a block; its index is the number of blocks of before.
    pub fn push(&mut self, b: BasicBlock) -> (id: BlockId)
        ensures
            final(self)@ == old(self)@.push(b),
            id.0 == old(self)@.len(),
    {
        blocks_push(self, b)
    }

    /// The block at an index.
    pub fn get(&self, i: BlockId) -> (b: &BasicBlock)
        requires
            i.0 < self@.len(),
        ensures
            *b == self@[i.0 as int],
    {
        blocks_get(self, i)
    }

    /// Puts a block at an index, and hands out the block that stood there.
    pub fn swap(&mut self, i: BlockId, b: &mut BasicBlock)
        requires
            i.0 < old(self)@.len(),
        ensures
            final(self)@ == old(self)@.update(i.0 as int, *old(b)),
            *final(b) == old(self)@[i.0 as int],
    {
        blocks_swap(self, i, b)
    }
}

/// The variables of a body: an `IndexVec` of variables by `VarId`.
#[verifier::external_body]
pub struct Vars {
    inner: IndexVec<VarId, Var>,
}

/// The variables that the vector holds, in their order.
pub uninterp spec fn vars_of(v: Vars) -> Seq<Var>;

impl View for Vars {
    type V = Seq<Var>;

    open spec fn view(&self) -> Seq<Var> {
        vars_of(*self)
    }
}

/// `IndexVec::new`: the new vector holds nothing.
#[verifier::external_body]
fn vars_new() -> (res: Vars)
    ensures
        vars_of(res) == Seq::<Var>::empty(),
{
    Vars { inner: IndexVec::new() }
}

/// `IndexVec::len`: the number of elements.
#[verifier::external_body]
fn vars_len(v: &Vars) -> (res: usize)
    ensures
        res == vars_of(*v).len(),
{
    v.inner.len()
}

/// `IndexVec::push`: the element stands at the end afterwards, and the
/// result is its index, which is the number of elements of before.
#[verifier::external_body]
fn vars_push(v: &mut Vars, x: Var) -> (res: VarId)
    ensures
        vars_of(*final(v)) == vars_of(*old(v)).push(x),
        res.0 == vars_of(*old(v)).len(),
{
    v.inner.push(x)
}

/// `Index::index` of `IndexVec`, copied: the element at the index.
#[verifier::external_body]
fn vars_get(v: &Vars, i: VarId) -> (res: Var)
    requires
        i.0 < vars_of(*v).len(),
    ensures
        res == vars_of(*v)[i.0 as int],
{
    v.inner[i]
}

impl Vars {
    pub fn new() -> (v: Vars)
        ensures
            v@ == Seq::<Var>::empty(),
    {
        vars_new()
    }

    pub fn len(&self) -> (n: usize)
        ensures
            n == self@.len(),
    {
        vars_len(self)
    }

    /// Appends a variable; its index is the number of variables of before.
    pub fn push(&mut self, x: Var) -> (id: VarId)
        ensures
            final(self)@ == old(self)@.push(x),
            id.0 == old(self)@.len(),
    {
        vars_push(self, x)
    }

    /// The variable at an index.
    pub fn get(&self, i: VarId) -> (x: Var)
        requires
            i.0 < self@.len(),
        ensures
            x == self@[i.0 as int],
    {
        vars_get(self, i)
    }
}

/// The variants of a type: an `IndexVec` of variants by `VariantIdx`.
#[verifier::external_body]
#[derive(Debug)]
pub struct Variants {
    inner: IndexVec<VariantIdx, VariantTy>,
}

/// The variants that the vector holds, in their order.
pub uninterp spec fn variants_of(v: Variants) -> Seq<VariantTy>;

impl View for Variants {
    type V = Seq<VariantTy>;

    open spec fn view(&self) -> Seq<VariantTy> {
        variants_of(*self)
    }
}

/// `IndexVec::new`: the new vector holds nothing.
#[verifier::external_body]
fn variants_new() -> (res: Variants)
    ensures
        variants_of(res) == Seq::<VariantTy>::empty(),
{
    Variants { inner: IndexVec::new() }
}

/// `IndexVec::len`: the number of elements.
#[verifier::external_body]
fn variants_len(v: &Variants) -> (res: usize)
    ensures
        res == variants_of(*v).len(),
{
    v.inner.len()
}

/// `IndexVec::push`: the element stands at the end afterwards, and the
/// result is its index, which is the number of elements of before.
#[verifier::external_body]
fn variants_push(v: &mut Variants, x: VariantTy) -> (res: VariantIdx)
    ensures
        variants_of(*final(v)) == variants_of(*old(v)).push(x),
        res.0 == variants_of(*old(v)).len(),
{
    v.inner.push(x)
}

/// `Index::index` of `IndexVec`: the element at the index.
#[verifier::external_body]
fn variants_get(v: &Variants, i: VariantIdx) -> (res: &VariantTy)
    requires
        i.0 < variants_of(*v).len(),
    ensures
        *res == variants_of(*v)[i.0 as int],
{
    &v.inner[i]
}

impl Variants {
    pub fn new() -> (v: Variants)
        ensures
            v@ == Seq::<VariantTy>::empty(),
    {
        variants_new()
    }

    pub fn len(&self) -> (n: usize)
        ensures
            n == self@.len(),
    {
        variants_len(self)
    }

    /// Appends a variant; its index is the number of variants of before.
    pub fn push(&mut self, x: VariantTy) -> (id: VariantIdx)
        ensures
            final(self)@ == old(self)@.push(x),
            id.0 == old(self)@.len(),
    {
        variants_push(self, x)
    }

    /// The variant at an index.
    pub fn get(&self, i: VariantIdx) -> (x: &VariantTy)
        requires
            i.0 < self@.len(),
        ensures
            *x == self@[i.0 as int],
    {
        variants_get(self, i)
    }
}

} // verus!
