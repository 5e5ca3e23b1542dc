//! The property bits that every interned type carries.

use vstd::prelude::*;

verus! {

/// A set of type properties, one bit each.
#[derive(Debug, Clone, Copy, PartialEq, Eq, Hash, Structural)]
pub struct TyFlags {
    pub bits: u32,
}

pub const HAS_ERROR_BIT: u32 = 1;

pub const HAS_INFER_BIT: u32 = 2;

pub const HAS_PARAM_BIT: u32 = 4;

impl TyFlags {
    /// The three bits, from what each stands for.
    pub open spec fn spec_of(has_error: bool, has_infer: bool, has_param: bool) -> TyFlags {
        TyFlags {
            bits: ((if has_error { HAS_ERROR_BIT } else { 0u32 }) | (if has_infer {
                HAS_INFER_BIT
            } else {
                0u32
            }) | (if has_param { HAS_PARAM_BIT } else { 0u32 })),
        }
    }

    pub open spec fn spec_has_error(self) -> bool {
        self.bits & HAS_ERROR_BIT != 0
    }

    pub open spec fn spec_has_infer(self) -> bool {
        self.bits & HAS_INFER_BIT != 0
    }

    pub open spec fn spec_has_param(self) -> bool {
        self.bits & HAS_PARAM_BIT != 0
    }

    /// No bit beyond the three is set.
    pub open spec fn in_range(self) -> bool {
        self.bits & !7u32 == 0
    }

    pub open spec fn spec_union(self, other: TyFlags) -> TyFlags {
        TyFlags { bits: self.bits | other.bits }
    }

    pub open spec fn spec_intersects(self, other: TyFlags) -> bool {
        self.bits & other.bits != 0
    }

    pub open spec fn spec_empty() -> TyFlags {
        TyFlags { bits: 0 }
    }

    #[verifier::when_used_as_spec(spec_empty)]
    pub fn empty() -> (f: TyFlags)
        ensures
            f == TyFlags::spec_empty(),
    {
        TyFlags { bits: 0 }
    }

    pub fn has_error_flag() -> (f: TyFlags)
        ensures
            f == TyFlags::spec_of(true, false, false),
    {
        proof {
            lemma_of_bits(true, false, false);
        }
        TyFlags { bits: HAS_ERROR_BIT }
    }

    pub fn has_infer_flag() -> (f: TyFlags)
        ensures
            f == TyFlags::spec_of(false, true, false),
    {
        proof {
            lemma_of_bits(false, true, false);
        }
        TyFlags { bits: HAS_INFER_BIT }
    }

    pub fn has_param_flag() -> (f: TyFlags)
        ensures
            f == TyFlags::spec_of(false, false, true),
    {
        proof {
            lemma_of_bits(false, false, true);
        }
        TyFlags { bits: HAS_PARAM_BIT }
    }

    #[verifier::when_used_as_spec(spec_union)]
    pub fn union(self, other: TyFlags) -> (f: TyFlags)
        ensures
            f == self.spec_union(other),
    {
        TyFlags { bits: self.bits | other.bits }
    }

    #[verifier::when_used_as_spec(spec_intersects)]
    pub fn intersects(self, other: TyFlags) -> (b: bool)
        ensures
            b == self.spec_intersects(other),
    {
        self.bits & other.bits != 0
    }

    #[verifier::when_used_as_spec(spec_has_error)]
    pub fn has_error(self) -> (b: bool)
        ensures
            b == self.spec_has_error(),
    {
        self.bits & HAS_ERROR_BIT != 0
    }

    #[verifier::when_used_as_spec(spec_has_infer)]
    pub fn has_infer(self) -> (b: bool)
        ensures
            b == self.spec_has_infer(),
    {
        self.bits & HAS_INFER_BIT != 0
    }

    #[verifier::when_used_as_spec(spec_has_param)]
    pub fn has_param(self) -> (b: bool)
        ensures
            b == self.spec_has_param(),
    {
        self.bits & HAS_PARAM_BIT != 0
    }
}

/// The bits of `spec_of`, spelled out.
pub proof fn lemma_of_bits(e: bool, i: bool, p: bool)
    ensures
        TyFlags::spec_of(e, i, p).bits == (if e { 1u32 } else { 0u32 }) + (if i { 2u32 } else { 0u32 })
            + (if p { 4u32 } else { 0u32 }),
        TyFlags::spec_of(e, i, p).spec_has_error() == e,
        TyFlags::spec_of(e, i, p).spec_has_infer() == i,
        TyFlags::spec_of(e, i, p).spec_has_param() == p,
        TyFlags::spec_of(e, i, p).in_range(),
{
    assert(0u32 | 0u32 | 0u32 == 0u32) by (bit_vector);
    assert(1u32 | 0u32 | 0u32 == 1u32) by (bit_vector);
    assert(0u32 | 2u32 | 0u32 == 2u32) by (bit_vector);
    assert(1u32 | 2u32 | 0u32 == 3u32) by (bit_vector);
    assert(0u32 | 0u32 | 4u32 == 4u32) by (bit_vector);
    assert(1u32 | 0u32 | 4u32 == 5u32) by (bit_vector);
    assert(0u32 | 2u32 | 4u32 == 6u32) by (bit_vector);
    assert(1u32 | 2u32 | 4u32 == 7u32) by (bit_vector);
    let b = TyFlags::spec_of(e, i, p).bits;
    assert(b <= 7 ==> (b & 1u32 != 0) == (b == 1 || b == 3 || b == 5 || b == 7)) by (bit_vector);
    assert(b <= 7 ==> (b & 2u32 != 0) == (b == 2 || b == 3 || b == 6 || b == 7)) by (bit_vector);
    assert(b <= 7 ==> (b & 4u32 != 0) == (b >= 4)) by (bit_vector);
    assert(b <= 7 ==> b & !7u32 == 0) by (bit_vector);
}

/// A set of flags in range is the set of its three bits, and the union of two
/// sets holds a bit exactly when one of them does.
pub proof fn lemma_union(a: TyFlags, b: TyFlags)
    ensures
        a.spec_union(b).spec_has_error() == (a.spec_has_error() || b.spec_has_error()),
        a.spec_union(b).spec_has_infer() == (a.spec_has_infer() || b.spec_has_infer()),
        a.spec_union(b).spec_has_param() == (a.spec_has_param() || b.spec_has_param()),
        a.in_range() && b.in_range() ==> a.spec_union(b).in_range(),
{
    let x = a.bits;
    let y = b.bits;
    assert(((x | y) & 1u32 != 0) == ((x & 1u32 != 0) || (y & 1u32 != 0))) by (bit_vector);
    assert(((x | y) & 2u32 != 0) == ((x & 2u32 != 0) || (y & 2u32 != 0))) by (bit_vector);
    assert(((x | y) & 4u32 != 0) == ((x & 4u32 != 0) || (y & 4u32 != 0))) by (bit_vector);
    assert((x & !7u32 == 0 && y & !7u32 == 0) ==> (x | y) & !7u32 == 0) by (bit_vector);
}

/// Two sets in range with the same three bits are the same set.
pub proof fn lemma_flags_ext(a: TyFlags, b: TyFlags)
    requires
        a.in_range(),
        b.in_range(),
        a.spec_has_error() == b.spec_has_error(),
        a.spec_has_infer() == b.spec_has_infer(),
        a.spec_has_param() == b.spec_has_param(),
    ensures
        a == b,
{
    let x = a.bits;
    let y = b.bits;
    assert((x & !7u32 == 0 && y & !7u32 == 0 && ((x & 1u32 != 0) == (y & 1u32 != 0)) && ((x & 2u32
        != 0) == (y & 2u32 != 0)) && ((x & 4u32 != 0) == (y & 4u32 != 0))) ==> x == y)
        by (bit_vector);
}

} // verus!
