//! Hash maps from integers to integers, hashed with `rustc_hash::FxHasher`.
//!
//! The maps are those of the standard library with the hasher of the
//! `rustc-hash` crate. What each function below says of a map is not proved
//! here: it is what the standard library documents of the method that the
//! function calls, stated over the map's view.

use rustc_hash::FxHashMap;
use rustc_hash::FxHasher;
use vstd::prelude::*;

verus! {

/// `rustc_hash::FxHasher`: an opaque hasher state.
#[verifier::external_type_specification]
#[verifier::external_body]
pub struct ExFxHasher(FxHasher);

/// `std::hash::BuildHasherDefault`: builds a hasher by `Default`.
#[verifier::external_type_specification]
#[verifier::external_body]
#[verifier::reject_recursive_types(H)]
pub struct ExBuildHasherDefault<H>(std::hash::BuildHasherDefault<H>);

/// A map without entries.
pub open spec fn empty_map() -> Map<usize, usize> {
    Map::empty()
}

/// What `get` and `remove` find under a key.
pub open spec fn lookup(m: Map<usize, usize>, k: usize) -> Option<usize> {
    if m.contains_key(k) {
        Some(m[k])
    } else {
        None
    }
}

/// `FxHashMap::default()`: the new map is empty.
#[verifier::external_body]
pub(crate) fn fx_new() -> (res: FxHashMap<usize, usize>)
    ensures
        res@ == empty_map(),
{
    FxHashMap::default()
}

/// `HashMap::insert`: the key maps to the value afterwards, every other key
/// is as it was, and the result is what the key mapped to before.
#[verifier::external_body]
pub(crate) fn fx_insert(m: &mut FxHashMap<usize, usize>, k: usize, v: usize) -> (res: Option<usize>)
    ensures
        final(m)@ == old(m)@.insert(k, v),
        res == lookup(old(m)@, k),
{
    m.insert(k, v)
}

/// `HashMap::get`, copied: what the key maps to, if it maps to anything.
#[verifier::external_body]
pub(crate) fn fx_get(m: &FxHashMap<usize, usize>, k: usize) -> (res: Option<usize>)
    ensures
        res == lookup(m@, k),
{
    m.get(&k).copied()
}

/// `HashMap::remove`: the key maps to nothing afterwards, every other key is
/// as it was, and the result is what the key mapped to before.
#[verifier::external_body]
pub(crate) fn fx_remove(m: &mut FxHashMap<usize, usize>, k: usize) -> (res: Option<usize>)
    ensures
        final(m)@ == old(m)@.remove(k),
        res == lookup(old(m)@, k),
{
    m.remove(&k)
}

/// `HashMap::is_empty`: whether the map holds no key.
#[verifier::external_body]
pub(crate) fn fx_is_empty(m: &FxHashMap<usize, usize>) -> (res: bool)
    ensures
        res == (m@.dom() == Set::<usize>::empty()),
{
    m.is_empty()
}

/// `HashMap::keys`, collected: every key of the map once, in the order in
/// which the map happens to be walked.
#[verifier::external_body]
pub(crate) fn fx_keys(m: &FxHashMap<usize, usize>) -> (res: Vec<usize>)
    ensures
        res@.no_duplicates(),
        res@.to_set() == m@.dom(),
{
    m.keys().copied().collect()
}

} // verus!
