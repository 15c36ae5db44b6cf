//! Maps from instruction addresses to block indices, kept in `FxHashMap`s.
use vstd::prelude::*;
use rustc_hash::FxHashMap;

verus! {

/// A map from addresses to indices, held in an `FxHashMap<u32, usize>`.
#[verifier::external_body]
pub struct AddrIndex {
    map: FxHashMap<u32, usize>,
}

/// The address-to-index pairs that `m` holds.
pub uninterp spec fn addr_index_contents(m: AddrIndex) -> Map<u32, usize>;

/// `FxHashMap::default()`: a map with no entries.
#[verifier::external_body]
pub(crate) fn addr_index_new() -> (r: AddrIndex)
    ensures
        addr_index_contents(r) =~= Map::empty(),
{
    AddrIndex { map: FxHashMap::default() }
}

/// `HashMap::insert`: afterwards `key` maps to `value`, replacing what it mapped to before;
/// the other entries stay.
#[verifier::external_body]
pub(crate) fn addr_index_insert(m: &mut AddrIndex, key: u32, value: usize)
    ensures
        addr_index_contents(*final(m)) == addr_index_contents(*old(m)).insert(key, value),
{
    m.map.insert(key, value);
}

/// `HashMap::get`, the index copied out: the index that `key` maps to, or `None` when
/// `key` has no entry.
#[verifier::external_body]
pub(crate) fn addr_index_get(m: &AddrIndex, key: u32) -> (r: Option<usize>)
    ensures
        r == (if addr_index_contents(*m).contains_key(key) {
            Some(addr_index_contents(*m)[key])
        } else {
            None::<usize>
        }),
{
    m.map.get(&key).copied()
}

} // verus!
