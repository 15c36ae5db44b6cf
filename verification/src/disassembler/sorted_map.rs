//! A map from addresses kept as a vector of entries in increasing key order.
use vstd::prelude::*;

verus! {

/// Keys strictly increase along `v`.
pub open spec fn keys_sorted<V>(v: Seq<(u64, V)>) -> bool {
    forall|i: int, j: int| 0 <= i < j < v.len() ==> #[trigger] v[i].0 < #[trigger] v[j].0
}

/// `v` holds exactly the entries of `m`, in increasing key order.
pub open spec fn represents<V>(v: Seq<(u64, V)>, m: Map<u64, V>) -> bool {
    &&& keys_sorted(v)
    &&& forall|i: int| 0 <= i < v.len() ==> #[trigger] m.dom().contains(v[i].0) && m[v[i].0] == v[i].1
    &&& forall|k: u64| #[trigger] m.dom().contains(k) ==> exists|i: int| 0 <= i < v.len() && v[i].0 == k
}

/// The position where `key` stands in `v`, or where it would be inserted.
pub(crate) fn position<V>(v: &Vec<(u64, V)>, key: u64) -> (p: usize)
    requires
        keys_sorted(v@),
    ensures
        p <= v.len(),
        forall|i: int| 0 <= i < p ==> #[trigger] v@[i].0 < key,
        forall|i: int| p <= i < v.len() ==> key <= #[trigger] v@[i].0,
{
    let mut lo: usize = 0;
    let mut hi: usize = v.len();
    while lo < hi
        invariant
            keys_sorted(v@),
            lo <= hi <= v.len(),
            forall|i: int| 0 <= i < lo ==> #[trigger] v@[i].0 < key,
            forall|i: int| hi <= i < v.len() ==> key <= #[trigger] v@[i].0,
        decreases hi - lo,
    {
        let mid = lo + (hi - lo) / 2;
        if v[mid].0 < key {
            lo = mid + 1;
        } else {
            hi = mid;
        }
    }
    lo
}

/// Sets `key` to `value`, replacing an entry with the same key.
pub(crate) fn map_insert<V: Copy>(v: &mut Vec<(u64, V)>, key: u64, value: V, Ghost(m): Ghost<Map<u64, V>>)
    requires
        represents(old(v)@, m),
    ensures
        represents(final(v)@, m.insert(key, value)),
{
    let p = position(v, key);
    if p < v.len() && v[p].0 == key {
        v.set(p, (key, value));
        let ghost nm = m.insert(key, value);
        assert forall|k: u64| #[trigger] nm.dom().contains(k) implies exists|i: int| 0 <= i < v@.len() && v@[i].0 == k by {
            if k != key {
                let i = choose|i: int| 0 <= i < old(v)@.len() && old(v)@[i].0 == k;
                assert(v@[i].0 == k);
            } else {
                assert(v@[p as int].0 == k);
            }
        }
    } else {
        v.insert(p, (key, value));
        let ghost nm = m.insert(key, value);
        assert forall|i: int, j: int| 0 <= i < j < v@.len() implies #[trigger] v@[i].0 < #[trigger] v@[j].0 by {
            if i < p && j < p {
                assert(old(v)@[i].0 < old(v)@[j].0);
            } else if i < p && j == p {
            } else if i < p {
                assert(old(v)@[j - 1].0 == v@[j].0);
            } else if i == p {
                assert(old(v)@[j - 1].0 == v@[j].0);
            } else {
                assert(old(v)@[i - 1].0 < old(v)@[j - 1].0);
            }
        }
        assert forall|i: int| 0 <= i < v@.len() implies #[trigger] nm.dom().contains(v@[i].0) && nm[v@[i].0] == v@[i].1 by {
            if i < p {
                assert(v@[i] == old(v)@[i]);
            } else if i > p {
                assert(v@[i] == old(v)@[i - 1]);
            }
        }
        assert forall|k: u64| #[trigger] nm.dom().contains(k) implies exists|i: int| 0 <= i < v@.len() && v@[i].0 == k by {
            if k != key {
                let i = choose|i: int| 0 <= i < old(v)@.len() && old(v)@[i].0 == k;
                if i < p {
                    assert(v@[i].0 == k);
                } else {
                    assert(v@[i + 1].0 == k);
                }
            } else {
                assert(v@[p as int].0 == k);
            }
        }
    }
}

/// The value of `key`, if it has an entry.
pub(crate) fn map_get<V: Copy>(v: &Vec<(u64, V)>, key: u64, Ghost(m): Ghost<Map<u64, V>>) -> (r: Option<V>)
    requires
        represents(v@, m),
    ensures
        r == (if m.dom().contains(key) { Some(m[key]) } else { None }),
{
    let p = position(v, key);
    if p < v.len() && v[p].0 == key {
        Some(v[p].1)
    } else {
        proof {
            if m.dom().contains(key) {
                let i = choose|i: int| 0 <= i < v@.len() && v@[i].0 == key;
                if i < p {
                } else {
                    assert(v@[p as int].0 <= v@[i].0);
                    if (p as int) < i {
                        assert(v@[p as int].0 < v@[i].0);
                    }
                }
            }
        }
        None
    }
}

} // verus!
