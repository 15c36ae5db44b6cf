//! Little-endian words in byte buffers.
use vstd::prelude::*;

verus! {

/// The little-endian word stored at `off..off + 4` of `s`.
pub open spec fn le32(s: Seq<u8>, off: int) -> u32 {
    (s[off] as u32) | ((s[off + 1] as u32) << 8u32) | ((s[off + 2] as u32) << 16u32) | ((
    s[off + 3] as u32) << 24u32)
}

/// Byte `k` (0 = least significant) of a word.
pub open spec fn byte_of(v: u32, k: u32) -> u8 {
    if k == 0 {
        (v & 0xFF) as u8
    } else if k == 1 {
        ((v >> 8u32) & 0xFF) as u8
    } else if k == 2 {
        ((v >> 16u32) & 0xFF) as u8
    } else {
        ((v >> 24u32) & 0xFF) as u8
    }
}

/// `s` with the little-endian bytes of `v` stored at `off..off + 4`.
pub open spec fn store_le32(s: Seq<u8>, off: int, v: u32) -> Seq<u8> {
    s.update(off, byte_of(v, 0)).update(off + 1, byte_of(v, 1)).update(off + 2, byte_of(v, 2)).update(
        off + 3,
        byte_of(v, 3),
    )
}

/// The bytes of a word reassemble to the word.
pub proof fn lemma_bytes_reassemble(v: u32)
    ensures
        (byte_of(v, 0) as u32) | ((byte_of(v, 1) as u32) << 8u32) | ((byte_of(v, 2) as u32)
            << 16u32) | ((byte_of(v, 3) as u32) << 24u32) == v,
{
    let b0 = byte_of(v, 0);
    let b1 = byte_of(v, 1);
    let b2 = byte_of(v, 2);
    let b3 = byte_of(v, 3);
    assert((b0 as u32) | ((b1 as u32) << 8u32) | ((b2 as u32) << 16u32) | ((b3 as u32) << 24u32)
        == v) by (bit_vector)
        requires
            b0 == (v & 0xFF) as u8,
            b1 == ((v >> 8u32) & 0xFF) as u8,
            b2 == ((v >> 16u32) & 0xFF) as u8,
            b3 == ((v >> 24u32) & 0xFF) as u8,
    ;
}

/// A word read back right after it was stored is the stored word, and a store leaves
/// every byte outside its four untouched.
pub proof fn lemma_store_then_load(s: Seq<u8>, off: int, v: u32)
    requires
        0 <= off,
        off + 4 <= s.len(),
    ensures
        store_le32(s, off, v).len() == s.len(),
        le32(store_le32(s, off, v), off) == v,
        forall|i: int| 0 <= i < s.len() && (i < off || i >= off + 4) ==> #[trigger] store_le32(s, off, v)[i] == s[i],
{
    lemma_bytes_reassemble(v);
}

/// A load is unaffected by a store to four disjoint bytes.
pub proof fn lemma_store_disjoint_load(s: Seq<u8>, off: int, v: u32, other: int)
    requires
        0 <= off,
        off + 4 <= s.len(),
        0 <= other,
        other + 4 <= s.len(),
        other + 4 <= off || off + 4 <= other,
    ensures
        le32(store_le32(s, off, v), other) == le32(s, other),
{
    let t = store_le32(s, off, v);
    assert(t[other] == s[other]);
    assert(t[other + 1] == s[other + 1]);
    assert(t[other + 2] == s[other + 2]);
    assert(t[other + 3] == s[other + 3]);
}

/// Reads the little-endian word at `offset` of `buf`.
pub fn read_u32_le(buf: &Vec<u8>, offset: usize) -> (r: u32)
    requires
        offset + 4 <= buf.len(),
    ensures
        r == le32(buf@, offset as int),
{
    (buf[offset] as u32) | ((buf[offset + 1] as u32) << 8) | ((buf[offset + 2] as u32) << 16) | ((
    buf[offset + 3] as u32) << 24)
}

/// Stores `val` little-endian at `offset` of `buf`.
pub fn write_u32_le(buf: &mut Vec<u8>, offset: usize, val: u32)
    requires
        offset + 4 <= old(buf).len(),
    ensures
        final(buf)@ == store_le32(old(buf)@, offset as int, val),
{
    buf.set(offset, (val & 0xFF) as u8);
    buf.set(offset + 1, ((val >> 8) & 0xFF) as u8);
    buf.set(offset + 2, ((val >> 16) & 0xFF) as u8);
    buf.set(offset + 3, ((val >> 24) & 0xFF) as u8);
    assert(buf@ =~= store_le32(old(buf)@, offset as int, val));
}

/// `s` with the words of `f` stored little-endian from `off` on, one after the other.
pub open spec fn store_words(s: Seq<u8>, off: int, f: Seq<u32>) -> Seq<u8>
    decreases f.len(),
{
    if f.len() == 0 {
        s
    } else {
        store_le32(store_words(s, off, f.drop_last()), off + 4 * (f.len() - 1), f.last())
    }
}

/// After storing a run of words, each word reads back, and the bytes outside the run
/// are unchanged.
pub proof fn lemma_store_words(s: Seq<u8>, off: int, f: Seq<u32>)
    requires
        0 <= off,
        off + 4 * f.len() <= s.len(),
    ensures
        store_words(s, off, f).len() == s.len(),
        forall|i: int| 0 <= i < f.len() ==> #[trigger] le32(store_words(s, off, f), off + 4 * i) == f[i],
        forall|j: int| 0 <= j < s.len() && (j < off || j >= off + 4 * f.len()) ==> #[trigger] store_words(s, off, f)[j] == s[j],
    decreases f.len(),
{
    if f.len() > 0 {
        let g = f.drop_last();
        lemma_store_words(s, off, g);
        let t = store_words(s, off, g);
        let last = off + 4 * (f.len() - 1);
        lemma_store_then_load(t, last, f.last());
        assert forall|i: int| 0 <= i < f.len() implies #[trigger] le32(store_words(s, off, f), off + 4 * i) == f[i] by {
            if i < f.len() - 1 {
                lemma_store_disjoint_load(t, last, f.last(), off + 4 * i);
                assert(g[i] == f[i]);
            }
        }
    }
}

} // verus!
