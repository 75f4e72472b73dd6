use crate::hash::{BlockHash, HASH_LEN};
use vstd::prelude::*;

verus! {

/// Number of bytes of a big-endian `u64`.
pub const U64_LEN: usize = 8;

/// The byte of `v` at big-endian position `k` (0 is the most significant).
pub open spec fn be64_byte(v: u64, k: int) -> u8 {
    if k == 0 {
        (v >> 56u64) as u8
    } else if k == 1 {
        (v >> 48u64) as u8
    } else if k == 2 {
        (v >> 40u64) as u8
    } else if k == 3 {
        (v >> 32u64) as u8
    } else if k == 4 {
        (v >> 24u64) as u8
    } else if k == 5 {
        (v >> 16u64) as u8
    } else if k == 6 {
        (v >> 8u64) as u8
    } else {
        v as u8
    }
}

/// Big-endian encoding of a `u64`: eight bytes, most significant first.
pub open spec fn be64_encode(v: u64) -> Seq<u8> {
    Seq::new(8, |k: int| be64_byte(v, k))
}

/// The `u64` whose big-endian encoding is the first eight bytes of `b`.
pub open spec fn be64_decode(b: Seq<u8>) -> u64 {
    (b[0] as u64) << 56u64 | (b[1] as u64) << 48u64 | (b[2] as u64) << 40u64 | (b[3] as u64)
        << 32u64 | (b[4] as u64) << 24u64 | (b[5] as u64) << 16u64 | (b[6] as u64) << 8u64 | (
    b[7] as u64)
}

/// Decoding an encoded `u64` gives it back.
pub proof fn lemma_be64_round_trip(v: u64)
    ensures
        be64_decode(be64_encode(v)) == v,
        be64_encode(v).len() == U64_LEN,
{
    let b = be64_encode(v);
    assert(b[0] == (v >> 56u64) as u8);
    assert(b[7] == v as u8);
    assert((((v >> 56u64) as u8) as u64) << 56u64 | (((v >> 48u64) as u8) as u64) << 48u64 | (((v
        >> 40u64) as u8) as u64) << 40u64 | (((v >> 32u64) as u8) as u64) << 32u64 | (((v
        >> 24u64) as u8) as u64) << 24u64 | (((v >> 16u64) as u8) as u64) << 16u64 | (((v
        >> 8u64) as u8) as u64) << 8u64 | ((v as u8) as u64) == v) by (bit_vector);
}

/// Reads a big-endian `u64` from exactly eight bytes.
pub fn u64_from_be_bytes(b: &[u8]) -> (r: u64)
    requires
        b@.len() == U64_LEN,
    ensures
        r == be64_decode(b@),
{
    (b[0] as u64) << 56u64 | (b[1] as u64) << 48u64 | (b[2] as u64) << 40u64 | (b[3] as u64)
        << 32u64 | (b[4] as u64) << 24u64 | (b[5] as u64) << 16u64 | (b[6] as u64) << 8u64 | (
    b[7] as u64)
}

/// The big-endian encoding of `v`.
pub fn u64_to_be_bytes(v: u64) -> (r: Vec<u8>)
    ensures
        r@ == be64_encode(v),
{
    let r = vec![
        (v >> 56u64) as u8,
        (v >> 48u64) as u8,
        (v >> 40u64) as u8,
        (v >> 32u64) as u8,
        (v >> 24u64) as u8,
        (v >> 16u64) as u8,
        (v >> 8u64) as u8,
        v as u8,
    ];
    assert(r@ =~= be64_encode(v));
    r
}

/// `a` comes strictly before `b` in byte-wise lexicographic order.
pub open spec fn lex_lt(a: Seq<u8>, b: Seq<u8>) -> bool {
    (exists|k: int|
        0 <= k < a.len() && k < b.len() && a.subrange(0, k) == b.subrange(0, k) && a[k] < b[k])
        || (a.len() < b.len() && a == b.subrange(0, a.len() as int))
}

/// Key of a resync task in the queue: due time in big-endian, then the hash.
pub open spec fn resync_key_of(due_ms: u64, h: Seq<u8>) -> Seq<u8> {
    be64_encode(due_ms) + h
}

/// The key under which a resync task for `h` due at `due_ms` is stored.
pub fn resync_key(due_ms: u64, h: &BlockHash) -> (r: Vec<u8>)
    ensures
        r@ == resync_key_of(due_ms, h@),
{
    let mut r = u64_to_be_bytes(due_ms);
    let hb = h.as_bytes();
    let mut i: usize = 0;
    while i < hb.len()
        invariant
            i <= hb@.len(),
            r@ == be64_encode(due_ms) + hb@.subrange(0, i as int),
        decreases hb@.len() - i,
    {
        r.push(hb[i]);
        i = i + 1;
        assert(r@ =~= be64_encode(due_ms) + hb@.subrange(0, i as int));
    }
    assert(hb@.subrange(0, hb@.len() as int) =~= hb@);
    r
}

/// The value stored beside a resync key: the hash itself.
pub fn resync_value(h: &BlockHash) -> (r: Vec<u8>)
    ensures
        r@ == h@,
{
    vstd::slice::slice_to_vec(h.as_bytes())
}

/// Due time and hash of a stored resync entry; `None` where the key holds
/// fewer than eight bytes or the value is not a 32-byte hash.
pub fn parse_resync_entry(key: &[u8], value: &[u8]) -> (r: Option<(u64, BlockHash)>)
    ensures
        r is Some <==> (key@.len() >= U64_LEN && value@.len() == HASH_LEN),
        r matches Some((t, h)) ==> t == be64_decode(key@) && h@ == value@,
{
    if key.len() < U64_LEN {
        return None;
    }
    let t = u64_from_be_bytes(vstd::slice::slice_subrange(key, 0, U64_LEN));
    assert(be64_decode(key@.subrange(0, 8)) == be64_decode(key@));
    match BlockHash::from_slice(value) {
        Some(h) => Some((t, h)),
        None => None,
    }
}

/// Earlier-due tasks sort first: for due times `t1 < t2`, the key of
/// `(t1, h1)` is lexicographically smaller than the key of `(t2, h2)`, so a
/// queue that pops its smallest key returns the earlier task first.
pub proof fn lemma_resync_key_order(t1: u64, h1: Seq<u8>, t2: u64, h2: Seq<u8>)
    requires
        t1 < t2,
    ensures
        lex_lt(resync_key_of(t1, h1), resync_key_of(t2, h2)),
{
    let a = resync_key_of(t1, h1);
    let b = resync_key_of(t2, h2);
    let k = first_diff_byte(t1, t2);
    assert(a[k] == be64_byte(t1, k));
    assert(b[k] == be64_byte(t2, k));
    assert(a.subrange(0, k) =~= b.subrange(0, k)) by {
        assert forall|j: int| 0 <= j < k implies a[j] == b[j] by {
            assert(a[j] == be64_byte(t1, j));
            assert(b[j] == be64_byte(t2, j));
        }
    }
}

/// Among tasks due at the same time, the one with the smaller hash sorts
/// first.
pub proof fn lemma_resync_key_order_same_time(t: u64, h1: Seq<u8>, h2: Seq<u8>)
    requires
        lex_lt(h1, h2),
    ensures
        lex_lt(resync_key_of(t, h1), resync_key_of(t, h2)),
{
    let a = resync_key_of(t, h1);
    let b = resync_key_of(t, h2);
    let e = be64_encode(t);
    if exists|k: int|
        0 <= k < h1.len() && k < h2.len() && h1.subrange(0, k) == h2.subrange(0, k) && h1[k]
            < h2[k] {
        let k = choose|k: int|
            0 <= k < h1.len() && k < h2.len() && h1.subrange(0, k) == h2.subrange(0, k) && h1[k]
                < h2[k];
        assert(a.subrange(0, 8 + k) =~= e + h1.subrange(0, k));
        assert(b.subrange(0, 8 + k) =~= e + h2.subrange(0, k));
        assert(a[8 + k] == h1[k]);
        assert(b[8 + k] == h2[k]);
    } else {
        assert(a =~= b.subrange(0, a.len() as int));
    }
}

/// Position of the first byte at which the encodings of `t1 < t2` differ;
/// there the byte of `t1` is the smaller.
proof fn first_diff_byte(t1: u64, t2: u64) -> (k: int)
    requires
        t1 < t2,
    ensures
        0 <= k < 8,
        be64_byte(t1, k) < be64_byte(t2, k),
        forall|j: int| 0 <= j < k ==> be64_byte(t1, j) == be64_byte(t2, j),
{
    assert(t1 < t2 ==> ((t1 >> 56u64) as u8) < ((t2 >> 56u64) as u8) || (t1 >> 56u64) == (t2
        >> 56u64)) by (bit_vector);
    assert(t1 < t2 && (t1 >> 56u64) == (t2 >> 56u64) ==> ((t1 >> 48u64) as u8) < ((t2
        >> 48u64) as u8) || (t1 >> 48u64) == (t2 >> 48u64)) by (bit_vector);
    assert(t1 < t2 && (t1 >> 48u64) == (t2 >> 48u64) ==> ((t1 >> 40u64) as u8) < ((t2
        >> 40u64) as u8) || (t1 >> 40u64) == (t2 >> 40u64)) by (bit_vector);
    assert(t1 < t2 && (t1 >> 40u64) == (t2 >> 40u64) ==> ((t1 >> 32u64) as u8) < ((t2
        >> 32u64) as u8) || (t1 >> 32u64) == (t2 >> 32u64)) by (bit_vector);
    assert(t1 < t2 && (t1 >> 32u64) == (t2 >> 32u64) ==> ((t1 >> 24u64) as u8) < ((t2
        >> 24u64) as u8) || (t1 >> 24u64) == (t2 >> 24u64)) by (bit_vector);
    assert(t1 < t2 && (t1 >> 24u64) == (t2 >> 24u64) ==> ((t1 >> 16u64) as u8) < ((t2
        >> 16u64) as u8) || (t1 >> 16u64) == (t2 >> 16u64)) by (bit_vector);
    assert(t1 < t2 && (t1 >> 16u64) == (t2 >> 16u64) ==> ((t1 >> 8u64) as u8) < ((t2
        >> 8u64) as u8) || (t1 >> 8u64) == (t2 >> 8u64)) by (bit_vector);
    assert(t1 < t2 && (t1 >> 8u64) == (t2 >> 8u64) ==> (t1 as u8) < (t2 as u8)) by (bit_vector);
    assert((t1 >> 8u64) == (t2 >> 8u64) ==> (t1 >> 16u64) == (t2 >> 16u64) && ((t1
        >> 8u64) as u8) == ((t2 >> 8u64) as u8)) by (bit_vector);
    assert((t1 >> 16u64) == (t2 >> 16u64) ==> (t1 >> 24u64) == (t2 >> 24u64) && ((t1
        >> 16u64) as u8) == ((t2 >> 16u64) as u8)) by (bit_vector);
    assert((t1 >> 24u64) == (t2 >> 24u64) ==> (t1 >> 32u64) == (t2 >> 32u64) && ((t1
        >> 24u64) as u8) == ((t2 >> 24u64) as u8)) by (bit_vector);
    assert((t1 >> 32u64) == (t2 >> 32u64) ==> (t1 >> 40u64) == (t2 >> 40u64) && ((t1
        >> 32u64) as u8) == ((t2 >> 32u64) as u8)) by (bit_vector);
    assert((t1 >> 40u64) == (t2 >> 40u64) ==> (t1 >> 48u64) == (t2 >> 48u64) && ((t1
        >> 40u64) as u8) == ((t2 >> 40u64) as u8)) by (bit_vector);
    assert((t1 >> 48u64) == (t2 >> 48u64) ==> (t1 >> 56u64) == (t2 >> 56u64) && ((t1
        >> 48u64) as u8) == ((t2 >> 48u64) as u8)) by (bit_vector);
    assert((t1 >> 56u64) == (t2 >> 56u64) ==> ((t1 >> 56u64) as u8) == ((t2
        >> 56u64) as u8)) by (bit_vector);
    if (t1 >> 56u64) != (t2 >> 56u64) {
        0
    } else if (t1 >> 48u64) != (t2 >> 48u64) {
        1
    } else if (t1 >> 40u64) != (t2 >> 40u64) {
        2
    } else if (t1 >> 32u64) != (t2 >> 32u64) {
        3
    } else if (t1 >> 24u64) != (t2 >> 24u64) {
        4
    } else if (t1 >> 16u64) != (t2 >> 16u64) {
        5
    } else if (t1 >> 8u64) != (t2 >> 8u64) {
        6
    } else {
        7
    }
}

} // verus!
