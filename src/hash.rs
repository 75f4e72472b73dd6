use blake2::Digest;
use vstd::prelude::*;

verus! {

/// Number of bytes of a block hash.
pub const HASH_LEN: usize = 32;

/// A 256-bit BLAKE2 digest identifying a block.
#[derive(Debug)]
pub struct BlockHash {
    bytes: Vec<u8>,
}

impl View for BlockHash {
    type V = Seq<u8>;

    closed spec fn view(&self) -> Seq<u8> {
        self.bytes@
    }
}

impl BlockHash {
    #[verifier::type_invariant]
    spec fn inv(&self) -> bool {
        self.bytes.len() == HASH_LEN
    }

    /// Builds a hash from exactly 32 bytes; any other length gives `None`.
    pub fn from_slice(b: &[u8]) -> (r: Option<BlockHash>)
        ensures
            r is Some <==> b@.len() == HASH_LEN,
            r matches Some(h) ==> h@ == b@,
    {
        if b.len() == HASH_LEN {
            Some(BlockHash { bytes: vstd::slice::slice_to_vec(b) })
        } else {
            None
        }
    }

    /// The 32 bytes of the hash.
    pub fn as_bytes(&self) -> (r: &[u8])
        ensures
            r@ == self@,
            r@.len() == HASH_LEN,
    {
        proof {
            use_type_invariant(self);
        }
        self.bytes.as_slice()
    }

    /// A copy of the hash.
    pub fn copy(&self) -> (r: BlockHash)
        ensures
            r@ == self@,
    {
        proof {
            use_type_invariant(self);
        }
        BlockHash { bytes: self.bytes.clone() }
    }

    /// Byte-wise equality of two hashes.
    pub fn same_as(&self, other: &BlockHash) -> (r: bool)
        ensures
            r == (self@ == other@),
    {
        proof {
            use_type_invariant(self);
            use_type_invariant(other);
        }
        let mut i: usize = 0;
        while i < HASH_LEN
            invariant
                i <= HASH_LEN,
                self@.len() == HASH_LEN,
                other@.len() == HASH_LEN,
                forall|j: int| 0 <= j < i ==> self@[j] == other@[j],
            decreases HASH_LEN - i,
        {
            if self.bytes[i] != other.bytes[i] {
                return false;
            }
            i = i + 1;
        }
        assert(self@ =~= other@);
        true
    }
}

/// The lowercase hexadecimal digits, in order of value.
pub open spec fn hex_digits() -> Seq<char> {
    seq!['0', '1', '2', '3', '4', '5', '6', '7', '8', '9', 'a', 'b', 'c', 'd', 'e', 'f']
}

/// Lowercase hexadecimal rendering: two digits per byte, high nibble first.
pub open spec fn hex_of(b: Seq<u8>) -> Seq<char> {
    Seq::new(
        2 * b.len(),
        |i: int|
            if i % 2 == 0 {
                hex_digits()[(b[i / 2] / 16) as int]
            } else {
                hex_digits()[(b[i / 2] % 16) as int]
            },
    )
}

/// An ASCII hexadecimal digit, either case.
pub open spec fn is_hex_byte(c: u8) -> bool {
    (48 <= c <= 57) || (97 <= c <= 102) || (65 <= c <= 70)
}

/// An ASCII hexadecimal digit in lowercase.
pub open spec fn is_lower_hex_byte(c: u8) -> bool {
    (48 <= c <= 57) || (97 <= c <= 102)
}

/// Value of an ASCII hexadecimal digit.
pub open spec fn hex_value(c: u8) -> u8 {
    if 48 <= c <= 57 {
        (c - 48) as u8
    } else if 97 <= c <= 102 {
        (c - 87) as u8
    } else {
        (c - 55) as u8
    }
}

/// The bytes written by a string of hexadecimal digits, two digits per byte.
pub open spec fn unhex(s: Seq<u8>) -> Seq<u8> {
    Seq::new(
        s.len() / 2,
        |i: int| (hex_value(s[2 * i]) * 16 + hex_value(s[2 * i + 1])) as u8,
    )
}

/// Relies on `hex::encode`: two lowercase digits per byte, high nibble first.
#[verifier::external_body]
pub(crate) fn hex_encode(b: &[u8]) -> (r: String)
    ensures
        r@ == hex_of(b@),
{
    hex::encode(b)
}

/// Relies on `hex::decode`: it accepts an even number of hexadecimal digits
/// of either case and fails on anything else.
#[verifier::external_body]
pub(crate) fn hex_decode(s: &[u8]) -> (r: Option<Vec<u8>>)
    ensures
        r is Some <==> (s@.len() % 2 == 0 && forall|i: int| 0 <= i < s@.len() ==> is_hex_byte(#[trigger] s@[i])),
        r matches Some(v) ==> v@ == unhex(s@),
{
    hex::decode(s).ok()
}

/// The 32-byte BLAKE2 digest of a byte sequence: the first 32 bytes of its
/// BLAKE2b output.
pub uninterp spec fn blake2_of(data: Seq<u8>) -> Seq<u8>;

/// Relies on `blake2::Blake2b`: the digest depends on the bytes alone, and
/// its first 32 bytes are kept.
#[verifier::external_body]
fn blake2_digest(data: &[u8]) -> (r: Vec<u8>)
    ensures
        r@ == blake2_of(data@),
        r@.len() == HASH_LEN,
{
    let mut hasher = blake2::Blake2b::new();
    hasher.update(data);
    hasher.finalize()[..32].to_vec()
}

/// The hash of a block's contents.
pub fn blake2sum(data: &[u8]) -> (r: BlockHash)
    ensures
        r@ == blake2_of(data@),
{
    let bytes = blake2_digest(data);
    BlockHash { bytes }
}

/// The 64-character lowercase hexadecimal name of a hash.
pub fn hash_hex(h: &BlockHash) -> (r: String)
    ensures
        r@ == hex_of(h@),
        r@.len() == 2 * HASH_LEN,
{
    hex_encode(h.as_bytes())
}

} // verus!
