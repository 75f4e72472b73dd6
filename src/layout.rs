use crate::hash::{hash_hex, hex_decode, hex_encode, hex_of, is_lower_hex_byte, unhex, BlockHash, HASH_LEN};
use vstd::prelude::*;
use vstd::string::{StringExecFns, StringSliceAdditionalSpecFns};

verus! {

/// Length of the name of a fan-out directory: one byte in hexadecimal.
pub const DIR_NAME_LEN: usize = 2;

/// Length of the name of a block file: a hash in hexadecimal.
pub const FILE_NAME_LEN: usize = 64;

/// `b` is exactly `n` lowercase hexadecimal digits.
pub open spec fn is_lower_hex_name(b: Seq<u8>, n: nat) -> bool {
    b.len() == n && forall|i: int| 0 <= i < b.len() ==> is_lower_hex_byte(#[trigger] b[i])
}

/// Suffix of a file being written.
pub open spec fn tmp_suffix() -> Seq<char> {
    seq!['.', 't', 'm', 'p']
}

/// Suffix of a quarantined file.
pub open spec fn corrupted_suffix() -> Seq<char> {
    seq!['.', 'c', 'o', 'r', 'r', 'u', 'p', 't', 'e', 'd']
}

/// Names of the two fan-out directories of a block, under the data
/// directory: the first byte of its hash in hexadecimal, then the second.
pub fn block_dir_names(h: &BlockHash) -> (r: (String, String))
    ensures
        r.0@ == hex_of(h@.subrange(0, 1)),
        r.1@ == hex_of(h@.subrange(1, 2)),
        r.0@.len() == DIR_NAME_LEN,
        r.1@.len() == DIR_NAME_LEN,
{
    let b = h.as_bytes();
    let d0 = hex_encode(vstd::slice::slice_subrange(b, 0, 1));
    let d1 = hex_encode(vstd::slice::slice_subrange(b, 1, 2));
    (d0, d1)
}

/// Name of a block's file: its hash in lowercase hexadecimal.
pub fn block_file_name(h: &BlockHash) -> (r: String)
    ensures
        r@ == hex_of(h@),
        r@.len() == FILE_NAME_LEN,
{
    hash_hex(h)
}

/// Name of the file a block is written to before it is renamed into place.
pub fn tmp_file_name(h: &BlockHash) -> (r: String)
    ensures
        r@ == hex_of(h@) + tmp_suffix(),
{
    proof {
        reveal_strlit(".tmp");
    }
    let r = hash_hex(h).concat(".tmp");
    assert(".tmp"@ =~= tmp_suffix());
    r
}

/// Name a block's file is given when its contents are found corrupted.
pub fn corrupted_file_name(h: &BlockHash) -> (r: String)
    ensures
        r@ == hex_of(h@) + corrupted_suffix(),
{
    proof {
        reveal_strlit(".corrupted");
    }
    let r = hash_hex(h).concat(".corrupted");
    assert(".corrupted"@ =~= corrupted_suffix());
    r
}

/// Whether `b` is exactly `n` lowercase hexadecimal digits.
fn lower_hex_name(b: &[u8], n: usize) -> (r: bool)
    ensures
        r == is_lower_hex_name(b@, n as nat),
{
    if b.len() != n {
        return false;
    }
    let mut i: usize = 0;
    while i < b.len()
        invariant
            i <= b@.len(),
            forall|j: int| 0 <= j < i ==> is_lower_hex_byte(#[trigger] b@[j]),
        decreases b@.len() - i,
    {
        let c = b[i];
        if !((48 <= c && c <= 57) || (97 <= c && c <= 102)) {
            return false;
        }
        i = i + 1;
    }
    true
}

/// Whether a directory entry's name is that of a fan-out directory: exactly
/// two lowercase hexadecimal digits.
pub fn is_fanout_dir_name(name: &str) -> (r: bool)
    ensures
        r == is_lower_hex_name(name.spec_bytes(), DIR_NAME_LEN as nat),
{
    lower_hex_name(name.as_bytes(), DIR_NAME_LEN)
}

/// The hash that a block file's name stands for: `Some` exactly where the
/// name is 64 lowercase hexadecimal digits.
pub fn parse_block_file_name(name: &str) -> (r: Option<BlockHash>)
    ensures
        r is Some <==> is_lower_hex_name(name.spec_bytes(), FILE_NAME_LEN as nat),
        r matches Some(h) ==> h@ == unhex(name.spec_bytes()),
{
    let b = name.as_bytes();
    if !lower_hex_name(b, FILE_NAME_LEN) {
        return None;
    }
    match hex_decode(b) {
        Some(v) => {
            assert(v@.len() == HASH_LEN);
            BlockHash::from_slice(v.as_slice())
        },
        None => None,
    }
}

/// What a walk of the data directory does with one entry.
#[derive(Debug)]
pub enum WalkStep {
    /// Descend into this fan-out directory.
    Descend,
    /// A block file, with the hash its name stands for.
    Block(BlockHash),
    /// Anything else: ignored.
    Skip,
}

/// The walk rule for an entry found at `depth` (1 for entries of the data
/// directory itself): at depths 1 and 2 only directories named by two
/// lowercase hexadecimal digits are descended into; at depth 3 only regular
/// files named by 64 lowercase hexadecimal digits are blocks.
pub fn walk_step(depth: u32, name: &str, is_dir: bool, is_file: bool) -> (r: WalkStep)
    ensures
        r is Descend <==> (1 <= depth <= 2 && is_dir && is_lower_hex_name(
            name.spec_bytes(),
            DIR_NAME_LEN as nat,
        )),
        r is Block <==> (depth == 3 && is_file && is_lower_hex_name(
            name.spec_bytes(),
            FILE_NAME_LEN as nat,
        )),
        r matches WalkStep::Block(h) ==> h@ == unhex(name.spec_bytes()),
{
    if (depth == 1 || depth == 2) && is_dir && is_fanout_dir_name(name) {
        WalkStep::Descend
    } else if depth == 3 && is_file {
        match parse_block_file_name(name) {
            Some(h) => WalkStep::Block(h),
            None => WalkStep::Skip,
        }
    } else {
        WalkStep::Skip
    }
}

} // verus!
