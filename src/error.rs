use crate::hash::BlockHash;
use vstd::prelude::*;

verus! {

/// Errors visible at the boundary of the block manager.
#[derive(Debug)]
pub enum Error {
    /// The block file is not present on this node.
    NotFound,
    /// The block file's contents do not hash to its name.
    CorruptData(BlockHash),
    /// A file system operation failed.
    IoError(String),
    /// A peer call failed.
    RpcError(String),
    /// A message arrived where another kind of message was expected.
    BadRpc(String),
    /// Fewer write nodes than the write quorum: offloading is unsafe.
    QuorumUnavailable,
    /// Any other failure.
    Message(String),
}

} // verus!
