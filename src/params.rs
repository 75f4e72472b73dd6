use vstd::prelude::*;

verus! {

/// Size under which a caller may store a block inline instead of as a file.
pub const INLINE_THRESHOLD: usize = 3072;

/// Number of resync workers per node.
pub const BACKGROUND_WORKERS: u64 = 1;

/// Self-throttle factor of the resync loop.
pub const BACKGROUND_TRANQUILITY: u32 = 3;

/// Timeout of block reads and writes between nodes, in milliseconds; also the
/// grace period between a first reference and a fetch from peers.
pub const BLOCK_RW_TIMEOUT_MS: u64 = 42000;

/// Grace period between the last reference going away and deletion, in
/// milliseconds.
pub const BLOCK_GC_TIMEOUT_MS: u64 = 60000;

/// Timeout of the query that asks peers whether they need a block, in
/// milliseconds.
pub const NEED_BLOCK_QUERY_TIMEOUT_MS: u64 = 5000;

/// Delay before a failed resync of a block is tried again, in milliseconds.
pub const RESYNC_RETRY_TIMEOUT_MS: u64 = 10000;

/// Name of the key-value tree of reference counts.
pub const RC_TREE_NAME: &'static str = "block_local_rc";

/// Name of the key-value tree of the resync queue.
pub const RESYNC_QUEUE_TREE_NAME: &'static str = "block_local_resync_queue";

} // verus!
