//! Node-local storage and replication engine of a content-addressed block
//! store: block naming and integrity checks, reference counts, the
//! time-ordered resync queue, the peer protocol and the reconciliation
//! decisions of the resync engine.
//!
//! File system, key-value store, network and timers are left to the caller:
//! every function here takes plain values and returns plain values.

pub mod codec;
pub mod error;
pub mod hash;
pub mod layout;
pub mod params;
pub mod reconcile;
pub mod refcount;
pub mod resync;
pub mod rpc;
