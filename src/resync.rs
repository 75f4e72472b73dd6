use crate::codec::{resync_key, resync_key_of, resync_value};
use crate::error::Error;
use crate::hash::BlockHash;
use crate::params::{BLOCK_GC_TIMEOUT_MS, BLOCK_RW_TIMEOUT_MS, RESYNC_RETRY_TIMEOUT_MS};
use crate::refcount::{decref_resync_delay, incref_resync_delay};
use crate::rpc::{BlockRpc, BlockStatus};
use vstd::prelude::*;

verus! {

/// Identity of a node of the cluster: its public key.
#[derive(Debug)]
pub struct NodeId {
    pub key: Vec<u8>,
}

impl View for NodeId {
    type V = Seq<u8>;

    open spec fn view(&self) -> Seq<u8> {
        self.key@
    }
}

impl NodeId {
    /// A copy of the identity.
    pub fn copy(&self) -> (r: NodeId)
        ensures
            r@ == self@,
    {
        NodeId { key: self.key.clone() }
    }

    /// Byte-wise equality of two identities.
    pub fn same_as(&self, other: &NodeId) -> (r: bool)
        ensures
            r == (self@ == other@),
    {
        if self.key.len() != other.key.len() {
            return false;
        }
        let mut i: usize = 0;
        while i < self.key.len()
            invariant
                i <= self@.len(),
                self@.len() == other@.len(),
                forall|j: int| 0 <= j < i ==> self@[j] == other@[j],
            decreases self@.len() - i,
        {
            if self.key[i] != other.key[i] {
                return false;
            }
            i = i + 1;
        }
        assert(self@ =~= other@);
        true
    }
}

/// The identities of a list of nodes.
pub open spec fn ids(v: Seq<NodeId>) -> Seq<Seq<u8>> {
    v.map_values(|n: NodeId| n@)
}

/// The entries of `w` other than `me`, in order.
pub open spec fn others(w: Seq<Seq<u8>>, me: Seq<u8>) -> Seq<Seq<u8>>
    decreases w.len(),
{
    if w.len() == 0 {
        seq![]
    } else if w.last() == me {
        others(w.drop_last(), me)
    } else {
        others(w.drop_last(), me).push(w.last())
    }
}

/// The peers a block is offloaded to: the write nodes of its hash other than
/// this node. Fails with `QuorumUnavailable`, so that nothing is deleted,
/// where there are fewer write nodes than the write quorum.
pub fn offload_targets(write_nodes: &Vec<NodeId>, self_id: &NodeId, write_quorum: usize) -> (r:
    Result<Vec<NodeId>, Error>)
    ensures
        (write_nodes@.len() < write_quorum) <==> r is Err,
        r matches Err(e) ==> e is QuorumUnavailable,
        r matches Ok(v) ==> ids(v@) == others(ids(write_nodes@), self_id@),
{
    if write_nodes.len() < write_quorum {
        return Err(Error::QuorumUnavailable);
    }
    let mut who: Vec<NodeId> = Vec::new();
    let mut i: usize = 0;
    while i < write_nodes.len()
        invariant
            i <= write_nodes@.len(),
            ids(who@) == others(ids(write_nodes@.subrange(0, i as int)), self_id@),
        decreases write_nodes@.len() - i,
    {
        let ghost pre = write_nodes@.subrange(0, i as int);
        let ghost next = write_nodes@.subrange(0, i + 1);
        assert(ids(next).drop_last() =~= ids(pre));
        assert(ids(next).last() == write_nodes@[i as int]@);
        if !write_nodes[i].same_as(self_id) {
            who.push(write_nodes[i].copy());
            assert(ids(who@) =~= others(ids(pre), self_id@).push(write_nodes@[i as int]@));
        }
        i = i + 1;
    }
    assert(write_nodes@.subrange(0, write_nodes@.len() as int) =~= write_nodes@);
    Ok(who)
}

/// A reply to `NeedBlockQuery` that says the peer needs the block.
pub open spec fn says_needed(r: Result<BlockRpc, Error>) -> bool {
    r matches Ok(BlockRpc::NeedBlockReply(true))
}

/// A reply to `NeedBlockQuery` that is a message of another kind.
pub open spec fn is_bad_reply(r: Result<BlockRpc, Error>) -> bool {
    match r {
        Ok(BlockRpc::NeedBlockReply(_)) => false,
        Ok(_) => true,
        Err(_) => false,
    }
}

/// The peers among the first `n` of `who` whose reply says they need the
/// block.
pub open spec fn needers(who: Seq<NodeId>, replies: Seq<Result<BlockRpc, Error>>, n: int) -> Seq<
    Seq<u8>,
>
    decreases n,
{
    if n <= 0 {
        seq![]
    } else if says_needed(replies[n - 1]) {
        needers(who, replies, n - 1).push(who[n - 1]@)
    } else {
        needers(who, replies, n - 1)
    }
}

/// The peers that need the block, from their replies to `NeedBlockQuery`
/// (`replies[i]` is the reply of `who[i]`). A peer whose call failed is left
/// out; a reply that is not a `NeedBlockReply` gives `BadRpc`.
pub fn collect_need_nodes(who: &Vec<NodeId>, replies: &Vec<Result<BlockRpc, Error>>) -> (r:
    Result<Vec<NodeId>, Error>)
    requires
        who@.len() == replies@.len(),
    ensures
        r is Err <==> exists|i: int| 0 <= i < replies@.len() && is_bad_reply(#[trigger] replies@[i]),
        r matches Err(e) ==> e is BadRpc,
        r matches Ok(v) ==> ids(v@) == needers(who@, replies@, who@.len() as int),
{
    let mut need: Vec<NodeId> = Vec::new();
    let mut i: usize = 0;
    while i < who.len()
        invariant
            i <= who@.len(),
            who@.len() == replies@.len(),
            ids(need@) == needers(who@, replies@, i as int),
            forall|j: int| 0 <= j < i ==> !is_bad_reply(#[trigger] replies@[j]),
        decreases who@.len() - i,
    {
        match &replies[i] {
            Ok(BlockRpc::NeedBlockReply(needed)) => {
                if *needed {
                    need.push(who[i].copy());
                    assert(ids(need@) =~= needers(who@, replies@, i as int).push(who@[i as int]@));
                }
            },
            Ok(_) => {
                return Err(Error::BadRpc("Unexpected response to NeedBlockQuery RPC".to_string()));
            },
            Err(_) => {},
        }
        i = i + 1;
    }
    Ok(need)
}

/// Whether the offload of a block may end by deleting its file: the peers
/// that needed it got it (or none needed it), and a fresh look under the
/// mutation lock still finds the file present and unreferenced.
pub fn may_delete(need_nodes_empty: bool, offload_succeeded: bool, recheck: &BlockStatus) -> (r:
    bool)
    ensures
        r == ((need_nodes_empty || offload_succeeded) && recheck.exists && !recheck.needed),
{
    (need_nodes_empty || offload_succeeded) && recheck.exists && !recheck.needed
}

/// What reconciling one block does.
#[derive(Debug, Clone, Copy, PartialEq, Eq, Structural)]
pub enum ReconcileAction {
    /// Presence matches need.
    Nothing,
    /// Present but unreferenced: offload to peers that need it, then delete.
    Offload,
    /// Referenced but missing: fetch from peers and write.
    Fetch,
}

/// The action that a status calls for.
pub open spec fn action_of(exists: bool, needed: bool) -> ReconcileAction {
    if exists && !needed {
        ReconcileAction::Offload
    } else if !exists && needed {
        ReconcileAction::Fetch
    } else {
        ReconcileAction::Nothing
    }
}

/// Chooses the reconciliation of a block from its status.
pub fn plan_reconcile(st: &BlockStatus) -> (r: ReconcileAction)
    ensures
        r == action_of(st.exists, st.needed),
{
    if st.exists && !st.needed {
        ReconcileAction::Offload
    } else if !st.exists && st.needed {
        ReconcileAction::Fetch
    } else {
        ReconcileAction::Nothing
    }
}

/// Whether the block file exists after `a` is carried out on a block with
/// presence `exists`, given whether the peer calls it makes succeed and no
/// reference changes meanwhile.
pub open spec fn exists_after(exists: bool, a: ReconcileAction, peers_ok: bool) -> bool {
    match a {
        ReconcileAction::Nothing => exists,
        ReconcileAction::Offload => if peers_ok {
            false
        } else {
            exists
        },
        ReconcileAction::Fetch => if peers_ok {
            true
        } else {
            exists
        },
    }
}

/// With reachable peers and references left alone, one reconciliation brings
/// a block's presence in line with its need, from any starting state; and
/// where they already agree, reconciliation does nothing, so repeating it
/// keeps them in line.
pub proof fn lemma_reconcile_converges(exists: bool, needed: bool)
    ensures
        exists_after(exists, action_of(exists, needed), true) == needed,
        action_of(exists_after(exists, action_of(exists, needed), true), needed)
            == ReconcileAction::Nothing,
        exists == needed ==> action_of(exists, needed) == ReconcileAction::Nothing,
{
}

/// What one turn of a resync worker does with the queue's smallest entry.
#[derive(Debug, Clone, Copy, PartialEq, Eq, Structural)]
pub enum IterStep {
    /// The queue is empty: park until notified.
    Empty,
    /// The entry is not due: put it back and park for `wait_ms` at most.
    NotDue { wait_ms: u64 },
    /// The entry is due: reconcile its block.
    Due,
}

/// The step for a popped entry due at `due_ms` (`None`: the queue was empty)
/// at time `now_ms`.
pub fn iter_step(due_ms: Option<u64>, now_ms: u64) -> (r: IterStep)
    ensures
        due_ms is None <==> r is Empty,
        due_ms matches Some(t) ==> (now_ms >= t <==> r is Due),
        due_ms matches Some(t) ==> (now_ms < t ==> r == (IterStep::NotDue { wait_ms: (t - now_ms) as u64 })),
{
    match due_ms {
        None => IterStep::Empty,
        Some(t) => if now_ms >= t {
            IterStep::Due
        } else {
            IterStep::NotDue { wait_ms: t - now_ms }
        },
    }
}

/// Key and value of the resync task for `h` that falls due `delay_ms` after
/// `now_ms`.
pub fn resync_entry(h: &BlockHash, now_ms: u64, delay_ms: u64) -> (r: (Vec<u8>, Vec<u8>))
    requires
        now_ms + delay_ms <= u64::MAX,
    ensures
        r.0@ == resync_key_of((now_ms + delay_ms) as u64, h@),
        r.1@ == h@,
{
    (resync_key(now_ms + delay_ms, h), resync_value(h))
}

/// The resync task, if any, that an increment of `h` from `old_rc` queues at
/// `now_ms`: for the first reference only, due after the read/write timeout,
/// so that the uploader has time to put the block before it is fetched.
pub fn incref_task(h: &BlockHash, old_rc: u64, now_ms: u64) -> (r: Option<(Vec<u8>, Vec<u8>)>)
    requires
        now_ms + BLOCK_RW_TIMEOUT_MS <= u64::MAX,
    ensures
        r is Some <==> old_rc == 0,
        r matches Some(e) ==> e.0@ == resync_key_of((now_ms + BLOCK_RW_TIMEOUT_MS) as u64, h@)
            && e.1@ == h@,
{
    match incref_resync_delay(old_rc) {
        Some(delay) => Some(resync_entry(h, now_ms, delay)),
        None => None,
    }
}

/// The resync task, if any, that a decrement of `h` from `old_rc` queues at
/// `now_ms`: only where it removes the entry, due after the
/// garbage-collection timeout.
pub fn decref_task(h: &BlockHash, old_rc: u64, now_ms: u64) -> (r: Option<(Vec<u8>, Vec<u8>)>)
    requires
        now_ms + BLOCK_GC_TIMEOUT_MS <= u64::MAX,
    ensures
        r is Some <==> old_rc == 1,
        r matches Some(e) ==> e.0@ == resync_key_of((now_ms + BLOCK_GC_TIMEOUT_MS) as u64, h@)
            && e.1@ == h@,
{
    match decref_resync_delay(old_rc) {
        Some(delay) => Some(resync_entry(h, now_ms, delay)),
        None => None,
    }
}

/// The resync task, if any, that the reconciliation of `h` leaves behind at
/// `now_ms`: after a failure, the same hash again, due after the retry
/// timeout; after a success, none.
pub fn retry_task(h: &BlockHash, outcome: &Result<(), Error>, now_ms: u64) -> (r: Option<
    (Vec<u8>, Vec<u8>),
>)
    requires
        now_ms + RESYNC_RETRY_TIMEOUT_MS <= u64::MAX,
    ensures
        r is Some <==> outcome is Err,
        r matches Some(e) ==> e.0@ == resync_key_of((now_ms + RESYNC_RETRY_TIMEOUT_MS) as u64, h@)
            && e.1@ == h@,
{
    match outcome {
        Ok(()) => None,
        Err(_) => Some(resync_entry(h, now_ms, RESYNC_RETRY_TIMEOUT_MS)),
    }
}

/// Pause after a unit of background work that took `work_ms`: `tranquility`
/// times as long, saturating at the largest `u64`.
pub fn tranquil_delay(work_ms: u64, tranquility: u32) -> (r: u64)
    ensures
        r == (if work_ms * tranquility <= u64::MAX {
            work_ms * tranquility
        } else {
            u64::MAX as int
        }),
{
    let t = tranquility as u64;
    if t == 0 {
        return 0;
    }
    if work_ms > u64::MAX / t {
        proof {
            assert(work_ms * t > u64::MAX) by (nonlinear_arith)
                requires
                    work_ms > u64::MAX / t,
                    t > 0,
            ;
        }
        u64::MAX
    } else {
        proof {
            assert(work_ms * t <= u64::MAX) by (nonlinear_arith)
                requires
                    work_ms <= u64::MAX / t,
                    t > 0,
            ;
        }
        work_ms * t
    }
}

/// Whether a long scan checks for shutdown at its `i`-th entry: once every
/// 256 entries.
pub fn checks_shutdown_at(i: usize) -> (r: bool)
    ensures
        r == (i % 256 == 0),
{
    i % 256 == 0
}

/// State of a repair scan over the block-reference table, which lists the
/// references of each block together, in hash order.
#[derive(Debug)]
pub struct RepairScan {
    last: Option<BlockHash>,
}

impl RepairScan {
    /// The hash last queued for resync, if any.
    pub closed spec fn last_queued(&self) -> Option<Seq<u8>> {
        match self.last {
            None => None,
            Some(h) => Some(h@),
        }
    }

    /// A scan that has queued nothing yet.
    pub fn new() -> (r: RepairScan)
        ensures
            r.last_queued() is None,
    {
        RepairScan { last: None }
    }

    /// Visits one reference to `block`; returns whether a resync of the block
    /// is to be queued: not where it was just queued, nor where the reference
    /// is marked deleted.
    pub fn visit(&mut self, block: &BlockHash, deleted: bool) -> (r: bool)
        ensures
            r == (!deleted && old(self).last_queued() != Some(block@)),
            r ==> final(self).last_queued() == Some(block@),
            !r ==> final(self).last_queued() == old(self).last_queued(),
    {
        let same = match &self.last {
            Some(l) => l.same_as(block),
            None => false,
        };
        if same || deleted {
            return false;
        }
        self.last = Some(block.copy());
        true
    }
}

} // verus!
