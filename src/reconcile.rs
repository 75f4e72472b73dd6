use crate::error::Error;
use crate::resync::{
    action_of, collect_need_nodes, ids, is_bad_reply, may_delete, needers, offload_targets,
    others, plan_reconcile, NodeId, ReconcileAction,
};
use crate::rpc::{first_put_block, first_put_data, BlockRpc, BlockStatus};
use vstd::prelude::*;

verus! {

/// Where the reconciliation of one block stands.
#[derive(Debug)]
pub enum ReconcileState {
    /// Waiting for the block's status.
    Start,
    /// Waiting for the replies of `who` to `NeedBlockQuery`.
    AwaitNeedReplies { who: Vec<NodeId> },
    /// Waiting for the block to be read and put to the peers that need it.
    AwaitPut,
    /// Waiting for the status re-read under the mutation lock.
    AwaitRecheck { need_nodes_empty: bool, offloaded: bool },
    /// Waiting for the responses to `GetBlock`.
    AwaitFetch,
    /// Waiting for the fetched block to be written.
    AwaitWrite,
    /// Finished.
    Done,
}

/// What the outside world reports to a reconciliation.
#[derive(Debug)]
pub enum ReconcileEvent {
    /// The block's status, with the replication policy's write nodes and
    /// write quorum for its hash.
    Status { status: BlockStatus, write_nodes: Vec<NodeId>, write_quorum: usize },
    /// Replies to `NeedBlockQuery`, one per queried peer, in order.
    NeedReplies(Vec<Result<BlockRpc, Error>>),
    /// Outcome of reading the block and putting it to the peers.
    PutOutcome(Result<(), Error>),
    /// The status re-read under the mutation lock.
    Recheck(BlockStatus),
    /// Responses to `GetBlock`.
    Fetched(Result<Vec<BlockRpc>, Error>),
    /// Outcome of writing the fetched block.
    Written(Result<(), Error>),
}

/// What a reconciliation asks the outside world to do next.
#[derive(Debug)]
pub enum ReconcileCommand {
    /// Send `NeedBlockQuery` to each of `who` and report the replies.
    QueryNeed { who: Vec<NodeId> },
    /// Read the block (with its integrity check) and put it to all of `to`,
    /// with a quorum of all of them; report the outcome.
    ReadAndPut { to: Vec<NodeId> },
    /// Take the mutation lock and report the block's status.
    Recheck,
    /// Still under that lock, remove the block's file; then finish.
    Delete,
    /// Ask the read nodes for the block and report the responses.
    Fetch,
    /// Write these bytes as the block and report the outcome.
    Write(Vec<u8>),
    /// Finish with this outcome.
    Finish(Result<(), Error>),
}

/// A failure that ends a reconciliation where the event does not belong to
/// the state.
pub open spec fn is_out_of_order(r: (ReconcileState, ReconcileCommand)) -> bool {
    r.0 is Done && (r.1 matches ReconcileCommand::Finish(Err(Error::Message(_))))
}

/// One step of the reconciliation of a block: from the current state and
/// what the outside world reported, the next state and what it is to do.
/// Offloading deletes only after every peer that needed the block got it (or
/// none needed it) and a fresh status under the lock is present and
/// unreferenced; fetching writes the first block that a read node returned.
pub fn reconcile_step(state: ReconcileState, event: ReconcileEvent, self_id: &NodeId) -> (r: (
    ReconcileState,
    ReconcileCommand,
))
    ensures
        // status: choose the action
        state is Start ==> match event {
            ReconcileEvent::Status { status, write_nodes, write_quorum } => match action_of(
                status.exists,
                status.needed,
            ) {
                ReconcileAction::Nothing => r.0 is Done && (r.1 matches ReconcileCommand::Finish(
                    Ok(_),
                )),
                ReconcileAction::Fetch => r.0 is AwaitFetch && r.1 is Fetch,
                ReconcileAction::Offload => if write_nodes@.len() < write_quorum {
                    r.0 is Done && (r.1 matches ReconcileCommand::Finish(
                        Err(Error::QuorumUnavailable),
                    ))
                } else {
                    (r.0 matches ReconcileState::AwaitNeedReplies { who } && ids(who@) == others(
                        ids(write_nodes@),
                        self_id@,
                    )) && (r.1 matches ReconcileCommand::QueryNeed { who } && ids(who@)
                        == others(ids(write_nodes@), self_id@))
                },
            },
            _ => is_out_of_order(r),
        },
        // replies to the need query: pick the peers to send to
        state matches ReconcileState::AwaitNeedReplies { who } ==> match event {
            ReconcileEvent::NeedReplies(replies) => if replies@.len() != who@.len() {
                is_out_of_order(r)
            } else if exists|i: int| 0 <= i < replies@.len() && is_bad_reply(#[trigger] replies@[i]) {
                r.0 is Done && (r.1 matches ReconcileCommand::Finish(Err(Error::BadRpc(_))))
            } else if needers(who@, replies@, who@.len() as int).len() == 0 {
                (r.0 matches ReconcileState::AwaitRecheck { need_nodes_empty, offloaded }
                    && need_nodes_empty && !offloaded) && r.1 is Recheck
            } else {
                r.0 is AwaitPut && (r.1 matches ReconcileCommand::ReadAndPut { to } && ids(to@)
                    == needers(who@, replies@, who@.len() as int))
            },
            _ => is_out_of_order(r),
        },
        // outcome of the offload
        state is AwaitPut ==> match event {
            ReconcileEvent::PutOutcome(Ok(_)) => (r.0 matches ReconcileState::AwaitRecheck {
                need_nodes_empty,
                offloaded,
            } && !need_nodes_empty && offloaded) && r.1 is Recheck,
            ReconcileEvent::PutOutcome(Err(e)) => r.0 is Done && r.1 == ReconcileCommand::Finish(
                Err(e),
            ),
            _ => is_out_of_order(r),
        },
        // fresh status under the lock: delete or keep
        state matches ReconcileState::AwaitRecheck { need_nodes_empty, offloaded } ==> match event {
            ReconcileEvent::Recheck(st) => r.0 is Done && (r.1 is Delete <==> (
            need_nodes_empty || offloaded) && st.exists && !st.needed) && (!(r.1 is Delete)
                ==> (r.1 matches ReconcileCommand::Finish(Ok(_)))),
            _ => is_out_of_order(r),
        },
        // responses to the fetch
        state is AwaitFetch ==> match event {
            ReconcileEvent::Fetched(Ok(resps)) => match first_put_data(resps@) {
                Some(d) => r.0 is AwaitWrite && (r.1 matches ReconcileCommand::Write(data)
                    && data@ == d),
                None => r.0 is Done && (r.1 matches ReconcileCommand::Finish(
                    Err(Error::Message(_)),
                )),
            },
            ReconcileEvent::Fetched(Err(e)) => r.0 is Done && r.1 == ReconcileCommand::Finish(
                Err(e),
            ),
            _ => is_out_of_order(r),
        },
        // outcome of the write
        state is AwaitWrite ==> match event {
            ReconcileEvent::Written(Ok(_)) => r.0 is Done && (r.1 matches ReconcileCommand::Finish(
                Ok(_),
            )),
            ReconcileEvent::Written(Err(e)) => r.0 is Done && r.1 == ReconcileCommand::Finish(
                Err(e),
            ),
            _ => is_out_of_order(r),
        },
        state is Done ==> is_out_of_order(r),
        // deletion is asked for only after a recheck that allows it
        r.1 is Delete ==> (state matches ReconcileState::AwaitRecheck { need_nodes_empty, offloaded }
            && (event matches ReconcileEvent::Recheck(st) && (need_nodes_empty || offloaded)
            && st.exists && !st.needed)),
{
    let out_of_order = (
        ReconcileState::Done,
        ReconcileCommand::Finish(Err(Error::Message("event out of order".to_string()))),
    );
    match state {
        ReconcileState::Start => match event {
            ReconcileEvent::Status { status, write_nodes, write_quorum } => match plan_reconcile(
                &status,
            ) {
                ReconcileAction::Nothing => (ReconcileState::Done, ReconcileCommand::Finish(Ok(()))),
                ReconcileAction::Fetch => (ReconcileState::AwaitFetch, ReconcileCommand::Fetch),
                ReconcileAction::Offload => match offload_targets(
                    &write_nodes,
                    self_id,
                    write_quorum,
                ) {
                    Err(e) => (ReconcileState::Done, ReconcileCommand::Finish(Err(e))),
                    Ok(who) => {
                        let who2 = copy_nodes(&who);
                        (
                            ReconcileState::AwaitNeedReplies { who },
                            ReconcileCommand::QueryNeed { who: who2 },
                        )
                    },
                },
            },
            _ => out_of_order,
        },
        ReconcileState::AwaitNeedReplies { who } => match event {
            ReconcileEvent::NeedReplies(replies) => {
                if replies.len() != who.len() {
                    return out_of_order;
                }
                match collect_need_nodes(&who, &replies) {
                    Err(e) => (ReconcileState::Done, ReconcileCommand::Finish(Err(e))),
                    Ok(need) => {
                        if need.len() == 0 {
                            (
                                ReconcileState::AwaitRecheck {
                                    need_nodes_empty: true,
                                    offloaded: false,
                                },
                                ReconcileCommand::Recheck,
                            )
                        } else {
                            (ReconcileState::AwaitPut, ReconcileCommand::ReadAndPut { to: need })
                        }
                    },
                }
            },
            _ => out_of_order,
        },
        ReconcileState::AwaitPut => match event {
            ReconcileEvent::PutOutcome(Ok(())) => (
                ReconcileState::AwaitRecheck { need_nodes_empty: false, offloaded: true },
                ReconcileCommand::Recheck,
            ),
            ReconcileEvent::PutOutcome(Err(e)) => (
                ReconcileState::Done,
                ReconcileCommand::Finish(Err(e)),
            ),
            _ => out_of_order,
        },
        ReconcileState::AwaitRecheck { need_nodes_empty, offloaded } => match event {
            ReconcileEvent::Recheck(st) => {
                if may_delete(need_nodes_empty, offloaded, &st) {
                    (ReconcileState::Done, ReconcileCommand::Delete)
                } else {
                    (ReconcileState::Done, ReconcileCommand::Finish(Ok(())))
                }
            },
            _ => out_of_order,
        },
        ReconcileState::AwaitFetch => match event {
            ReconcileEvent::Fetched(Ok(resps)) => match first_put_block(&resps) {
                Some(data) => (ReconcileState::AwaitWrite, ReconcileCommand::Write(data)),
                None => (
                    ReconcileState::Done,
                    ReconcileCommand::Finish(
                        Err(Error::Message("no valid blocks returned".to_string())),
                    ),
                ),
            },
            ReconcileEvent::Fetched(Err(e)) => (
                ReconcileState::Done,
                ReconcileCommand::Finish(Err(e)),
            ),
            _ => out_of_order,
        },
        ReconcileState::AwaitWrite => match event {
            ReconcileEvent::Written(Ok(())) => (
                ReconcileState::Done,
                ReconcileCommand::Finish(Ok(())),
            ),
            ReconcileEvent::Written(Err(e)) => (
                ReconcileState::Done,
                ReconcileCommand::Finish(Err(e)),
            ),
            _ => out_of_order,
        },
        ReconcileState::Done => out_of_order,
    }
}

/// A copy of a list of node identities.
fn copy_nodes(v: &Vec<NodeId>) -> (r: Vec<NodeId>)
    ensures
        ids(r@) == ids(v@),
{
    let mut r: Vec<NodeId> = Vec::new();
    let mut i: usize = 0;
    while i < v.len()
        invariant
            i <= v@.len(),
            r@.len() == i,
            forall|j: int| 0 <= j < i ==> (#[trigger] r@[j])@ == v@[j]@,
        decreases v@.len() - i,
    {
        r.push(v[i].copy());
        i = i + 1;
    }
    assert(ids(r@) =~= ids(v@));
    r
}

} // verus!
