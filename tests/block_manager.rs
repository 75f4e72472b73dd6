use block_manager::codec::{parse_resync_entry, resync_key, u64_from_be_bytes, u64_to_be_bytes};
use block_manager::error::Error;
use block_manager::hash::{blake2sum, hash_hex, BlockHash};
use block_manager::layout::{
    block_dir_names, block_file_name, corrupted_file_name, is_fanout_dir_name, parse_block_file_name,
    tmp_file_name, walk_step, WalkStep,
};
use block_manager::params::{
    BLOCK_GC_TIMEOUT_MS, BLOCK_RW_TIMEOUT_MS, RESYNC_RETRY_TIMEOUT_MS,
};
use block_manager::refcount::{
    decref_resync_delay, incref_resync_delay, rc_decref_update, rc_from_stored, rc_incref_update,
};
use block_manager::reconcile::{reconcile_step, ReconcileCommand, ReconcileEvent, ReconcileState};
use block_manager::resync::{
    checks_shutdown_at, collect_need_nodes, iter_step, may_delete, offload_targets, plan_reconcile,
    decref_task, incref_task, resync_entry, retry_task, tranquil_delay, IterStep, NodeId, ReconcileAction, RepairScan,
};
use block_manager::rpc::{
    block_status, check_block, first_put_block, need_block, read_follow_up, read_reply, route,
    write_plan,
    BlockRpc, BlockStatus, Handler, PutBlockMessage, ReadCheck, WritePlan,
};

const ABC_DIGEST: &str = "ba80a53f981c4d0d6a2797b69f12f6e94c212f14685ac4b74b12bb6fdbffa2d1";
const EMPTY_DIGEST: &str = "786a02f742015903c6c6fd852552d272912f4740e15847618a86e217f71f5419";

fn hash_of_byte(b: u8) -> BlockHash {
    BlockHash::from_slice(&[b; 32]).unwrap()
}

fn node(b: u8) -> NodeId {
    NodeId { key: vec![b; 32] }
}

#[test]
fn blake2_of_abc_matches_known_digest() {
    let h = blake2sum(b"abc");
    assert_eq!(hash_hex(&h), ABC_DIGEST);
}

#[test]
fn blake2_of_empty_matches_known_digest() {
    let h = blake2sum(b"");
    assert_eq!(hash_hex(&h), EMPTY_DIGEST);
}

#[test]
fn hash_from_slice_needs_32_bytes() {
    assert!(BlockHash::from_slice(&[0u8; 31]).is_none());
    assert!(BlockHash::from_slice(&[0u8; 33]).is_none());
    let h = BlockHash::from_slice(&[7u8; 32]).unwrap();
    assert_eq!(h.as_bytes(), &[7u8; 32][..]);
    assert!(h.same_as(&h.copy()));
    assert!(!h.same_as(&hash_of_byte(8)));
}

#[test]
fn hex_name_of_hash() {
    let mut bytes = [0u8; 32];
    bytes[0] = 0xab;
    bytes[1] = 0x0f;
    bytes[31] = 0x10;
    let h = BlockHash::from_slice(&bytes).unwrap();
    let name = block_file_name(&h);
    assert_eq!(name.len(), 64);
    assert!(name.starts_with("ab0f"));
    assert!(name.ends_with("10"));
    let (d0, d1) = block_dir_names(&h);
    assert_eq!(d0, "ab");
    assert_eq!(d1, "0f");
    assert_eq!(tmp_file_name(&h), format!("{}.tmp", name));
    assert_eq!(corrupted_file_name(&h), format!("{}.corrupted", name));
}

#[test]
fn round_trip_hello() {
    let data = b"hello".to_vec();
    let h = blake2sum(&data);
    let name = block_file_name(&h);
    let (d0, d1) = block_dir_names(&h);
    assert_eq!(d0, name[0..2]);
    assert_eq!(d1, name[2..4]);
    match write_plan(&h, false) {
        WritePlan::WriteThenRename { tmp, dst } => {
            assert_eq!(dst, name);
            assert_eq!(tmp, format!("{}.tmp", name));
        }
        WritePlan::AlreadyStored => panic!("a fresh block must be written"),
    }
    match check_block(&h, Some(data.clone())) {
        ReadCheck::Valid(b) => assert_eq!(b, data),
        other => panic!("unexpected {:?}", other),
    }
    match read_reply(&h, check_block(&h, Some(data.clone()))) {
        Ok(BlockRpc::PutBlock(m)) => {
            assert!(m.hash.same_as(&h));
            assert_eq!(m.data, data);
        }
        other => panic!("unexpected {:?}", other),
    }
}

#[test]
fn corruption_detected_for_wrong_contents() {
    let h = blake2sum(b"hello");
    let check = check_block(&h, Some(b"world".to_vec()));
    assert!(matches!(check, ReadCheck::Corrupt));
    let follow_up = read_follow_up(&check);
    assert!(follow_up.quarantine);
    assert!(follow_up.resync_now);
    match read_reply(&h, check_block(&h, Some(b"world".to_vec()))) {
        Err(Error::CorruptData(g)) => assert!(g.same_as(&h)),
        other => panic!("unexpected {:?}", other),
    }
    // the repair task is due at once
    let (key, value) = resync_entry(&h, 1000, 0);
    let (due, g) = parse_resync_entry(&key, &value).unwrap();
    assert_eq!(due, 1000);
    assert!(g.same_as(&h));
    assert_eq!(corrupted_file_name(&h), format!("{}.corrupted", hash_hex(&h)));
}

#[test]
fn bit_flip_is_corrupt() {
    let mut data = b"some block contents".to_vec();
    let h = blake2sum(&data);
    data[3] ^= 0x01;
    let check = check_block(&h, Some(data));
    assert!(matches!(check, ReadCheck::Corrupt));
    let follow_up = read_follow_up(&check);
    assert!(follow_up.quarantine && follow_up.resync_now);
    let intact = check_block(&h, Some(b"some block contents".to_vec()));
    let follow_up = read_follow_up(&intact);
    assert!(!follow_up.quarantine && !follow_up.resync_now);
}

#[test]
fn missing_file_is_not_found() {
    let h = hash_of_byte(1);
    let check = check_block(&h, None);
    assert!(matches!(check, ReadCheck::Missing));
    let follow_up = read_follow_up(&check);
    assert!(!follow_up.quarantine && follow_up.resync_now);
    assert!(matches!(read_reply(&h, ReadCheck::Missing), Err(Error::NotFound)));
}

#[test]
fn write_is_idempotent() {
    let h = blake2sum(b"hello");
    assert!(matches!(write_plan(&h, true), WritePlan::AlreadyStored));
}

#[test]
fn be64_round_trip() {
    for v in [0u64, 1, 255, 256, 0x0102030405060708, u64::MAX] {
        let b = u64_to_be_bytes(v);
        assert_eq!(b, v.to_be_bytes().to_vec());
        assert_eq!(u64_from_be_bytes(&b), v);
    }
}

#[test]
fn resync_keys_sort_by_due_time() {
    let h1 = hash_of_byte(0xff);
    let h2 = hash_of_byte(0x00);
    let k1 = resync_key(255, &h1);
    let k2 = resync_key(256, &h2);
    assert_eq!(k1.len(), 40);
    assert!(k1 < k2);
    let k3 = resync_key(256, &h1);
    assert!(k2 < k3);
}

#[test]
fn parse_resync_entry_rejects_bad_lengths() {
    let h = hash_of_byte(3);
    assert!(parse_resync_entry(&[0u8; 7], h.as_bytes()).is_none());
    assert!(parse_resync_entry(&[0u8; 40], &[0u8; 31]).is_none());
    let (due, g) = parse_resync_entry(&resync_key(77, &h), h.as_bytes()).unwrap();
    assert_eq!(due, 77);
    assert!(g.same_as(&h));
}

#[test]
fn refcount_increments_and_decrements() {
    assert_eq!(rc_from_stored(None), 0);
    let one = rc_incref_update(None).unwrap();
    assert_eq!(one, 1u64.to_be_bytes().to_vec());
    let two = rc_incref_update(Some(&one)).unwrap();
    assert_eq!(rc_from_stored(Some(&two)), 2);
    let back = rc_decref_update(Some(&two)).unwrap();
    assert_eq!(rc_from_stored(Some(&back)), 1);
    assert!(rc_decref_update(Some(&back)).is_none());
    assert!(rc_decref_update(None).is_none());
}

#[test]
fn refcount_never_stores_zero() {
    let mut stored: Option<Vec<u8>> = None;
    let ops = [true, false, false, true, true, false, true, false, false, false];
    let mut model: u64 = 0;
    for inc in ops {
        stored = if inc {
            rc_incref_update(stored.as_deref())
        } else {
            rc_decref_update(stored.as_deref())
        };
        model = if inc { model + 1 } else { model.saturating_sub(1) };
        let rc = rc_from_stored(stored.as_deref());
        assert_eq!(rc, model);
        assert_eq!(rc == 0, stored.is_none());
    }
}

#[test]
fn refcount_resync_delays() {
    assert_eq!(incref_resync_delay(0), Some(BLOCK_RW_TIMEOUT_MS));
    assert_eq!(incref_resync_delay(1), None);
    assert_eq!(decref_resync_delay(1), Some(BLOCK_GC_TIMEOUT_MS));
    assert_eq!(decref_resync_delay(2), None);
    // decrementing an absent entry does nothing
    assert_eq!(decref_resync_delay(0), None);
    assert_eq!(BLOCK_RW_TIMEOUT_MS, 42000);
    assert_eq!(BLOCK_GC_TIMEOUT_MS, 60000);
}

#[test]
fn fetch_on_demand_after_incref() {
    let data = b"payload".to_vec();
    let h = blake2sum(&data);
    // first reference: a resync falls due after the read/write timeout
    let old = rc_from_stored(None);
    let delay = incref_resync_delay(old).unwrap();
    let (key, value) = resync_entry(&h, 5000, delay);
    let (due, _) = parse_resync_entry(&key, &value).unwrap();
    assert_eq!(due, 5000 + 42000);
    assert!(matches!(iter_step(Some(due), 5000), IterStep::NotDue { wait_ms: 42000 }));
    assert_eq!(iter_step(Some(due), due), IterStep::Due);
    let st = block_status(false, 1);
    assert_eq!(plan_reconcile(&st), ReconcileAction::Fetch);
    let resps = vec![
        BlockRpc::Ack,
        BlockRpc::PutBlock(PutBlockMessage { hash: h.copy(), data: data.clone() }),
        BlockRpc::PutBlock(PutBlockMessage { hash: h.copy(), data: b"other".to_vec() }),
    ];
    let got = first_put_block(&resps).unwrap();
    assert_eq!(got, data);
    assert!(matches!(check_block(&h, Some(got)), ReadCheck::Valid(_)));
    assert!(first_put_block(&vec![BlockRpc::Ack, BlockRpc::NeedBlockReply(true)]).is_none());
}

#[test]
fn offload_then_delete() {
    let me = node(0);
    let write_nodes = vec![node(0), node(1), node(2), node(3)];
    let who = offload_targets(&write_nodes, &me, 3).unwrap();
    assert_eq!(who.len(), 3);
    assert_eq!(who[0].key, vec![1u8; 32]);
    assert_eq!(who[2].key, vec![3u8; 32]);
    let replies = vec![
        Ok(BlockRpc::NeedBlockReply(false)),
        Ok(BlockRpc::NeedBlockReply(true)),
        Ok(BlockRpc::NeedBlockReply(false)),
    ];
    let need = collect_need_nodes(&who, &replies).unwrap();
    assert_eq!(need.len(), 1);
    assert_eq!(need[0].key, vec![2u8; 32]);
    let st = block_status(true, 0);
    assert_eq!(plan_reconcile(&st), ReconcileAction::Offload);
    assert!(may_delete(need.is_empty(), true, &st));
    // the put to the one peer failed: the file stays
    assert!(!may_delete(need.is_empty(), false, &st));
    // a reference came back meanwhile: the file stays
    assert!(!may_delete(true, true, &block_status(true, 1)));
}

#[test]
fn offload_skips_failed_peers_and_rejects_bad_replies() {
    let who = vec![node(1), node(2)];
    let replies = vec![
        Err(Error::RpcError("timeout".to_string())),
        Ok(BlockRpc::NeedBlockReply(true)),
    ];
    let need = collect_need_nodes(&who, &replies).unwrap();
    assert_eq!(need.len(), 1);
    assert_eq!(need[0].key, vec![2u8; 32]);
    let bad = vec![Ok(BlockRpc::NeedBlockReply(true)), Ok(BlockRpc::Ack)];
    assert!(matches!(collect_need_nodes(&who, &bad), Err(Error::BadRpc(_))));
}

#[test]
fn offload_without_quorum() {
    let me = node(0);
    let write_nodes = vec![node(0), node(1)];
    assert!(matches!(
        offload_targets(&write_nodes, &me, 3),
        Err(Error::QuorumUnavailable)
    ));
    let h = hash_of_byte(9);
    let (key, value) = resync_entry(&h, 1000, RESYNC_RETRY_TIMEOUT_MS);
    let (due, g) = parse_resync_entry(&key, &value).unwrap();
    assert_eq!(due, 1000 + RESYNC_RETRY_TIMEOUT_MS);
    assert_eq!(due, 11000);
    assert!(g.same_as(&h));
}

#[test]
fn reconcile_converges() {
    for exists in [false, true] {
        for rc in [0u64, 1, 5] {
            let st = block_status(exists, rc);
            let after = match plan_reconcile(&st) {
                ReconcileAction::Nothing => exists,
                ReconcileAction::Offload => false,
                ReconcileAction::Fetch => true,
            };
            assert_eq!(after, rc > 0);
            assert_eq!(plan_reconcile(&block_status(after, rc)), ReconcileAction::Nothing);
        }
    }
}

#[test]
fn need_block_answers() {
    assert!(need_block(&BlockStatus { exists: false, needed: true }));
    assert!(!need_block(&BlockStatus { exists: true, needed: true }));
    assert!(!need_block(&BlockStatus { exists: false, needed: false }));
    assert!(!need_block(&BlockStatus { exists: true, needed: false }));
}

#[test]
fn routing_of_messages() {
    let h = hash_of_byte(4);
    assert!(matches!(route(BlockRpc::GetBlock(h.copy())), Ok(Handler::Read(_))));
    assert!(matches!(route(BlockRpc::NeedBlockQuery(h.copy())), Ok(Handler::NeedQuery(_))));
    match route(BlockRpc::PutBlock(PutBlockMessage { hash: h.copy(), data: vec![1, 2] })) {
        Ok(Handler::Write(m)) => assert_eq!(m.data, vec![1, 2]),
        other => panic!("unexpected {:?}", other),
    }
    assert!(matches!(route(BlockRpc::Ack), Err(Error::BadRpc(_))));
    assert!(matches!(route(BlockRpc::NeedBlockReply(true)), Err(Error::BadRpc(_))));
}

#[test]
fn walk_rules() {
    assert!(is_fanout_dir_name("0a"));
    assert!(!is_fanout_dir_name("0A"));
    assert!(!is_fanout_dir_name("0g"));
    assert!(!is_fanout_dir_name("abc"));
    assert!(matches!(walk_step(1, "ff", true, false), WalkStep::Descend));
    assert!(matches!(walk_step(2, "00", true, false), WalkStep::Descend));
    assert!(matches!(walk_step(3, "00", true, false), WalkStep::Skip));
    assert!(matches!(walk_step(1, "ff", false, true), WalkStep::Skip));
    let h = blake2sum(b"abc");
    let name = hash_hex(&h);
    match walk_step(3, &name, false, true) {
        WalkStep::Block(g) => assert!(g.same_as(&h)),
        other => panic!("unexpected {:?}", other),
    }
    assert!(matches!(walk_step(3, &format!("{}.tmp", name), false, true), WalkStep::Skip));
    assert!(matches!(walk_step(3, &name.to_uppercase(), false, true), WalkStep::Skip));
    assert!(matches!(walk_step(2, &name, false, true), WalkStep::Skip));
    assert!(matches!(walk_step(3, &name, true, false), WalkStep::Skip));
    let parsed = parse_block_file_name(ABC_DIGEST).unwrap();
    assert_eq!(hash_hex(&parsed), ABC_DIGEST);
    assert!(parse_block_file_name(&ABC_DIGEST[..62]).is_none());
}

#[test]
fn tranquility_pauses() {
    assert_eq!(tranquil_delay(100, 3), 300);
    assert_eq!(tranquil_delay(100, 0), 0);
    assert_eq!(tranquil_delay(u64::MAX / 2, 3), u64::MAX);
}

#[test]
fn repair_scan_queues_each_live_block_once() {
    let a = hash_of_byte(1);
    let b = hash_of_byte(2);
    let mut scan = RepairScan::new();
    assert!(scan.visit(&a, false));
    assert!(!scan.visit(&a, false));
    assert!(!scan.visit(&b, true));
    assert!(scan.visit(&b, false));
    assert!(!scan.visit(&b, false));
    assert!(checks_shutdown_at(0));
    assert!(checks_shutdown_at(512));
    assert!(!checks_shutdown_at(255));
}

fn step(
    state: ReconcileState,
    event: ReconcileEvent,
    me: &NodeId,
) -> (ReconcileState, ReconcileCommand) {
    reconcile_step(state, event, me)
}

#[test]
fn reconcile_offload_then_delete() {
    let me = node(0);
    let (s, c) = step(
        ReconcileState::Start,
        ReconcileEvent::Status {
            status: block_status(true, 0),
            write_nodes: vec![node(0), node(1), node(2), node(3)],
            write_quorum: 3,
        },
        &me,
    );
    let who = match c {
        ReconcileCommand::QueryNeed { who } => who,
        other => panic!("unexpected {:?}", other),
    };
    assert_eq!(who.len(), 3);
    let replies = vec![
        Ok(BlockRpc::NeedBlockReply(false)),
        Ok(BlockRpc::NeedBlockReply(true)),
        Ok(BlockRpc::NeedBlockReply(false)),
    ];
    let (s, c) = step(s, ReconcileEvent::NeedReplies(replies), &me);
    match &c {
        ReconcileCommand::ReadAndPut { to } => {
            assert_eq!(to.len(), 1);
            assert_eq!(to[0].key, vec![2u8; 32]);
        }
        other => panic!("unexpected {:?}", other),
    }
    let (s, c) = step(s, ReconcileEvent::PutOutcome(Ok(())), &me);
    assert!(matches!(c, ReconcileCommand::Recheck));
    let (s, c) = step(s, ReconcileEvent::Recheck(block_status(true, 0)), &me);
    assert!(matches!(c, ReconcileCommand::Delete));
    assert!(matches!(s, ReconcileState::Done));
}

#[test]
fn reconcile_failed_put_keeps_file() {
    let me = node(0);
    let (s, _) = step(
        ReconcileState::Start,
        ReconcileEvent::Status {
            status: block_status(true, 0),
            write_nodes: vec![node(1)],
            write_quorum: 1,
        },
        &me,
    );
    let (s, c) = step(s, ReconcileEvent::NeedReplies(vec![Ok(BlockRpc::NeedBlockReply(true))]), &me);
    assert!(matches!(c, ReconcileCommand::ReadAndPut { .. }));
    let (s, c) = step(
        s,
        ReconcileEvent::PutOutcome(Err(Error::RpcError("unreachable".to_string()))),
        &me,
    );
    assert!(matches!(s, ReconcileState::Done));
    assert!(matches!(c, ReconcileCommand::Finish(Err(Error::RpcError(_)))));
}

#[test]
fn reconcile_nobody_needs_then_reference_returns() {
    let me = node(0);
    let (s, _) = step(
        ReconcileState::Start,
        ReconcileEvent::Status {
            status: block_status(true, 0),
            write_nodes: vec![node(1), node(2)],
            write_quorum: 2,
        },
        &me,
    );
    let (s, c) = step(
        s,
        ReconcileEvent::NeedReplies(vec![
            Ok(BlockRpc::NeedBlockReply(false)),
            Err(Error::RpcError("timeout".to_string())),
        ]),
        &me,
    );
    assert!(matches!(c, ReconcileCommand::Recheck));
    let (_, c) = step(s, ReconcileEvent::Recheck(block_status(true, 2)), &me);
    assert!(matches!(c, ReconcileCommand::Finish(Ok(()))));
}

#[test]
fn reconcile_without_quorum() {
    let me = node(0);
    let (s, c) = step(
        ReconcileState::Start,
        ReconcileEvent::Status {
            status: block_status(true, 0),
            write_nodes: vec![node(0), node(1)],
            write_quorum: 3,
        },
        &me,
    );
    assert!(matches!(s, ReconcileState::Done));
    assert!(matches!(c, ReconcileCommand::Finish(Err(Error::QuorumUnavailable))));
}

#[test]
fn reconcile_fetch_then_write() {
    let me = node(0);
    let data = b"fetched".to_vec();
    let h = blake2sum(&data);
    let (s, c) = step(
        ReconcileState::Start,
        ReconcileEvent::Status {
            status: block_status(false, 1),
            write_nodes: vec![],
            write_quorum: 1,
        },
        &me,
    );
    assert!(matches!(c, ReconcileCommand::Fetch));
    let resps = vec![BlockRpc::PutBlock(PutBlockMessage { hash: h.copy(), data: data.clone() })];
    let (s, c) = step(s, ReconcileEvent::Fetched(Ok(resps)), &me);
    match c {
        ReconcileCommand::Write(d) => assert_eq!(d, data),
        other => panic!("unexpected {:?}", other),
    }
    let (s, c) = step(s, ReconcileEvent::Written(Ok(())), &me);
    assert!(matches!(s, ReconcileState::Done));
    assert!(matches!(c, ReconcileCommand::Finish(Ok(()))));
}

#[test]
fn reconcile_nothing_to_do_and_out_of_order() {
    let me = node(0);
    let (_, c) = step(
        ReconcileState::Start,
        ReconcileEvent::Status { status: block_status(true, 1), write_nodes: vec![], write_quorum: 1 },
        &me,
    );
    assert!(matches!(c, ReconcileCommand::Finish(Ok(()))));
    let (_, c) = step(ReconcileState::Start, ReconcileEvent::Written(Ok(())), &me);
    assert!(matches!(c, ReconcileCommand::Finish(Err(Error::Message(_)))));
    let (_, c) = step(ReconcileState::AwaitFetch, ReconcileEvent::Fetched(Ok(vec![BlockRpc::Ack])), &me);
    assert!(matches!(c, ReconcileCommand::Finish(Err(Error::Message(_)))));
}

#[test]
fn incref_task_only_for_first_reference() {
    let h = hash_of_byte(5);
    let (key, value) = incref_task(&h, 0, 1000).unwrap();
    let (due, g) = parse_resync_entry(&key, &value).unwrap();
    assert_eq!(due, 43000);
    assert!(g.same_as(&h));
    assert!(incref_task(&h, 1, 1000).is_none());
    assert!(incref_task(&h, 7, 1000).is_none());
}

#[test]
fn decref_task_only_when_entry_removed() {
    let h = hash_of_byte(6);
    let (key, value) = decref_task(&h, 1, 1000).unwrap();
    let (due, g) = parse_resync_entry(&key, &value).unwrap();
    assert_eq!(due, 61000);
    assert!(g.same_as(&h));
    assert!(decref_task(&h, 0, 1000).is_none());
    assert!(decref_task(&h, 2, 1000).is_none());
    // an absent entry stays absent and schedules nothing
    assert!(rc_decref_update(None).is_none());
}

#[test]
fn retry_task_after_failed_reconcile() {
    let h = hash_of_byte(7);
    let failed: Result<(), Error> = Err(Error::QuorumUnavailable);
    let (key, value) = retry_task(&h, &failed, 2000).unwrap();
    let (due, g) = parse_resync_entry(&key, &value).unwrap();
    assert_eq!(due, 12000);
    assert!(g.same_as(&h));
    assert!(retry_task(&h, &Ok(()), 2000).is_none());
}

#[test]
fn reconcile_hands_on_errors() {
    let me = node(0);
    let (_, c) = step(
        ReconcileState::AwaitFetch,
        ReconcileEvent::Fetched(Err(Error::RpcError("peers down".to_string()))),
        &me,
    );
    match c {
        ReconcileCommand::Finish(Err(Error::RpcError(m))) => assert_eq!(m, "peers down"),
        other => panic!("unexpected {:?}", other),
    }
    let (_, c) = step(
        ReconcileState::AwaitWrite,
        ReconcileEvent::Written(Err(Error::IoError("disk full".to_string()))),
        &me,
    );
    assert!(matches!(c, ReconcileCommand::Finish(Err(Error::IoError(_)))));
}
