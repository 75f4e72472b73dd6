use crate::codec::{be64_decode, be64_encode, lemma_be64_round_trip, u64_from_be_bytes, u64_to_be_bytes, U64_LEN};
use crate::params::{BLOCK_GC_TIMEOUT_MS, BLOCK_RW_TIMEOUT_MS};
use vstd::prelude::*;

verus! {

/// A stored reference count is absent or eight bytes.
pub open spec fn stored_rc_ok(stored: Option<Seq<u8>>) -> bool {
    match stored {
        None => true,
        Some(b) => b.len() == U64_LEN,
    }
}

/// The reference count that a stored entry stands for: zero when absent.
pub open spec fn rc_of(stored: Option<Seq<u8>>) -> u64 {
    match stored {
        None => 0,
        Some(b) => be64_decode(b),
    }
}

/// View of an optional byte slice.
pub open spec fn opt_view(o: Option<&[u8]>) -> Option<Seq<u8>> {
    match o {
        None => None,
        Some(b) => Some(b@),
    }
}

/// View of an optional byte vector.
pub open spec fn opt_vec_view(o: Option<Vec<u8>>) -> Option<Seq<u8>> {
    match o {
        None => None,
        Some(b) => Some(b@),
    }
}

/// What incrementing turns a stored entry into: one more than before.
pub open spec fn incref_entry(stored: Option<Seq<u8>>) -> Option<Seq<u8>> {
    Some(be64_encode((rc_of(stored) + 1) as u64))
}

/// What decrementing turns a stored entry into: one less, and no entry at all
/// where that would be zero (or where there was none).
pub open spec fn decref_entry(stored: Option<Seq<u8>>) -> Option<Seq<u8>> {
    if rc_of(stored) > 1 {
        Some(be64_encode((rc_of(stored) - 1) as u64))
    } else {
        None
    }
}

/// Reads a stored reference count; an absent entry counts zero.
pub fn rc_from_stored(stored: Option<&[u8]>) -> (r: u64)
    requires
        stored_rc_ok(opt_view(stored)),
    ensures
        r == rc_of(opt_view(stored)),
{
    match stored {
        None => 0,
        Some(b) => u64_from_be_bytes(b),
    }
}

/// The new stored entry after an increment.
pub fn rc_incref_update(stored: Option<&[u8]>) -> (r: Option<Vec<u8>>)
    requires
        stored_rc_ok(opt_view(stored)),
        rc_of(opt_view(stored)) < u64::MAX,
    ensures
        opt_vec_view(r) == incref_entry(opt_view(stored)),
{
    let old = rc_from_stored(stored);
    Some(u64_to_be_bytes(old + 1))
}

/// The new stored entry after a decrement: `None` removes the entry.
pub fn rc_decref_update(stored: Option<&[u8]>) -> (r: Option<Vec<u8>>)
    requires
        stored_rc_ok(opt_view(stored)),
    ensures
        opt_vec_view(r) == decref_entry(opt_view(stored)),
{
    let old = rc_from_stored(stored);
    if old > 1 {
        Some(u64_to_be_bytes(old - 1))
    } else {
        None
    }
}

/// Delay of the resync task that an increment schedules, given the count
/// before it: only the first reference schedules one, after the read/write
/// timeout, which leaves the uploader time to put the block.
pub fn incref_resync_delay(old_rc: u64) -> (r: Option<u64>)
    ensures
        r == (if old_rc == 0 { Some(BLOCK_RW_TIMEOUT_MS) } else { None::<u64> }),
{
    if old_rc == 0 {
        Some(BLOCK_RW_TIMEOUT_MS)
    } else {
        None
    }
}

/// Delay of the resync task that a decrement schedules, given the count
/// before it: only the decrement that removes the entry (from one to none)
/// schedules one, after the garbage-collection timeout; decrementing an
/// absent entry does nothing.
pub fn decref_resync_delay(old_rc: u64) -> (r: Option<u64>)
    ensures
        r == (if old_rc == 1 { Some(BLOCK_GC_TIMEOUT_MS) } else { None::<u64> }),
{
    if old_rc == 1 {
        Some(BLOCK_GC_TIMEOUT_MS)
    } else {
        None
    }
}

/// The reference count of `h` in a table of stored entries.
pub open spec fn rc_get(table: Map<Seq<u8>, Seq<u8>>, h: Seq<u8>) -> u64 {
    if table.contains_key(h) {
        rc_of(Some(table[h]))
    } else {
        0
    }
}

/// Every stored entry is eight bytes and counts at least one.
pub open spec fn rc_table_ok(table: Map<Seq<u8>, Seq<u8>>) -> bool {
    forall|h: Seq<u8>| #[trigger]
        table.contains_key(h) ==> table[h].len() == U64_LEN && be64_decode(table[h]) >= 1
}

/// The table after storing an update for `h`.
pub open spec fn apply_entry(
    table: Map<Seq<u8>, Seq<u8>>,
    h: Seq<u8>,
    e: Option<Seq<u8>>,
) -> Map<Seq<u8>, Seq<u8>> {
    match e {
        Some(v) => table.insert(h, v),
        None => table.remove(h),
    }
}

/// The stored entry of `h`, if any.
pub open spec fn entry_of(table: Map<Seq<u8>, Seq<u8>>, h: Seq<u8>) -> Option<Seq<u8>> {
    if table.contains_key(h) {
        Some(table[h])
    } else {
        None
    }
}

/// Reference counts stay sound under any interleaving of increments and
/// decrements: each operation keeps every stored entry at one or more, so a
/// count reads zero exactly where no entry exists; an increment raises the
/// count by one and a decrement lowers it by one, never below zero.
pub proof fn lemma_rc_ops_keep_counts_sound(
    table: Map<Seq<u8>, Seq<u8>>,
    h: Seq<u8>,
    is_incref: bool,
)
    requires
        rc_table_ok(table),
        is_incref ==> rc_get(table, h) < u64::MAX,
    ensures
        ({
            let e = if is_incref {
                incref_entry(entry_of(table, h))
            } else {
                decref_entry(entry_of(table, h))
            };
            let t2 = apply_entry(table, h, e);
            &&& rc_table_ok(t2)
            &&& forall|g: Seq<u8>| (rc_get(t2, g) == 0) <==> !t2.contains_key(g)
            &&& is_incref ==> rc_get(t2, h) == rc_get(table, h) + 1
            &&& !is_incref ==> rc_get(t2, h) == (if rc_get(table, h) > 0 {
                rc_get(table, h) - 1
            } else {
                0
            })
            &&& forall|g: Seq<u8>| g != h ==> rc_get(t2, g) == rc_get(table, g)
        }),
{
    let old = rc_get(table, h);
    assert(rc_of(entry_of(table, h)) == old);
    let e = if is_incref {
        incref_entry(entry_of(table, h))
    } else {
        decref_entry(entry_of(table, h))
    };
    let t2 = apply_entry(table, h, e);
    if is_incref {
        lemma_be64_round_trip((old + 1) as u64);
    } else if old > 1 {
        lemma_be64_round_trip((old - 1) as u64);
    }
    assert forall|g: Seq<u8>| #[trigger] t2.contains_key(g) implies t2[g].len() == U64_LEN
        && be64_decode(t2[g]) >= 1 by {
        if g != h {
            assert(table.contains_key(g));
        }
    }
    assert forall|g: Seq<u8>| (rc_get(t2, g) == 0) <==> !t2.contains_key(g) by {
        if t2.contains_key(g) {
            assert(be64_decode(t2[g]) >= 1);
        }
    }
}

/// The table after one increment (`true`) or decrement (`false`) of `h`.
pub open spec fn rc_apply(table: Map<Seq<u8>, Seq<u8>>, op: (Seq<u8>, bool)) -> Map<
    Seq<u8>,
    Seq<u8>,
> {
    let e = if op.1 {
        incref_entry(entry_of(table, op.0))
    } else {
        decref_entry(entry_of(table, op.0))
    };
    apply_entry(table, op.0, e)
}

/// The table after a sequence of increments and decrements, in order.
pub open spec fn rc_run(table: Map<Seq<u8>, Seq<u8>>, ops: Seq<(Seq<u8>, bool)>) -> Map<
    Seq<u8>,
    Seq<u8>,
>
    decreases ops.len(),
{
    if ops.len() == 0 {
        table
    } else {
        rc_apply(rc_run(table, ops.drop_last()), ops.last())
    }
}

/// After any sequence of increments and decrements (none of which takes a
/// count past the largest `u64`), every stored entry counts one or more, so
/// a count reads zero exactly where no entry exists.
pub proof fn lemma_rc_run_sound(table: Map<Seq<u8>, Seq<u8>>, ops: Seq<(Seq<u8>, bool)>)
    requires
        rc_table_ok(table),
        forall|i: int|
            0 <= i < ops.len() && (#[trigger] ops[i]).1 ==> rc_get(
                rc_run(table, ops.take(i)),
                ops[i].0,
            ) < u64::MAX,
    ensures
        rc_table_ok(rc_run(table, ops)),
        forall|g: Seq<u8>|
            (rc_get(rc_run(table, ops), g) == 0) <==> !rc_run(table, ops).contains_key(g),
    decreases ops.len(),
{
    if ops.len() == 0 {
        assert forall|g: Seq<u8>| (rc_get(table, g) == 0) <==> !table.contains_key(g) by {
            if table.contains_key(g) {
                assert(be64_decode(table[g]) >= 1);
            }
        }
    } else {
        let pre = ops.drop_last();
        assert forall|i: int| 0 <= i < pre.len() && (#[trigger] pre[i]).1 implies rc_get(
            rc_run(table, pre.take(i)),
            pre[i].0,
        ) < u64::MAX by {
            assert(pre.take(i) =~= ops.take(i));
            assert(pre[i] == ops[i]);
        }
        lemma_rc_run_sound(table, pre);
        let n = ops.len() - 1;
        assert(ops.take(n) =~= pre);
        assert(ops[n] == ops.last());
        lemma_rc_ops_keep_counts_sound(rc_run(table, pre), ops.last().0, ops.last().1);
    }
}

} // verus!
