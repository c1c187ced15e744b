//! The loader's write path: one write per record, keyed by the record's
//! timestamp, applied to the store in sequence so that a later write to the
//! same key replaces an earlier one.

use crate::datetime::{wf_datetime, SENTINEL_TIMESTAMP};
use crate::key::{encode_key, key_bytes_of, lemma_key_injective};
use crate::record::{record_wf, text_bytes, Record};
use vstd::prelude::*;
use vstd::string::StrSliceExecFns;

verus! {

/// One store write: the record's key bytes and its content bytes.
pub struct WriteOp {
    pub key: Vec<u8>,
    pub value: Vec<u8>,
}

/// The write a record gives rise to: its timestamp's key bytes, and the
/// UTF-8 bytes of its content.
pub open spec fn write_op_for(r: Record, op: WriteOp) -> bool {
    &&& op.key@ == key_bytes_of(r.timestamp)
    &&& op.value@ == text_bytes(r.content@)
}

/// The writes the loader issues: one per record, in the records' order.
pub fn plan_writes(records: &Vec<Record>) -> (ops: Vec<WriteOp>)
    ensures
        ops@.len() == records@.len(),
        forall|i: int| 0 <= i < ops@.len() ==> write_op_for(records@[i], #[trigger] ops@[i]),
{
    let mut ops: Vec<WriteOp> = Vec::new();
    let mut idx: usize = 0;
    while idx < records.len()
        invariant
            idx <= records@.len(),
            ops@.len() == idx,
            forall|i: int| 0 <= i < ops@.len() ==> write_op_for(records@[i], #[trigger] ops@[i]),
        decreases records@.len() - idx,
    {
        let key = encode_key(records[idx].timestamp);
        let value = records[idx].content.as_str().as_bytes_vec();
        ops.push(WriteOp { key, value });
        idx = idx + 1;
    }
    ops
}

// ---------------------------------------------------------------------------
// The store's logical contents under a sequence of writes
// ---------------------------------------------------------------------------

/// The store's logical contents after the writes are applied in order to a
/// store holding `m`: each write binds its key, replacing any earlier
/// binding.
pub open spec fn store_after(m: Map<Seq<u8>, Seq<u8>>, ops: Seq<WriteOp>) -> Map<Seq<u8>, Seq<u8>>
    decreases ops.len(),
{
    if ops.len() == 0 {
        m
    } else {
        store_after(m, ops.drop_last()).insert(ops.last().key@, ops.last().value@)
    }
}

/// The value the last write to key `k` carries, if any write touches `k`.
pub open spec fn last_value_for(ops: Seq<WriteOp>, k: Seq<u8>) -> Option<Seq<u8>>
    decreases ops.len(),
{
    if ops.len() == 0 {
        None
    } else if ops.last().key@ == k {
        Some(ops.last().value@)
    } else {
        last_value_for(ops.drop_last(), k)
    }
}

/// The set of keys the writes touch.
pub open spec fn write_keys(ops: Seq<WriteOp>) -> Set<Seq<u8>> {
    Set::new(|k: Seq<u8>| exists|i: int| 0 <= i < ops.len() && (#[trigger] ops[i]).key@ == k)
}

/// What each key holds after the writes: the last value written to it, or
/// what the store held before if no write touched it.
pub proof fn lemma_store_after_lookup(m: Map<Seq<u8>, Seq<u8>>, ops: Seq<WriteOp>, k: Seq<u8>)
    ensures
        last_value_for(ops, k) matches Some(v) ==> store_after(m, ops).dom().contains(k)
            && store_after(m, ops)[k] == v,
        last_value_for(ops, k) is None ==> store_after(m, ops).dom().contains(k) == m.dom().contains(
            k,
        ) && (m.dom().contains(k) ==> store_after(m, ops)[k] == m[k]),
    decreases ops.len(),
{
    if ops.len() > 0 {
        lemma_store_after_lookup(m, ops.drop_last(), k);
    }
}

/// Taking the last write away takes exactly its key out of the written
/// key set.
pub proof fn lemma_write_keys_step(ops: Seq<WriteOp>)
    requires
        ops.len() > 0,
    ensures
        write_keys(ops) =~= write_keys(ops.drop_last()).insert(ops.last().key@),
{
    assert forall|k: Seq<u8>| write_keys(ops.drop_last()).contains(k) implies write_keys(
        ops,
    ).contains(k) by {
        let i = choose|i: int|
            0 <= i < ops.drop_last().len() && (#[trigger] ops.drop_last()[i]).key@ == k;
        assert(ops[i].key@ == k);
    }
    assert forall|k: Seq<u8>| write_keys(ops).contains(k) implies write_keys(
        ops.drop_last(),
    ).contains(k) || k == ops.last().key@ by {
        let i = choose|i: int| 0 <= i < ops.len() && (#[trigger] ops[i]).key@ == k;
        if i < ops.len() - 1 {
            assert(ops.drop_last()[i].key@ == k);
        }
    }
}

/// The keys bound after the writes: those bound before, and those written.
pub proof fn lemma_store_after_dom(m: Map<Seq<u8>, Seq<u8>>, ops: Seq<WriteOp>)
    ensures
        store_after(m, ops).dom() =~= m.dom() + write_keys(ops),
    decreases ops.len(),
{
    if ops.len() == 0 {
        assert(write_keys(ops) =~= Set::<Seq<u8>>::empty());
    } else {
        lemma_store_after_dom(m, ops.drop_last());
        lemma_write_keys_step(ops);
    }
}

/// The writes touch at most as many keys as there are writes.
pub proof fn lemma_write_keys_card(ops: Seq<WriteOp>)
    ensures
        write_keys(ops).finite(),
        write_keys(ops).len() <= ops.len(),
    decreases ops.len(),
{
    if ops.len() == 0 {
        assert(write_keys(ops) =~= Set::<Seq<u8>>::empty());
    } else {
        lemma_write_keys_card(ops.drop_last());
        lemma_write_keys_step(ops);
    }
}

/// Starting from an empty store, the batch ends with at most one entry per
/// write: exactly one per write when no two writes collide on a key, and
/// fewer only through such collisions.
pub proof fn lemma_entry_count(ops: Seq<WriteOp>)
    ensures
        store_after(Map::empty(), ops).dom().finite(),
        store_after(Map::empty(), ops).dom().len() <= ops.len(),
        (forall|i: int, j: int|
            0 <= i < j < ops.len() ==> (#[trigger] ops[i]).key@ != (#[trigger] ops[j]).key@)
            ==> store_after(Map::empty(), ops).dom().len() == ops.len(),
{
    lemma_store_after_dom(Map::empty(), ops);
    lemma_write_keys_card(ops);
    assert(store_after(Map::empty(), ops).dom() =~= write_keys(ops));
    if forall|i: int, j: int|
        0 <= i < j < ops.len() ==> (#[trigger] ops[i]).key@ != (#[trigger] ops[j]).key@ {
        lemma_write_keys_exact(ops);
    }
}

/// Writes with pairwise distinct keys touch exactly one key each.
pub proof fn lemma_write_keys_exact(ops: Seq<WriteOp>)
    requires
        forall|i: int, j: int|
            0 <= i < j < ops.len() ==> (#[trigger] ops[i]).key@ != (#[trigger] ops[j]).key@,
    ensures
        write_keys(ops).finite(),
        write_keys(ops).len() == ops.len(),
    decreases ops.len(),
{
    if ops.len() == 0 {
        assert(write_keys(ops) =~= Set::<Seq<u8>>::empty());
    } else {
        assert forall|i: int, j: int|
            0 <= i < j < ops.drop_last().len() implies (#[trigger] ops.drop_last()[i]).key@ != (
        #[trigger] ops.drop_last()[j]).key@ by {
            assert(ops[i].key@ != ops[j].key@);
        }
        lemma_write_keys_exact(ops.drop_last());
        lemma_write_keys_step(ops);
        if write_keys(ops.drop_last()).contains(ops.last().key@) {
            let i = choose|i: int|
                0 <= i < ops.drop_last().len() && (#[trigger] ops.drop_last()[i]).key@
                    == ops.last().key@;
            assert(ops[i].key@ == ops[ops.len() - 1].key@);
            assert(false);
        }
    }
}

/// The writes of a batch never lose a record's key: after the batch is
/// applied, every record's key is bound in the store.
pub proof fn lemma_no_record_dropped(
    m: Map<Seq<u8>, Seq<u8>>,
    records: Seq<Record>,
    ops: Seq<WriteOp>,
)
    requires
        ops.len() == records.len(),
        forall|i: int| 0 <= i < ops.len() ==> write_op_for(records[i], #[trigger] ops[i]),
    ensures
        forall|i: int|
            0 <= i < records.len() ==> store_after(m, ops).dom().contains(
                key_bytes_of((#[trigger] records[i]).timestamp),
            ),
{
    lemma_store_after_dom(m, ops);
    assert forall|i: int| 0 <= i < records.len() implies store_after(m, ops).dom().contains(
        key_bytes_of((#[trigger] records[i]).timestamp),
    ) by {
        assert(ops[i].key@ == key_bytes_of(records[i].timestamp));
        assert(write_keys(ops).contains(ops[i].key@));
    }
}

/// A malformed record's write is keyed at the sentinel timestamp: the
/// record is still written, not dropped.
pub proof fn lemma_malformed_keyed_at_sentinel(r: Record, op: WriteOp)
    requires
        record_wf(r),
        write_op_for(r, op),
        !wf_datetime(text_bytes(r.raw_date_text@)),
    ensures
        op.key@ == key_bytes_of(SENTINEL_TIMESTAMP),
{
}

/// The value written last for a key is the value of its latest write: if
/// `ops[j]` writes key `k` and no later write touches `k`, the last value
/// for `k` is `ops[j]`'s.
pub proof fn lemma_last_value_at(ops: Seq<WriteOp>, k: Seq<u8>, j: int)
    requires
        0 <= j < ops.len(),
        ops[j].key@ == k,
        forall|l: int| j < l < ops.len() ==> (#[trigger] ops[l]).key@ != k,
    ensures
        last_value_for(ops, k) == Some(ops[j].value@),
    decreases ops.len(),
{
    if j < ops.len() - 1 {
        assert(ops.drop_last()[j] == ops[j]);
        assert forall|l: int| j < l < ops.drop_last().len() implies (#[trigger] ops.drop_last()[l]).key@
            != k by {
            assert(ops.drop_last()[l] == ops[l]);
        }
        lemma_last_value_at(ops.drop_last(), k, j);
    }
}

/// After the batch, the store reflects the last-write-wins merge of the
/// records by key: when no later record of the batch derives record `j`'s
/// timestamp, the entry at record `j`'s key holds record `j`'s content.
pub proof fn lemma_store_reflects_merge(
    m: Map<Seq<u8>, Seq<u8>>,
    records: Seq<Record>,
    ops: Seq<WriteOp>,
    j: int,
)
    requires
        ops.len() == records.len(),
        forall|i: int| 0 <= i < ops.len() ==> write_op_for(records[i], #[trigger] ops[i]),
        0 <= j < records.len(),
        forall|l: int| j < l < records.len() ==> (#[trigger] records[l]).timestamp != records[j].timestamp,
    ensures
        store_after(m, ops).dom().contains(key_bytes_of(records[j].timestamp)),
        store_after(m, ops)[key_bytes_of(records[j].timestamp)] == text_bytes(
            records[j].content@,
        ),
{
    let k = key_bytes_of(records[j].timestamp);
    assert forall|l: int| j < l < ops.len() implies (#[trigger] ops[l]).key@ != k by {
        lemma_key_injective(records[l].timestamp, records[j].timestamp);
    }
    lemma_last_value_at(ops, k, j);
    lemma_store_after_lookup(m, ops, k);
}

/// Last write wins: when two records derive the same timestamp and their
/// writes are applied in order, the store entry at the shared key holds the
/// later record's content, never the earlier one's.
pub proof fn lemma_last_write_wins(
    m: Map<Seq<u8>, Seq<u8>>,
    r1: Record,
    r2: Record,
    op1: WriteOp,
    op2: WriteOp,
)
    requires
        r1.timestamp == r2.timestamp,
        write_op_for(r1, op1),
        write_op_for(r2, op2),
    ensures
        store_after(m, seq![op1, op2]).dom().contains(key_bytes_of(r2.timestamp)),
        store_after(m, seq![op1, op2])[key_bytes_of(r2.timestamp)] == text_bytes(r2.content@),
{
    let ops = seq![op1, op2];
    assert(ops.last() == op2);
    lemma_store_after_lookup(m, ops, key_bytes_of(r2.timestamp));
}

} // verus!
