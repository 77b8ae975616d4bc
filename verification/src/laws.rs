//! Store-wide laws, stated over the mathematical model and proved once
//! and for all.

use vstd::prelude::*;
use crate::counting::lemma_filter_partition;
use crate::model::{
    RecordArgs, StoreView, clean_keys, flagged_keys, record_applied, record_of,
};
use crate::record::RecordView;

verus! {

/// The state after a whole sequence of write calls, applied in order.
pub open spec fn apply_records(m: StoreView, calls: Seq<RecordArgs>) -> StoreView
    decreases calls.len(),
{
    if calls.len() == 0 {
        m
    } else {
        record_applied(apply_records(m, calls.drop_last()), calls.last())
    }
}

/// Law: every write call counts.  After any sequence of calls the
/// counter has grown by exactly their number, key collisions included.
pub proof fn lemma_total_scans_counts_calls(m: StoreView, calls: Seq<RecordArgs>)
    ensures
        apply_records(m, calls).total_scans == m.total_scans + calls.len(),
    decreases calls.len(),
{
    if calls.len() > 0 {
        lemma_total_scans_counts_calls(m, calls.drop_last());
    }
}

/// Law: starting from a fresh store, the counter after N write calls
/// is exactly N.
pub proof fn lemma_total_scans_from_init(calls: Seq<RecordArgs>)
    ensures
        apply_records(StoreView::init(), calls).total_scans == calls.len(),
{
    lemma_total_scans_counts_calls(StoreView::init(), calls);
}

/// Law: a write is read back exactly.  After one write call, the key
/// holds precisely the record built from that call's arguments.
pub proof fn lemma_record_then_lookup(m: StoreView, a: RecordArgs)
    ensures
        record_applied(m, a).records.contains_key(a.file_hash),
        record_applied(m, a).records[a.file_hash] == record_of(a),
{
}

/// Law: re-recording a key overwrites the prior record entirely — the
/// store ends exactly as if only the second call had written the key —
/// while the counter still counts both calls.
pub proof fn lemma_rerecord_overwrites(m: StoreView, a1: RecordArgs, a2: RecordArgs)
    requires
        a1.file_hash == a2.file_hash,
    ensures
        record_applied(record_applied(m, a1), a2).records == record_applied(m, a2).records,
        record_applied(record_applied(m, a1), a2).total_scans == m.total_scans + 2,
{
    assert(record_applied(record_applied(m, a1), a2).records =~= record_applied(
        m,
        a2,
    ).records);
}

/// Law: no record is ever deleted.  A write call only adds its own key
/// to the domain; every key recorded before is still recorded after.
pub proof fn lemma_no_deletion(m: StoreView, a: RecordArgs)
    ensures
        record_applied(m, a).records.dom() == m.records.dom().insert(a.file_hash),
{
    assert(record_applied(m, a).records.dom() =~= m.records.dom().insert(a.file_hash));
}

/// Law: the flagged and the clean records partition the store.  Their
/// counts add up to the number of distinct keys ever recorded, whatever
/// the write-call counter says.
pub proof fn lemma_flagged_clean_partition(records: Map<Seq<char>, RecordView>)
    requires
        records.dom().finite(),
    ensures
        flagged_keys(records).len() + clean_keys(records).len() == records.dom().len(),
{
    let p = |k: Seq<char>| records[k].is_deepfake;
    lemma_filter_partition(records.dom(), p);
    assert(records.dom().filter(p) =~= flagged_keys(records));
    assert(records.dom().filter((|k: Seq<char>| !p(k))) =~= clean_keys(records));
}

} // verus!
