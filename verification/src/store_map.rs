//! The map abstraction of the stored record sequence.
//!
//! The store keeps its records in a `Vec` whose content identifiers are
//! pairwise distinct; `records_map` is the `Map` that sequence denotes.
//! The lemmas here relate the sequence operations the store performs
//! (push, in-place update, linear search) to map operations.

use vstd::prelude::*;
use crate::record::{DetectionResult, RecordView};

verus! {

/// The content identifiers of `s` are pairwise distinct.
pub open spec fn unique_hashes(s: Seq<DetectionResult>) -> bool {
    forall|i: int, j: int|
        #![trigger s[i], s[j]]
        0 <= i < j < s.len() ==> s[i].file_hash@ != s[j].file_hash@
}

/// The timestamps of `s` never increase from left to right.
pub open spec fn sorted_by_timestamp_desc(s: Seq<DetectionResult>) -> bool {
    forall|i: int, j: int|
        #![trigger s[i], s[j]]
        0 <= i < j < s.len() ==> s[i].timestamp >= s[j].timestamp
}

/// Some element of `s` carries the content identifier `k`.
pub open spec fn has_hash(s: Seq<DetectionResult>, k: Seq<char>) -> bool {
    exists|i: int| 0 <= i < s.len() && (#[trigger] s[i]).file_hash@ == k
}

/// Every record of the map left out of `s` is no newer than anything
/// in `s`.
pub open spec fn covers_newest(records: Map<Seq<char>, RecordView>, s: Seq<DetectionResult>) -> bool {
    forall|k: Seq<char>, i: int|
        #![trigger records[k], s[i]]
        records.contains_key(k) && !has_hash(s, k) && 0 <= i < s.len() ==> records[k].timestamp
            <= s[i].timestamp
}

/// The map denoted by a record sequence: each element under its
/// content identifier, later elements shadowing earlier ones.
pub open spec fn records_map(s: Seq<DetectionResult>) -> Map<Seq<char>, RecordView>
    decreases s.len(),
{
    if s.len() == 0 {
        Map::empty()
    } else {
        records_map(s.drop_last()).insert(s.last().file_hash@, s.last()@)
    }
}

/// A key is in the map exactly when some element carries it.
pub proof fn lemma_map_contains(s: Seq<DetectionResult>, k: Seq<char>)
    ensures
        records_map(s).contains_key(k) <==> (exists|i: int|
            0 <= i < s.len() && (#[trigger] s[i]).file_hash@ == k),
    decreases s.len(),
{
    if s.len() > 0 {
        lemma_map_contains(s.drop_last(), k);
        if records_map(s).contains_key(k) {
            if s.last().file_hash@ == k {
                assert(s[s.len() - 1].file_hash@ == k);
            } else {
                let i = choose|i: int|
                    0 <= i < s.drop_last().len() && (#[trigger] s.drop_last()[i]).file_hash@ == k;
                assert(s[i].file_hash@ == k);
            }
        }
        if exists|i: int| 0 <= i < s.len() && (#[trigger] s[i]).file_hash@ == k {
            let i = choose|i: int| 0 <= i < s.len() && (#[trigger] s[i]).file_hash@ == k;
            if i < s.len() - 1 {
                assert(s.drop_last()[i].file_hash@ == k);
            }
        }
    }
}

/// With distinct identifiers, the map sends each element's identifier
/// to that element's value.
pub proof fn lemma_map_at(s: Seq<DetectionResult>, i: int)
    requires
        unique_hashes(s),
        0 <= i < s.len(),
    ensures
        records_map(s).contains_key(s[i].file_hash@),
        records_map(s)[s[i].file_hash@] == s[i]@,
    decreases s.len(),
{
    if i == s.len() - 1 {
    } else {
        assert(unique_hashes(s.drop_last()));
        assert(s.drop_last()[i] == s[i]);
        lemma_map_at(s.drop_last(), i);
        assert(s[i].file_hash@ != s.last().file_hash@);
    }
}

/// With distinct identifiers, the map has exactly one key per element.
pub proof fn lemma_map_finite_len(s: Seq<DetectionResult>)
    requires
        unique_hashes(s),
    ensures
        records_map(s).dom().finite(),
        records_map(s).dom().len() == s.len(),
    decreases s.len(),
{
    if s.len() == 0 {
        assert(records_map(s).dom() =~= Set::<Seq<char>>::empty());
    } else {
        let d = s.drop_last();
        assert(unique_hashes(d));
        lemma_map_finite_len(d);
        lemma_map_contains(d, s.last().file_hash@);
        assert(forall|i: int| 0 <= i < d.len() ==> (#[trigger] d[i]).file_hash@
            != s.last().file_hash@) by {
            assert(forall|i: int| 0 <= i < d.len() ==> #[trigger] d[i] == s[i]);
        }
        assert(!records_map(d).contains_key(s.last().file_hash@));
        assert(records_map(s).dom() =~= records_map(d).dom().insert(s.last().file_hash@));
    }
}

/// Appending a record with a fresh identifier inserts it into the map.
pub proof fn lemma_map_push(s: Seq<DetectionResult>, r: DetectionResult)
    ensures
        records_map(s.push(r)) == records_map(s).insert(r.file_hash@, r@),
{
    assert(s.push(r).drop_last() =~= s);
    assert(s.push(r).last() == r);
}

/// Replacing the element that carries an identifier overwrites that
/// key's value and leaves the rest of the map unchanged.
pub proof fn lemma_map_update(s: Seq<DetectionResult>, i: int, r: DetectionResult)
    requires
        unique_hashes(s),
        0 <= i < s.len(),
        r.file_hash@ == s[i].file_hash@,
    ensures
        records_map(s.update(i, r)) == records_map(s).insert(r.file_hash@, r@),
    decreases s.len(),
{
    let u = s.update(i, r);
    if i == s.len() - 1 {
        assert(u.drop_last() =~= s.drop_last());
        assert(u.last() == r);
        assert(records_map(u) =~= records_map(s).insert(r.file_hash@, r@));
    } else {
        assert(unique_hashes(s.drop_last()));
        assert(u.drop_last() =~= s.drop_last().update(i, r));
        assert(u.last() == s.last());
        lemma_map_update(s.drop_last(), i, r);
        assert(s[i].file_hash@ != s.last().file_hash@);
        assert(records_map(u) =~= records_map(s).insert(r.file_hash@, r@));
    }
}

/// Removing an element keeps the remaining identifiers distinct.
pub proof fn lemma_unique_remove(s: Seq<DetectionResult>, k: int)
    requires
        unique_hashes(s),
        0 <= k < s.len(),
    ensures
        unique_hashes(s.remove(k)),
{
    let t = s.remove(k);
    assert forall|i: int, j: int|
        #![trigger t[i], t[j]]
        0 <= i < j < t.len() implies t[i].file_hash@ != t[j].file_hash@ by {
        let si: int = if i < k { i } else { i + 1 };
        let sj: int = if j < k { j } else { j + 1 };
        assert(t[i] == s[si]);
        assert(t[j] == s[sj]);
    }
}

} // verus!
