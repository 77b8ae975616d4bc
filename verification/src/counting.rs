//! Counting flagged and clean records, on the sequence the store walks
//! and on the map it denotes.

use vstd::prelude::*;
use crate::model::{clean_keys, flagged_keys};
use crate::record::DetectionResult;
use crate::store_map::{lemma_map_contains, records_map, unique_hashes};

verus! {

/// How many elements of `s` are flagged as synthetic.
pub open spec fn count_flagged(s: Seq<DetectionResult>) -> nat
    decreases s.len(),
{
    if s.len() == 0 {
        0
    } else {
        count_flagged(s.drop_last()) + if s.last().is_deepfake {
            1nat
        } else {
            0nat
        }
    }
}

/// How many elements of `s` are not flagged.
pub open spec fn count_clean(s: Seq<DetectionResult>) -> nat
    decreases s.len(),
{
    if s.len() == 0 {
        0
    } else {
        count_clean(s.drop_last()) + if s.last().is_deepfake {
            0nat
        } else {
            1nat
        }
    }
}

/// With distinct identifiers, counting flagged elements of the
/// sequence counts the flagged keys of the denoted map.
pub proof fn lemma_count_flagged_matches(s: Seq<DetectionResult>)
    requires
        unique_hashes(s),
    ensures
        flagged_keys(records_map(s)).finite(),
        flagged_keys(records_map(s)).len() == count_flagged(s),
    decreases s.len(),
{
    if s.len() == 0 {
        assert(flagged_keys(records_map(s)) =~= Set::<Seq<char>>::empty());
    } else {
        let d = s.drop_last();
        let h = s.last().file_hash@;
        assert(unique_hashes(d));
        lemma_count_flagged_matches(d);
        lemma_map_contains(d, h);
        assert(forall|i: int| 0 <= i < d.len() ==> #[trigger] d[i] == s[i]);
        assert(!records_map(d).contains_key(h));
        if s.last().is_deepfake {
            assert(flagged_keys(records_map(s)) =~= flagged_keys(records_map(d)).insert(h));
            assert(!flagged_keys(records_map(d)).contains(h));
        } else {
            assert(flagged_keys(records_map(s)) =~= flagged_keys(records_map(d)));
        }
    }
}

/// With distinct identifiers, counting clean elements of the sequence
/// counts the clean keys of the denoted map.
pub proof fn lemma_count_clean_matches(s: Seq<DetectionResult>)
    requires
        unique_hashes(s),
    ensures
        clean_keys(records_map(s)).finite(),
        clean_keys(records_map(s)).len() == count_clean(s),
    decreases s.len(),
{
    if s.len() == 0 {
        assert(clean_keys(records_map(s)) =~= Set::<Seq<char>>::empty());
    } else {
        let d = s.drop_last();
        let h = s.last().file_hash@;
        assert(unique_hashes(d));
        lemma_count_clean_matches(d);
        lemma_map_contains(d, h);
        assert(forall|i: int| 0 <= i < d.len() ==> #[trigger] d[i] == s[i]);
        assert(!records_map(d).contains_key(h));
        if s.last().is_deepfake {
            assert(clean_keys(records_map(s)) =~= clean_keys(records_map(d)));
        } else {
            assert(clean_keys(records_map(s)) =~= clean_keys(records_map(d)).insert(h));
            assert(!clean_keys(records_map(d)).contains(h));
        }
    }
}

/// A finite set splits into the part satisfying a predicate and the
/// part refuting it.
pub proof fn lemma_filter_partition(s: Set<Seq<char>>, p: spec_fn(Seq<char>) -> bool)
    requires
        s.finite(),
    ensures
        s.filter(p).finite(),
        s.filter((|k: Seq<char>| !p(k))).finite(),
        s.filter(p).len() + s.filter((|k: Seq<char>| !p(k))).len() == s.len(),
    decreases s.len(),
{
    let np = |k: Seq<char>| !p(k);
    if s.len() == 0 {
        assert forall|k: Seq<char>| !(#[trigger] s.contains(k)) by {
            if s.contains(k) {
                vstd::set::axiom_set_contains_len(s, k);
            }
        }
        assert(s.filter(p) =~= Set::<Seq<char>>::empty());
        assert(s.filter(np) =~= Set::<Seq<char>>::empty());
    } else {
        let a = s.choose();
        assert(s.contains(a)) by {
            vstd::set::axiom_set_choose_len(s);
        }
        let t = s.remove(a);
        lemma_filter_partition(t, p);
        if p(a) {
            assert(s.filter(p) =~= t.filter(p).insert(a));
            assert(s.filter(np) =~= t.filter(np));
            assert(!t.filter(p).contains(a));
        } else {
            assert(s.filter(p) =~= t.filter(p));
            assert(s.filter(np) =~= t.filter(np).insert(a));
            assert(!t.filter(np).contains(a));
        }
    }
}

} // verus!
