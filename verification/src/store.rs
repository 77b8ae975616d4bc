//! The result store and its query surface.

use vstd::prelude::*;
use crate::counting::{
    count_clean, count_flagged, lemma_count_clean_matches, lemma_count_flagged_matches,
};
use crate::model::{RecordArgs, StoreView, clean_keys, flagged_keys, record_applied};
use crate::record::DetectionResult;
use crate::store_map::{
    covers_newest, has_hash, lemma_map_at, lemma_map_contains, lemma_map_finite_len,
    lemma_map_push, lemma_map_update, lemma_unique_remove, records_map, sorted_by_timestamp_desc,
    unique_hashes,
};

verus! {

broadcast use vstd::seq_lib::group_to_multiset_ensures;

/// The record store: one entry per content identifier, a counter of
/// all write calls, and the (unconsulted) agent identity list.
pub struct DeepfakeContract {
    results: Vec<DetectionResult>,
    authorized_agents: Vec<String>,
    total_scans: u64,
}

impl View for DeepfakeContract {
    type V = StoreView;

    closed spec fn view(&self) -> StoreView {
        StoreView {
            records: records_map(self.results@),
            total_scans: self.total_scans as nat,
            agents: self.authorized_agents.deep_view(),
        }
    }
}

impl DeepfakeContract {
    /// Well-formedness: no two stored entries share a content
    /// identifier, so the record sequence denotes its map faithfully.
    pub closed spec fn wf(&self) -> bool {
        unique_hashes(self.results@)
    }

    /// A freshly deployed store: empty map, empty agent list, zero counter.
    pub fn new() -> (s: Self)
        ensures
            s.wf(),
            s@ == StoreView::init(),
    {
        let s = DeepfakeContract {
            results: Vec::new(),
            authorized_agents: Vec::new(),
            total_scans: 0,
        };
        proof {
            assert(s@.records =~= Map::<Seq<char>, crate::record::RecordView>::empty());
            assert(s@.agents =~= Seq::<Seq<char>>::empty());
        }
        s
    }

    /// Rebuilds a store from its persisted parts, as the execution
    /// environment hands them back.  The record list must carry
    /// pairwise distinct content identifiers; a list with a duplicate
    /// is refused, and nothing else is.
    pub fn from_parts(
        records: Vec<DetectionResult>,
        authorized_agents: Vec<String>,
        total_scans: u64,
    ) -> (r: Option<DeepfakeContract>)
        ensures
            match r {
                Option::Some(s) => unique_hashes(records@) && s.wf() && s@ == (StoreView {
                    records: records_map(records@),
                    total_scans: total_scans as nat,
                    agents: authorized_agents.deep_view(),
                }),
                Option::None => !unique_hashes(records@),
            },
    {
        let n = records.len();
        let mut i: usize = 0;
        while i < n
            invariant
                n == records@.len(),
                i <= n,
                forall|a: int, b: int|
                    #![trigger records@[a], records@[b]]
                    0 <= a < b < n && a < i ==> records@[a].file_hash@ != records@[b].file_hash@,
            decreases n - i,
        {
            let mut j: usize = i + 1;
            while j < n
                invariant
                    n == records@.len(),
                    i < n,
                    i + 1 <= j <= n,
                    forall|b: int|
                        i < b < j ==> records@[i as int].file_hash@ != (#[trigger] records@[
                            b
                        ]).file_hash@,
                decreases n - j,
            {
                if records[i].file_hash.eq(&records[j].file_hash) {
                    proof {
                        assert(!unique_hashes(records@)) by {
                            assert(records@[i as int].file_hash@ == records@[j as int].file_hash@);
                        }
                    }
                    return Option::None;
                }
                j = j + 1;
            }
            i = i + 1;
        }
        Option::Some(DeepfakeContract { results: records, authorized_agents, total_scans })
    }

    /// The stored entries in insertion order, one per distinct content
    /// identifier; together with the counter and the agent list these
    /// are the parts the environment persists.
    pub fn entries(&self) -> (r: &Vec<DetectionResult>)
        requires
            self.wf(),
        ensures
            unique_hashes(r@),
            records_map(r@) == self@.records,
    {
        &self.results
    }

    /// The position of the entry keyed by `file_hash`, if any.
    fn find_index(results: &Vec<DetectionResult>, file_hash: &String) -> (r: Option<usize>)
        ensures
            match r {
                Option::Some(i) => i < results@.len() && results@[i as int].file_hash@
                    == file_hash@,
                Option::None => forall|j: int|
                    0 <= j < results@.len() ==> (#[trigger] results@[j]).file_hash@ != file_hash@,
            },
    {
        let n = results.len();
        let mut i: usize = 0;
        while i < n
            invariant
                n == results@.len(),
                i <= n,
                forall|j: int| 0 <= j < i ==> (#[trigger] results@[j]).file_hash@ != file_hash@,
            decreases n - i,
        {
            if results[i].file_hash.eq(file_hash) {
                return Option::Some(i);
            }
            i = i + 1;
        }
        Option::None
    }

    /// Write one detection outcome: insert-or-replace the record under
    /// its content identifier and count the call.  `timestamp` and
    /// `agent_id` carry the environment's clock and caller identity.
    pub fn store_detection_result(
        &mut self,
        file_hash: String,
        filename: Option<String>,
        is_deepfake: bool,
        confidence: u8,
        analysis_reason: String,
        model_version: String,
        timestamp: u64,
        agent_id: String,
    )
        requires
            old(self).wf(),
            old(self)@.total_scans < u64::MAX,
        ensures
            final(self).wf(),
            final(self)@ == record_applied(
                old(self)@,
                (RecordArgs {
                    file_hash: file_hash@,
                    filename: match filename {
                        Option::Some(f) => Option::Some(f@),
                        Option::None => Option::None,
                    },
                    is_deepfake: is_deepfake,
                    confidence: confidence,
                    timestamp: timestamp,
                    agent_id: agent_id@,
                    analysis_reason: analysis_reason@,
                    model_version: model_version@,
                }),
            ),
    {
        let idx = Self::find_index(&self.results, &file_hash);
        let rec = DetectionResult {
            file_hash,
            filename,
            is_deepfake,
            confidence,
            timestamp,
            agent_id,
            analysis_reason,
            model_version,
        };
        let ghost grec = rec;
        let ghost s0 = self.results@;
        match idx {
            Option::Some(i) => {
                self.results[i] = rec;
                proof {
                    lemma_map_update(s0, i as int, grec);
                    assert forall|a: int, b: int|
                        #![trigger self.results@[a], self.results@[b]]
                        0 <= a < b < self.results@.len() implies self.results@[a].file_hash@
                        != self.results@[b].file_hash@ by {
                        assert(self.results@ == s0.update(i as int, grec));
                        if a != i {
                            assert(self.results@[a] == s0[a]);
                        }
                        if b != i {
                            assert(self.results@[b] == s0[b]);
                        }
                    }
                }
            },
            Option::None => {
                self.results.push(rec);
                proof {
                    lemma_map_push(s0, grec);
                    assert forall|a: int, b: int|
                        #![trigger self.results@[a], self.results@[b]]
                        0 <= a < b < self.results@.len() implies self.results@[a].file_hash@
                        != self.results@[b].file_hash@ by {
                        if b < s0.len() {
                            assert(self.results@[a] == s0[a]);
                            assert(self.results@[b] == s0[b]);
                        } else {
                            assert(self.results@[a] == s0[a]);
                            assert(self.results@[b] == grec);
                        }
                    }
                }
            },
        }
        self.total_scans = self.total_scans + 1;
    }

    /// The current record for a content identifier, or absence if that
    /// identifier was never written.
    pub fn get_detection_result(&self, file_hash: String) -> (r: Option<DetectionResult>)
        requires
            self.wf(),
        ensures
            match r {
                Option::Some(rec) => self@.records.contains_key(file_hash@)
                    && rec@ == self@.records[file_hash@],
                Option::None => !self@.records.contains_key(file_hash@),
            },
    {
        match Self::find_index(&self.results, &file_hash) {
            Option::Some(i) => {
                proof {
                    lemma_map_at(self.results@, i as int);
                }
                Option::Some(self.results[i].duplicate())
            },
            Option::None => {
                proof {
                    lemma_map_contains(self.results@, file_hash@);
                }
                Option::None
            },
        }
    }

    /// How many stored records are flagged as synthetic.  This counts
    /// map entries, not write calls: re-recorded identifiers count once.
    pub fn get_deepfake_count(&self) -> (r: u64)
        requires
            self.wf(),
        ensures
            r == flagged_keys(self@.records).len(),
    {
        let n = self.results.len();
        let mut count: usize = 0;
        let mut i: usize = 0;
        while i < n
            invariant
                n == self.results@.len(),
                i <= n,
                count <= i,
                count == count_flagged(self.results@.take(i as int)),
            decreases n - i,
        {
            proof {
                assert(self.results@.take(i + 1).drop_last() =~= self.results@.take(i as int));
                assert(self.results@.take(i + 1).last() == self.results@[i as int]);
            }
            if self.results[i].is_deepfake {
                count = count + 1;
            }
            i = i + 1;
        }
        proof {
            assert(self.results@.take(n as int) =~= self.results@);
            lemma_count_flagged_matches(self.results@);
        }
        count as u64
    }

    /// How many stored records are not flagged.  Together with the
    /// flagged count this covers every distinct identifier exactly once.
    pub fn get_authentic_count(&self) -> (r: u64)
        requires
            self.wf(),
        ensures
            r == clean_keys(self@.records).len(),
    {
        let n = self.results.len();
        let mut count: usize = 0;
        let mut i: usize = 0;
        while i < n
            invariant
                n == self.results@.len(),
                i <= n,
                count <= i,
                count == count_clean(self.results@.take(i as int)),
            decreases n - i,
        {
            proof {
                assert(self.results@.take(i + 1).drop_last() =~= self.results@.take(i as int));
                assert(self.results@.take(i + 1).last() == self.results@[i as int]);
            }
            if !self.results[i].is_deepfake {
                count = count + 1;
            }
            i = i + 1;
        }
        proof {
            assert(self.results@.take(n as int) =~= self.results@);
            lemma_count_clean_matches(self.results@);
        }
        count as u64
    }

    /// The cumulative number of write calls ever made.
    pub fn get_total_scans(&self) -> (r: u64)
        ensures
            r == self@.total_scans,
    {
        self.total_scans
    }

    /// The position of a newest entry of a non-empty record vector.
    fn index_of_newest(rest: &Vec<DetectionResult>) -> (b: usize)
        requires
            rest@.len() > 0,
        ensures
            b < rest@.len(),
            forall|l: int|
                0 <= l < rest@.len() ==> (#[trigger] rest@[l]).timestamp
                    <= rest@[b as int].timestamp,
    {
        let m = rest.len();
        let mut best: usize = 0;
        let mut j: usize = 1;
        while j < m
            invariant
                m == rest@.len(),
                best < m,
                1 <= j <= m,
                forall|l: int|
                    0 <= l < j ==> (#[trigger] rest@[l]).timestamp <= rest@[best as int].timestamp,
            decreases m - j,
        {
            if rest[j].timestamp > rest[best].timestamp {
                best = j;
            }
            j = j + 1;
        }
        best
    }

    /// The ten most recent records — all of them when fewer exist —
    /// newest first.  Records sharing a timestamp come out in an
    /// unspecified order.
    pub fn get_recent_results(&self) -> (r: Vec<DetectionResult>)
        requires
            self.wf(),
        ensures
            r@.len() == if self@.records.dom().len() <= 10 {
                self@.records.dom().len()
            } else {
                10nat
            },
            sorted_by_timestamp_desc(r@),
            unique_hashes(r@),
            forall|i: int|
                0 <= i < r@.len() ==> self@.records.contains_key((#[trigger] r@[i]).file_hash@)
                    && self@.records[r@[i].file_hash@] == r@[i]@,
            self@.records.dom().len() <= 10 ==> (forall|k: Seq<char>|
                #[trigger] self@.records.contains_key(k) ==> has_hash(r@, k)),
            covers_newest(self@.records, r@),
    {
        let ghost s = self.results@;
        proof {
            lemma_map_finite_len(s);
        }
        let n = self.results.len();
        let mut rest: Vec<DetectionResult> = Vec::new();
        let mut i: usize = 0;
        while i < n
            invariant
                n == self.results@.len(),
                i <= n,
                rest@.len() == i,
                forall|j: int| 0 <= j < i ==> #[trigger] rest@[j] == self.results@[j],
            decreases n - i,
        {
            rest.push(self.results[i].duplicate());
            i = i + 1;
        }
        proof {
            assert(rest@ =~= s);
        }
        let mut out: Vec<DetectionResult> = Vec::new();
        proof {
            assert(out@.to_multiset().add(rest@.to_multiset()) =~= s.to_multiset());
        }
        while out.len() < 10 && rest.len() > 0
            invariant
                unique_hashes(s),
                out@.to_multiset().add(rest@.to_multiset()) == s.to_multiset(),
                out@.len() + rest@.len() == s.len(),
                out@.len() <= 10,
                unique_hashes(out@),
                unique_hashes(rest@),
                forall|a: int, b: int|
                    #![trigger out@[a], rest@[b]]
                    0 <= a < out@.len() && 0 <= b < rest@.len() ==> out@[a].file_hash@
                        != rest@[b].file_hash@,
                sorted_by_timestamp_desc(out@),
                forall|a: int, b: int|
                    #![trigger out@[a], rest@[b]]
                    0 <= a < out@.len() && 0 <= b < rest@.len() ==> out@[a].timestamp
                        >= rest@[b].timestamp,
            decreases rest@.len(),
        {
            let best = Self::index_of_newest(&rest);
            let ghost out0 = out@;
            let ghost rest0 = rest@;
            let picked = rest.remove(best);
            let ghost gpicked = picked;
            proof {
                lemma_unique_remove(rest0, best as int);
            }
            out.push(picked);
            proof {
                assert(out@ == out0.push(gpicked));
                assert(rest@ == rest0.remove(best as int));
                assert(rest0.contains(gpicked));
                assert(rest0.to_multiset().count(gpicked) > 0);
                assert(out@.to_multiset() =~= out0.to_multiset().insert(gpicked));
                assert(rest@.to_multiset() =~= rest0.to_multiset().remove(gpicked));
                assert(out@.to_multiset().add(rest@.to_multiset()) =~= s.to_multiset());
                assert forall|a: int, b: int|
                    #![trigger out@[a], out@[b]]
                    0 <= a < b < out@.len() implies out@[a].file_hash@ != out@[b].file_hash@ by {
                    if b < out0.len() {
                    } else {
                        assert(out@[a] == out0[a]);
                        assert(out@[b] == gpicked);
                        assert(gpicked == rest0[best as int]);
                    }
                }
                assert forall|a: int, b: int|
                    #![trigger out@[a], out@[b]]
                    0 <= a < b < out@.len() implies out@[a].timestamp >= out@[b].timestamp by {
                    if b < out0.len() {
                    } else {
                        assert(out@[a] == out0[a]);
                        assert(out@[b] == gpicked);
                        assert(out0[a].timestamp >= rest0[best as int].timestamp);
                    }
                }
                assert forall|a: int, b: int|
                    #![trigger out@[a], rest@[b]]
                    0 <= a < out@.len() && 0 <= b < rest@.len() implies out@[a].file_hash@
                    != rest@[b].file_hash@ by {
                    let b0: int = if b < best { b } else { b + 1 };
                    assert(rest@[b] == rest0[b0]);
                    if a < out0.len() {
                        assert(out@[a] == out0[a]);
                    } else {
                        assert(out@[a] == gpicked);
                        assert(gpicked == rest0[best as int]);
                    }
                }
                assert forall|a: int, b: int|
                    #![trigger out@[a], rest@[b]]
                    0 <= a < out@.len() && 0 <= b < rest@.len() implies out@[a].timestamp
                    >= rest@[b].timestamp by {
                    let b0: int = if b < best { b } else { b + 1 };
                    assert(rest@[b] == rest0[b0]);
                    if a < out0.len() {
                        assert(out@[a] == out0[a]);
                    } else {
                        assert(out@[a] == gpicked);
                        assert(gpicked == rest0[best as int]);
                    }
                }
            }
        }
        proof {
            let m = records_map(s);
            assert forall|i: int|
                0 <= i < out@.len() implies m.contains_key(
                (#[trigger] out@[i]).file_hash@,
            ) && m[out@[i].file_hash@] == out@[i]@ by {
                assert(out@.contains(out@[i]));
                assert(out@.to_multiset().count(out@[i]) > 0);
                assert(s.to_multiset().count(out@[i]) > 0);
                assert(s.contains(out@[i]));
                let j = choose|j: int| 0 <= j < s.len() && s[j] == out@[i];
                lemma_map_at(s, j);
            }
            if m.dom().len() <= 10 {
                assert forall|k: Seq<char>| #[trigger] m.contains_key(k) implies has_hash(
                    out@,
                    k,
                ) by {
                    lemma_map_contains(s, k);
                    let idx = choose|idx: int|
                        0 <= idx < s.len() && (#[trigger] s[idx]).file_hash@ == k;
                    assert(s.contains(s[idx]));
                    assert(s.to_multiset().count(s[idx]) > 0);
                    assert(rest@.len() == 0);
                    assert(!rest@.contains(s[idx]));
                    assert(rest@.to_multiset().count(s[idx]) == 0);
                    assert(out@.to_multiset().count(s[idx]) > 0);
                    assert(out@.contains(s[idx]));
                    let i2 = choose|i2: int| 0 <= i2 < out@.len() && out@[i2] == s[idx];
                    assert(0 <= i2 < out@.len() && (out@[i2]).file_hash@ == k);
                }
            }
            assert forall|k: Seq<char>, i: int|
                #![trigger m[k], out@[i]]
                m.contains_key(k) && !has_hash(out@, k) && 0 <= i < out@.len() implies m[
                k
            ].timestamp <= out@[i].timestamp by {
                lemma_map_contains(s, k);
                let idx = choose|idx: int| 0 <= idx < s.len() && (#[trigger] s[idx]).file_hash@
                    == k;
                lemma_map_at(s, idx);
                assert(s.contains(s[idx]));
                assert(s.to_multiset().count(s[idx]) > 0);
                if out@.to_multiset().count(s[idx]) > 0 {
                    assert(out@.contains(s[idx]));
                    let i2 = choose|i2: int| 0 <= i2 < out@.len() && out@[i2] == s[idx];
                    assert(0 <= i2 < out@.len() && (out@[i2]).file_hash@ == k);
                    assert(false);
                }
                assert(rest@.to_multiset().count(s[idx]) > 0);
                assert(rest@.contains(s[idx]));
                let b = choose|b: int| 0 <= b < rest@.len() && rest@[b] == s[idx];
                assert(out@[i].timestamp >= rest@[b].timestamp);
            }
        }
        out
    }
}

impl Default for DeepfakeContract {
    /// Same state as `new`: the store a deployment starts from.
    fn default() -> (s: Self)
        ensures
            s.wf(),
            s@ == StoreView::init(),
    {
        DeepfakeContract::new()
    }
}

} // verus!
