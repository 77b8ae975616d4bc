//! The mathematical model of the store and of one write call.

use vstd::prelude::*;
use crate::record::RecordView;

verus! {

/// The abstract state of the store: the record map, the cumulative
/// write counter, and the agent identity list.
#[verifier::ext_equal]
pub ghost struct StoreView {
    pub records: Map<Seq<char>, RecordView>,
    pub total_scans: nat,
    pub agents: Seq<Seq<char>>,
}

impl StoreView {
    /// The state a freshly deployed store is in.
    pub open spec fn init() -> StoreView {
        StoreView { records: Map::empty(), total_scans: 0, agents: Seq::empty() }
    }
}

/// The arguments of one write call, including the two values the
/// environment stamps in (timestamp and caller identity).
pub ghost struct RecordArgs {
    pub file_hash: Seq<char>,
    pub filename: Option<Seq<char>>,
    pub is_deepfake: bool,
    pub confidence: u8,
    pub timestamp: u64,
    pub agent_id: Seq<char>,
    pub analysis_reason: Seq<char>,
    pub model_version: Seq<char>,
}

/// The record that one write call stores.
pub open spec fn record_of(a: RecordArgs) -> RecordView {
    RecordView {
        file_hash: a.file_hash,
        filename: a.filename,
        is_deepfake: a.is_deepfake,
        confidence: a.confidence,
        timestamp: a.timestamp,
        agent_id: a.agent_id,
        analysis_reason: a.analysis_reason,
        model_version: a.model_version,
    }
}

/// What one write call does to the store: insert-or-replace under the
/// content identifier, and count the call.  The agent list is untouched.
pub open spec fn record_applied(m: StoreView, a: RecordArgs) -> StoreView {
    StoreView {
        records: m.records.insert(a.file_hash, record_of(a)),
        total_scans: m.total_scans + 1,
        agents: m.agents,
    }
}

/// The keys of the records flagged as synthetic.
pub open spec fn flagged_keys(records: Map<Seq<char>, RecordView>) -> Set<Seq<char>> {
    records.dom().filter(|k: Seq<char>| records[k].is_deepfake)
}

/// The keys of the records not flagged.
pub open spec fn clean_keys(records: Map<Seq<char>, RecordView>) -> Set<Seq<char>> {
    records.dom().filter(|k: Seq<char>| !records[k].is_deepfake)
}

} // verus!
