//! The detection record: one stored entry per content identifier.

use vstd::prelude::*;

verus! {

/// One stored detection outcome.
///
/// `file_hash` is the content identifier the record is keyed by.
/// `timestamp` and `agent_id` are stamped by the caller of the store
/// from environment data at write time; the remaining fields are the
/// submitting party's claims about the content.
pub struct DetectionResult {
    pub file_hash: String,
    pub filename: Option<String>,
    pub is_deepfake: bool,
    pub confidence: u8,
    pub timestamp: u64,
    pub agent_id: String,
    pub analysis_reason: String,
    pub model_version: String,
}

/// The mathematical value of a `DetectionResult`: every string replaced
/// by its character sequence.
#[verifier::ext_equal]
pub ghost struct RecordView {
    pub file_hash: Seq<char>,
    pub filename: Option<Seq<char>>,
    pub is_deepfake: bool,
    pub confidence: u8,
    pub timestamp: u64,
    pub agent_id: Seq<char>,
    pub analysis_reason: Seq<char>,
    pub model_version: Seq<char>,
}

impl View for DetectionResult {
    type V = RecordView;

    open spec fn view(&self) -> RecordView {
        RecordView {
            file_hash: self.file_hash@,
            filename: match self.filename {
                Option::Some(f) => Option::Some(f@),
                Option::None => Option::None,
            },
            is_deepfake: self.is_deepfake,
            confidence: self.confidence,
            timestamp: self.timestamp,
            agent_id: self.agent_id@,
            analysis_reason: self.analysis_reason@,
            model_version: self.model_version@,
        }
    }
}

impl DetectionResult {
    /// A field-for-field copy; the store hands out copies so that the
    /// stored entries stay private to it.
    pub fn duplicate(&self) -> (r: DetectionResult)
        ensures
            r == *self,
    {
        DetectionResult {
            file_hash: self.file_hash.clone(),
            filename: match &self.filename {
                Option::Some(f) => Option::Some(f.clone()),
                Option::None => Option::None,
            },
            is_deepfake: self.is_deepfake,
            confidence: self.confidence,
            timestamp: self.timestamp,
            agent_id: self.agent_id.clone(),
            analysis_reason: self.analysis_reason.clone(),
            model_version: self.model_version.clone(),
        }
    }
}

} // verus!
