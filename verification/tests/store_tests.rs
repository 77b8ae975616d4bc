use deepfake_detector_contract::record::DetectionResult;
use deepfake_detector_contract::request::request_detection_payload;
use deepfake_detector_contract::store::DeepfakeContract;

fn record(
    store: &mut DeepfakeContract,
    hash: &str,
    filename: Option<&str>,
    verdict: bool,
    confidence: u8,
    reason: &str,
    model: &str,
    timestamp: u64,
    agent: &str,
) {
    store.store_detection_result(
        hash.to_string(),
        filename.map(|f| f.to_string()),
        verdict,
        confidence,
        reason.to_string(),
        model.to_string(),
        timestamp,
        agent.to_string(),
    );
}

#[test]
fn empty_store_has_nothing() {
    let store = DeepfakeContract::new();
    assert!(store.get_detection_result("anything".to_string()).is_none());
    assert_eq!(store.get_total_scans(), 0);
    assert_eq!(store.get_deepfake_count(), 0);
    assert_eq!(store.get_authentic_count(), 0);
    assert!(store.get_recent_results().is_empty());
}

#[test]
fn default_store_is_fresh() {
    let store = DeepfakeContract::default();
    assert_eq!(store.get_total_scans(), 0);
    assert!(store.get_recent_results().is_empty());
}

#[test]
fn record_then_lookup_returns_last_write() {
    let mut store = DeepfakeContract::new();
    record(
        &mut store,
        "abc",
        None,
        true,
        90,
        "eyes mismatch",
        "v1",
        1_000,
        "agent.testnet",
    );
    let rec: DetectionResult = store.get_detection_result("abc".to_string()).unwrap();
    assert_eq!(rec.file_hash, "abc");
    assert_eq!(rec.filename, None);
    assert!(rec.is_deepfake);
    assert_eq!(rec.confidence, 90);
    assert_eq!(rec.analysis_reason, "eyes mismatch");
    assert_eq!(rec.model_version, "v1");
    assert_eq!(rec.timestamp, 1_000);
    assert_eq!(rec.agent_id, "agent.testnet");
}

#[test]
fn total_scans_counts_every_call() {
    let mut store = DeepfakeContract::new();
    record(&mut store, "a", None, true, 1, "r1", "m1", 1, "x");
    record(&mut store, "b", None, false, 2, "r2", "m1", 2, "x");
    record(&mut store, "a", None, false, 3, "r3", "m1", 3, "x");
    record(&mut store, "a", None, true, 4, "r4", "m1", 4, "x");
    assert_eq!(store.get_total_scans(), 4);
}

#[test]
fn rerecord_overwrites_entirely() {
    let mut store = DeepfakeContract::new();
    record(
        &mut store,
        "k",
        Some("old.mp4"),
        true,
        80,
        "old reason",
        "model-a",
        10,
        "first.caller",
    );
    record(
        &mut store,
        "k",
        None,
        false,
        20,
        "new reason",
        "model-b",
        20,
        "second.caller",
    );
    let rec = store.get_detection_result("k".to_string()).unwrap();
    assert_eq!(rec.filename, None);
    assert!(!rec.is_deepfake);
    assert_eq!(rec.confidence, 20);
    assert_eq!(rec.analysis_reason, "new reason");
    assert_eq!(rec.model_version, "model-b");
    assert_eq!(rec.timestamp, 20);
    assert_eq!(rec.agent_id, "second.caller");
    assert_eq!(store.get_total_scans(), 2);
    assert_eq!(store.get_deepfake_count() + store.get_authentic_count(), 1);
}

#[test]
fn three_keys_one_repeated() {
    let mut store = DeepfakeContract::new();
    record(&mut store, "k1", None, true, 10, "r", "m", 1, "x");
    record(&mut store, "k2", None, false, 20, "r", "m", 2, "x");
    record(&mut store, "k3", None, true, 30, "r", "m", 3, "x");
    record(&mut store, "k2", None, true, 40, "r", "m", 4, "x");
    assert_eq!(store.get_total_scans(), 4);
    assert_eq!(store.get_deepfake_count() + store.get_authentic_count(), 3);
    assert_eq!(store.get_deepfake_count(), 3);
    assert_eq!(store.get_authentic_count(), 0);
}

#[test]
fn counts_split_flagged_and_clean() {
    let mut store = DeepfakeContract::new();
    record(&mut store, "a", None, true, 1, "r", "m", 1, "x");
    record(&mut store, "b", None, false, 2, "r", "m", 2, "x");
    record(&mut store, "c", None, false, 3, "r", "m", 3, "x");
    record(&mut store, "d", None, true, 4, "r", "m", 4, "x");
    record(&mut store, "e", None, false, 5, "r", "m", 5, "x");
    assert_eq!(store.get_deepfake_count(), 2);
    assert_eq!(store.get_authentic_count(), 3);
    assert_eq!(store.get_total_scans(), 5);
}

#[test]
fn recent_returns_all_when_few_sorted_descending() {
    let mut store = DeepfakeContract::new();
    record(&mut store, "a", None, true, 1, "r", "m", 300, "x");
    record(&mut store, "b", None, false, 2, "r", "m", 100, "x");
    record(&mut store, "c", None, true, 3, "r", "m", 200, "x");
    let recent = store.get_recent_results();
    assert_eq!(recent.len(), 3);
    assert_eq!(recent[0].file_hash, "a");
    assert_eq!(recent[0].timestamp, 300);
    assert_eq!(recent[1].file_hash, "c");
    assert_eq!(recent[1].timestamp, 200);
    assert_eq!(recent[2].file_hash, "b");
    assert_eq!(recent[2].timestamp, 100);
}

#[test]
fn recent_keeps_only_ten_newest() {
    let mut store = DeepfakeContract::new();
    for i in 0..12u64 {
        record(
            &mut store,
            &format!("hash-{}", i),
            None,
            i % 2 == 0,
            i as u8,
            "r",
            "m",
            i * 10,
            "x",
        );
    }
    let recent = store.get_recent_results();
    assert_eq!(recent.len(), 10);
    for w in recent.windows(2) {
        assert!(w[0].timestamp >= w[1].timestamp);
    }
    assert_eq!(recent[0].timestamp, 110);
    assert_eq!(recent[9].timestamp, 20);
    assert!(recent.iter().all(|r| r.timestamp >= 20));
}

#[test]
fn recent_sees_overwrites_not_history() {
    let mut store = DeepfakeContract::new();
    record(&mut store, "k", None, true, 1, "r", "m", 50, "x");
    record(&mut store, "k", None, false, 2, "r", "m", 60, "x");
    let recent = store.get_recent_results();
    assert_eq!(recent.len(), 1);
    assert_eq!(recent[0].timestamp, 60);
    assert!(!recent[0].is_deepfake);
}

#[test]
fn payload_with_filename() {
    let payload = request_detection_payload(
        &"deadbeef".to_string(),
        &Some("clip.mp4".to_string()),
    );
    assert_eq!(
        payload,
        "{\"file_hash\": \"deadbeef\", \"filename\": \"clip.mp4\"}"
    );
}

#[test]
fn payload_without_filename_uses_placeholder() {
    let payload = request_detection_payload(&"deadbeef".to_string(), &None);
    assert_eq!(
        payload,
        "{\"file_hash\": \"deadbeef\", \"filename\": \"unknown\"}"
    );
}

fn sample_record(hash: &str, timestamp: u64) -> DetectionResult {
    DetectionResult {
        file_hash: hash.to_string(),
        filename: None,
        is_deepfake: false,
        confidence: 1,
        timestamp,
        agent_id: "x".to_string(),
        analysis_reason: "r".to_string(),
        model_version: "m".to_string(),
    }
}

#[test]
fn from_parts_rebuilds_the_store() {
    let records = vec![sample_record("a", 1), sample_record("b", 2)];
    let store = DeepfakeContract::from_parts(records, vec!["agent.testnet".to_string()], 7)
        .expect("distinct keys must be accepted");
    assert_eq!(store.get_total_scans(), 7);
    assert_eq!(store.get_authentic_count(), 2);
    assert!(store.get_detection_result("a".to_string()).is_some());
    assert!(store.get_detection_result("c".to_string()).is_none());
    assert_eq!(store.entries().len(), 2);
}

#[test]
fn from_parts_refuses_duplicate_keys() {
    let records = vec![sample_record("a", 1), sample_record("b", 2), sample_record("a", 3)];
    assert!(DeepfakeContract::from_parts(records, Vec::new(), 3).is_none());
}

#[test]
fn entries_round_trip() {
    let mut store = DeepfakeContract::new();
    record(&mut store, "k1", None, true, 9, "r", "m", 5, "who");
    let entries: Vec<DetectionResult> = store.entries().iter().map(|r| r.duplicate()).collect();
    let rebuilt = DeepfakeContract::from_parts(entries, Vec::new(), store.get_total_scans())
        .expect("entries of a store are distinct");
    assert_eq!(rebuilt.get_total_scans(), 1);
    let rec = rebuilt.get_detection_result("k1".to_string()).unwrap();
    assert!(rec.is_deepfake);
    assert_eq!(rec.confidence, 9);
    assert_eq!(rec.agent_id, "who");
}

#[test]
fn duplicate_copies_every_field() {
    let original = DetectionResult {
        file_hash: "h".to_string(),
        filename: Some("f".to_string()),
        is_deepfake: true,
        confidence: 7,
        timestamp: 9,
        agent_id: "a".to_string(),
        analysis_reason: "because".to_string(),
        model_version: "m".to_string(),
    };
    let copy = original.duplicate();
    assert_eq!(copy.file_hash, original.file_hash);
    assert_eq!(copy.filename, original.filename);
    assert_eq!(copy.is_deepfake, original.is_deepfake);
    assert_eq!(copy.confidence, original.confidence);
    assert_eq!(copy.timestamp, original.timestamp);
    assert_eq!(copy.agent_id, original.agent_id);
    assert_eq!(copy.analysis_reason, original.analysis_reason);
    assert_eq!(copy.model_version, original.model_version);
}
