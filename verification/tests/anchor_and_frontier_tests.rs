use okv_eval::fixture_anchor::{
    bypass_detected, check_committed_without_reply, check_fresh, check_fresh_authorities, check_recovery,
    check_retained, empty_anchor_command, judge_anchors, second_identity, FixtureAnchorMode,
    FixtureAnchorObservation,
};
use okv_eval::object_frontier::{
    control_anomalies, deterministic_value, manifest_covered_through, publication_command, requested_frontier,
    setup_key_bytes, ObjectFrontierMode, VALUE_BYTES,
};
use okv_eval::transaction::{
    RequestIdentity, RetainedTransactionRecord, TransactionApplyResponse, TransactionStatus,
};
use okv_eval::transaction_log::TransactionLogStorageStats;

#[test]
fn deterministic_values_are_stable_and_distinct() {
    assert_eq!(deterministic_value(7, 3), deterministic_value(7, 3));
    assert_ne!(deterministic_value(7, 3), deterministic_value(7, 4));
    assert_eq!(deterministic_value(7, 3).len(), VALUE_BYTES);
}

#[test]
fn forged_coverage_stops_before_the_last_write() {
    let versions = [3, 5, 9, 12];
    assert_eq!(manifest_covered_through(ObjectFrontierMode::Candidate, &versions, 12), 12);
    assert_eq!(manifest_covered_through(ObjectFrontierMode::ForgedCoverageControl, &versions, 12), 9);
    assert_eq!(requested_frontier(ObjectFrontierMode::ForgedCoverageControl, 9, 12), 12);
    assert_eq!(requested_frontier(ObjectFrontierMode::Candidate, 12, 12), 12);
    assert_eq!(control_anomalies(true), 0);
    assert_eq!(control_anomalies(false), 1);
}

#[test]
fn anchor_command_is_canonical_and_empty() {
    let command = empty_anchor_command();
    assert_eq!(command.read_version, 0);
    assert!(command.read_conflicts.is_empty());
    assert!(command.write_conflicts.is_empty());
    assert!(command.mutations.is_empty());
    assert_eq!(FixtureAnchorMode::Candidate.id(), "candidate");
}

fn anchored(version: u64) -> FixtureAnchorObservation {
    FixtureAnchorObservation {
        anchor_version: version,
        anchor_records: 1,
        anchor_mutations: 0,
        live_keys: 0,
        lost_response_observed: true,
        exact_retry_returned_original: true,
        second_identity_guard_rejected: true,
    }
}

#[test]
fn anchors_must_agree_on_one_version() {
    let report = judge_anchors(FixtureAnchorMode::Candidate, 2, &[anchored(4), anchored(4)], false);
    assert!(report.anchor_version_stable);
    assert_eq!(report.correctness_anomalies, 0);
    let split = judge_anchors(FixtureAnchorMode::Candidate, 2, &[anchored(4), anchored(5)], false);
    assert!(!split.anchor_version_stable);
    assert_eq!(split.correctness_anomalies, 1);
    let poison = judge_anchors(FixtureAnchorMode::SecondIdentityBypassPoison, 2, &[anchored(4)], true);
    assert_eq!(poison.correctness_anomalies, 0);
    assert!(check_fresh_authorities(1).is_err());
    assert!(check_fresh_authorities(33).is_err());
    assert!(check_fresh_authorities(2).is_ok());
}

fn committed_at(version: u64) -> TransactionApplyResponse {
    TransactionApplyResponse {
        status: TransactionStatus::Committed { commit_version: version },
        applied_mutation_count: 0,
        applied_log_index: version,
        batch_order: 0,
    }
}

fn stats(high_watermark: u64, live_keys: u64, retained_records: u64) -> TransactionLogStorageStats {
    TransactionLogStorageStats { high_watermark, live_keys, retained_records, ..zero_stats() }
}

#[test]
fn anchor_probes_require_a_fresh_then_committed_authority() {
    assert!(check_fresh(&stats(0, 0, 0)).is_ok());
    assert_eq!(
        check_fresh(&stats(1, 0, 0)).unwrap_err(),
        "fixture anchor requires a fresh transaction authority"
    );
    assert!(check_fresh(&stats(0, 1, 0)).is_err());
    assert!(check_committed_without_reply(&stats(3, 0, 1)).is_ok());
    assert_eq!(
        check_committed_without_reply(&stats(3, 0, 2)).unwrap_err(),
        "lost-response probe did not observe the committed empty anchor before retry"
    );
    assert!(check_committed_without_reply(&stats(0, 0, 1)).is_err());
}

#[test]
fn anchor_recovery_returns_the_pre_retry_version() {
    assert_eq!(check_recovery(&committed_at(3), &committed_at(3), 3), Ok(3));
    assert_eq!(
        check_recovery(&committed_at(3), &committed_at(4), 3).unwrap_err(),
        "fixture anchor exact retry changed its outcome"
    );
    assert_eq!(
        check_recovery(&committed_at(3), &committed_at(3), 4).unwrap_err(),
        "fixture anchor retry did not recover the pre-retry commit version"
    );
    let rejected = TransactionApplyResponse {
        status: TransactionStatus::Rejected { reason: "fenced".to_owned() },
        ..committed_at(3)
    };
    assert_eq!(
        check_recovery(&rejected, &rejected, 3).unwrap_err(),
        "fixture anchor retry did not recover a committed outcome"
    );
}

#[test]
fn retained_anchor_is_one_empty_record() {
    let record = RetainedTransactionRecord { commit_version: 3, batch_order: 0, command: empty_anchor_command() };
    let anchor = check_retained(&[record.clone()], true, 3, &stats(3, 0, 1)).unwrap();
    assert_eq!(anchor.version, 3);
    assert_eq!(anchor.records, 1);
    assert_eq!(anchor.mutations, 0);
    assert!(anchor.lost_response_observed && anchor.exact_retry_returned_original);
    let refused = "fixture anchor did not produce one empty retained record";
    assert_eq!(check_retained(&[record.clone()], false, 3, &stats(3, 0, 1)).unwrap_err(), refused);
    assert_eq!(check_retained(&[record.clone(), record.clone()], true, 3, &stats(3, 0, 1)).unwrap_err(), refused);
    assert_eq!(check_retained(&[record.clone()], true, 4, &stats(4, 0, 1)).unwrap_err(), refused);
    let mut written = record;
    written.command.read_version = 1;
    assert_eq!(check_retained(&[written], true, 3, &stats(3, 0, 1)).unwrap_err(), refused);
}

#[test]
fn second_identity_bypass_is_detected_above_the_anchor() {
    let first = RequestIdentity { client_id: 4, request_id: 9 };
    assert_eq!(second_identity(first), RequestIdentity { client_id: 4, request_id: 10 });
    assert_eq!(second_identity(RequestIdentity { client_id: 4, request_id: u64::MAX }).request_id, u64::MAX);
    assert!(bypass_detected(&committed_at(5), 3, &stats(5, 0, 2)));
    assert!(!bypass_detected(&committed_at(3), 3, &stats(5, 0, 2)));
    assert!(!bypass_detected(&committed_at(5), 3, &stats(5, 0, 1)));
    let conflict = TransactionApplyResponse {
        status: TransactionStatus::Conflict { conflicting_version: 5 },
        ..committed_at(5)
    };
    assert!(!bypass_detected(&conflict, 3, &stats(5, 0, 2)));
}

#[test]
fn object_frontier_setup_keys_and_publication_identity() {
    assert_eq!(setup_key_bytes(7), b"g47/0007".to_vec());
    assert_eq!(setup_key_bytes(12_345), b"g47/12345".to_vec());
    assert_eq!(publication_command(3, 2).request_id, 2);
    assert_eq!(publication_command(3, 2).client_id, 40_003);
    assert_eq!(publication_command(0, 2).client_id, 40_001);
}

fn zero_stats() -> TransactionLogStorageStats {
    TransactionLogStorageStats {
        format_version: 0,
        high_watermark: 0,
        retention_floor: 0,
        projected_retention_floor: 0,
        conflict_retention_floor: 0,
        retry_clients: 0,
        live_keys: 0,
        retained_conflict_versions: 0,
        durable_outcomes: 0,
        request_fingerprints: 0,
        transaction_retry_outcomes: 0,
        transaction_retry_fingerprints: 0,
        retained_records: 0,
        projected_retained_records: 0,
        snapshot_bytes: 0,
        projected_snapshot_bytes: 0,
        transaction_authority_bytes: 0,
        serving_state_bytes: 0,
        resolver_state_bytes: 0,
        transaction_retry_state_bytes: 0,
        transaction_frontier_state_bytes: 0,
        retained_transactions_bytes: 0,
        projected_retained_transactions_bytes: 0,
        durable_outcomes_bytes: 0,
        request_fingerprints_bytes: 0,
    }
}
