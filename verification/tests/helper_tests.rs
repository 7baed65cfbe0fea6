use okv_eval::transaction_process_contract::{process_report, ProcessRunCounters};
use okv_eval::transaction::{KeyRange, Mutation, TransactionCommand};
use okv_eval::transaction_process_contract::{record_from_response, ProcessTransactionResult};
use okv_eval::commit_proxy::{batcher_config, CommitProxyMode, CommitProxyProfile};
use okv_eval::commit_proxy_object_frontier::{ batcher_config as frontier_batcher_config, CommitProxyObjectFrontierMode, CommitProxyObjectFrontierProfile, };
use std::time::Duration;
use okv_eval::object_fixture::{fixture_contract_anomalies, FixtureContractObservations};
use okv_eval::comparison::{all_hard_gates_pass, boolean_check, ResultHardGate};
use okv_eval::digest::digest_value;
use okv_eval::fixture_anchor::responses_equal;
use okv_eval::frontiered_process_snapshot::{count_committed as frontiered_count, workload_key};
use okv_eval::object_frontier::{deterministic_value as frontier_value, offset_identity};
use okv_eval::process_snapshot_compaction::{
    candidate_anomalies, committed_version, committed_versions, count_committed, SnapshotCandidateObservations,
};
use okv_eval::provider_incarnation::text_equal;
use okv_eval::recovery_curve::{inventory_record_digest, TransactionSystemRecoveryCurveConfig};
use okv_eval::transaction::{
    GenerationCredential, RequestIdentity, TransactionApplyResponse, TransactionBatchApplyResponse,
    TransactionBatchItemResponse, TransactionStatus,
};
use okv_eval::transaction_log::credentials_match;
use okv_eval::transaction_process_contract::TransactionProcessMode;

fn hex(text: &str) -> Vec<u8> {
    (0..text.len()).step_by(2).map(|i| u8::from_str_radix(&text[i..i + 2], 16).unwrap()).collect()
}

#[test]
fn digest_streams_match_their_reference_values() {
    assert_eq!(
        digest_value(b"T", 1, 2, 40),
        hex("e10a1ac9974f471506be14e479c174dab94560330bdb014c3812d82cf1577295a0bbfd2c751b32a1")
    );
    assert!(digest_value(b"T", 1, 2, 0).is_empty());
    assert_eq!(
        frontier_value(7, 3),
        hex(&[
            "5621983ff4911a673d24670ca7c2a1ea89c1d21850bc27114f46bbf74a43d6e80a388e3b2137aebb28272e697b9b3429",
            "531dab9d58167779107e1820c9c771fff26d8df4f37cff76592978a8888ffea1071a901549e7c868e8a61cf1e44d6451",
            "c75c1bf5e1622a68a781ee9e0be551414f6f99562a986b83649a615010cc12b4",
        ]
        .concat())
    );
    assert_eq!(
        inventory_record_digest(9, 2, 3, 4),
        hex("f1a08d74faf5d643a2af9142ee88945b1e6c645e9d43d1f754ae93628263416e")
    );
}

fn committed_at(version: u64) -> TransactionApplyResponse {
    TransactionApplyResponse {
        status: TransactionStatus::Committed { commit_version: version },
        applied_mutation_count: 1,
        applied_log_index: version,
        batch_order: 0,
    }
}

#[test]
fn committed_versions_skip_other_outcomes() {
    let conflict = TransactionApplyResponse {
        status: TransactionStatus::Conflict { conflicting_version: 2 },
        ..committed_at(3)
    };
    assert_eq!(committed_version(&committed_at(3)), Some(3));
    assert_eq!(committed_version(&conflict), None);
    let item = |transaction| TransactionBatchItemResponse {
        identity: RequestIdentity { client_id: 1, request_id: 1 },
        transaction,
        error: None,
    };
    let responses = vec![
        TransactionBatchApplyResponse { items: vec![item(Some(committed_at(3))), item(Some(conflict.clone()))] },
        TransactionBatchApplyResponse { items: vec![item(None), item(Some(committed_at(7)))] },
    ];
    assert_eq!(committed_versions(&responses), vec![3, 7]);
    assert_eq!(count_committed(&responses), 2);
    assert_eq!(frontiered_count(&responses), 2);
    assert!(responses_equal(&committed_at(3), &committed_at(3)));
    assert!(!responses_equal(&committed_at(3), &conflict));
    let rejected = |reason: &str| TransactionApplyResponse {
        status: TransactionStatus::Rejected { reason: reason.to_owned() },
        ..committed_at(3)
    };
    assert!(responses_equal(&rejected("fenced"), &rejected("fenced")));
    assert!(!responses_equal(&rejected("fenced"), &rejected("stale")));
}

#[test]
fn snapshot_candidate_counts_each_failed_observation() {
    let exact = SnapshotCandidateObservations {
        authority_processes: 3,
        committed_count: 64,
        retained_before: 64,
        all_snapshots_cover_purge: true,
        all_journals_reclaimed_bytes: true,
        full_quorum_restart_exact: true,
        retained_stream_restart_exact: true,
        exact_retry_after_restart: true,
        suffix_commit_after_restart: true,
    };
    assert_eq!(candidate_anomalies(&exact, 64), 0);
    assert_eq!(candidate_anomalies(&exact, 65), 2);
    let broken = SnapshotCandidateObservations {
        authority_processes: 1,
        all_journals_reclaimed_bytes: false,
        suffix_commit_after_restart: false,
        ..exact
    };
    assert_eq!(candidate_anomalies(&broken, 64), 3);
}

#[test]
fn small_identity_and_text_helpers() {
    assert_eq!(workload_key(5, 7), b"frontiered-snapshot/5/key/0007".to_vec());
    assert_eq!(offset_identity(0, 20_000, 3), RequestIdentity { client_id: 20_001, request_id: 3 });
    assert_eq!(offset_identity(u64::MAX, 20_000, 3).client_id, u64::MAX);
    assert!(text_equal("okv", "okv"));
    assert!(!text_equal("okv", "okv."));
    let credential = |generation: u64| Some(GenerationCredential { generation, transaction_system_id: "tx".to_owned() });
    assert!(credentials_match(&credential(4), &credential(4)));
    assert!(!credentials_match(&credential(4), &credential(5)));
    assert!(!credentials_match(&credential(4), &None));
    assert!(credentials_match(&None, &None));
    let faults = TransactionProcessMode::PartialApply.faults();
    assert!(faults.partial_apply && !faults.accept_conflicts);
    assert!(TransactionProcessMode::AcceptConflicts.faults().accept_conflicts);
    let config = TransactionSystemRecoveryCurveConfig {
        seed: 1,
        scale_class: "small".to_owned(),
        pending_tickets: 1,
        retained_records_per_tlog: 1,
        commit_proxy_roles: 1,
        resolver_roles: 1,
        tlog_sets: 4,
        tlog_nodes_per_set: 5,
        logical_database_bytes: 1,
    };
    assert_eq!(config.tlog_nodes(), 20);
}

#[test]
fn hard_gates_must_all_pass_and_exist() {
    let gate = |status: &str| ResultHardGate { id: "g".to_owned(), status: status.to_owned() };
    assert!(all_hard_gates_pass(&vec![gate("pass"), gate("pass")]));
    assert!(!all_hard_gates_pass(&vec![gate("pass"), gate("fail")]));
    assert!(!all_hard_gates_pass(&Vec::new()));
    let check = boolean_check("comparable", false, "detail".to_owned());
    assert_eq!((check.id.as_str(), check.passed, check.detail.as_str()), ("comparable", false, "detail"));
}

#[test]
fn storage_accounting_renders_as_its_debug_text() {
    let stats = okv_eval::transaction_log::TransactionLogStorageStats {
        format_version: 2,
        high_watermark: 41,
        retention_floor: 0,
        projected_retention_floor: 41,
        conflict_retention_floor: 7,
        retry_clients: 1,
        live_keys: 256,
        retained_conflict_versions: 3,
        durable_outcomes: 4,
        request_fingerprints: 5,
        transaction_retry_outcomes: 6,
        transaction_retry_fingerprints: 7,
        retained_records: 8,
        projected_retained_records: 0,
        snapshot_bytes: 18_446_744_073_709_551_615,
        projected_snapshot_bytes: 10,
        transaction_authority_bytes: 11,
        serving_state_bytes: 12,
        resolver_state_bytes: 13,
        transaction_retry_state_bytes: 14,
        transaction_frontier_state_bytes: 15,
        retained_transactions_bytes: 16,
        projected_retained_transactions_bytes: 17,
        durable_outcomes_bytes: 18,
        request_fingerprints_bytes: 19,
    };
    assert_eq!(stats.debug_text(), format!("{stats:?}"));
    assert!(stats.debug_text().starts_with("TransactionLogStorageStats { format_version: 2, high_watermark: 41, "));
}

#[test]
fn history_records_keep_the_applied_prefix() {
    let command = TransactionCommand {
        read_version: 5,
        read_conflicts: vec![KeyRange::point(b"a")],
        write_conflicts: vec![KeyRange::point(b"b")],
        mutations: vec![
            Mutation::SetValue { key: b"b".to_vec(), value: b"1".to_vec() },
            Mutation::Clear { key: b"c".to_vec() },
            Mutation::ClearRange { range: KeyRange { start: b"d".to_vec(), end: b"e".to_vec() } },
        ],
    };
    let response = |status, applied| TransactionApplyResponse {
        status,
        applied_mutation_count: applied,
        applied_log_index: 9,
        batch_order: 0,
    };
    let record = record_from_response(
        1,
        10,
        12,
        Vec::new(),
        command.clone(),
        &response(TransactionStatus::Committed { commit_version: 9 }, 2),
    );
    assert_eq!((record.id, record.begin_tick, record.complete_tick, record.read_version), (1, 10, 12, 5));
    assert_eq!(record.result, ProcessTransactionResult::Committed { commit_version: 9 });
    assert_eq!(record.applied_mutations, command.mutations[..2].to_vec());
    assert_eq!(record.mutations, command.mutations);
    assert_eq!(record.read_conflicts, command.read_conflicts);
    let all = record_from_response(2, 0, 0, Vec::new(), command.clone(), &response(TransactionStatus::Committed { commit_version: 9 }, 99));
    assert_eq!(all.applied_mutations, command.mutations);
    let conflict = record_from_response(3, 0, 0, Vec::new(), command.clone(), &response(TransactionStatus::Conflict { conflicting_version: 42 }, 0));
    assert_eq!(conflict.result, ProcessTransactionResult::Aborted { reason: "conflict_at_42".to_owned() });
    assert!(conflict.applied_mutations.is_empty());
    let rejected = record_from_response(
        4,
        0,
        0,
        Vec::new(),
        command,
        &response(TransactionStatus::Rejected { reason: "fenced".to_owned() }, 0),
    );
    assert_eq!(rejected.result, ProcessTransactionResult::Aborted { reason: "rejected_\"fenced\"".to_owned() });
}

#[test]
fn profile_batchers_are_accepted() {
    let profile = CommitProxyProfile {
        transaction_count: 1_024,
        value_bytes: 128,
        concurrent_clients: 64,
        admission_knee_clients: 32,
        max_batch_items: 16,
        max_entry_bytes: 262_144,
        max_batch_delay_micros: 2_000,
        queue_capacity: 2_048,
        sparse_transaction_count: 32,
        byte_control_transaction_count: 128,
        byte_control_value_bytes: 8_192,
        byte_control_max_entry_bytes: 131_072,
        overload_transaction_count: 512,
        overload_queue_capacity: 16,
    };
    let byte = batcher_config(CommitProxyMode::ByteBoundControl, &profile);
    assert_eq!(byte.max_entry_bytes, 131_072);
    assert_eq!(byte.max_delay, Duration::from_millis(2));
    assert!(byte.validate().is_ok());
    let overload = batcher_config(CommitProxyMode::OverloadControl, &profile);
    assert_eq!((overload.max_items, overload.queue_capacity), (16, 16));
    assert!(overload.validate().is_ok());
    let frontier = CommitProxyObjectFrontierProfile {
        prefix_transaction_count: 512,
        suffix_transaction_count: 1_024,
        value_bytes: 128,
        concurrent_clients: 64,
        max_batch_items: 32,
        max_entry_bytes: 262_144,
        max_batch_delay_micros: 2_000,
        queue_capacity: 2_048,
        hot_key_count: 64,
    };
    let single = frontier_batcher_config(CommitProxyObjectFrontierMode::OneEntrySameDurabilityControl, &frontier);
    assert_eq!(single.max_items, 1);
    assert!(single.validate().is_ok());
    let zero_delay = CommitProxyObjectFrontierProfile { max_batch_delay_micros: 0, ..frontier };
    assert_eq!(
        frontier_batcher_config(CommitProxyObjectFrontierMode::NoConflictControl, &zero_delay).validate().unwrap_err(),
        "transaction batcher max_delay must be positive"
    );
}

#[test]
fn fixture_run_has_one_anomaly_unless_exact() {
    let exact = FixtureContractObservations {
        authority_processes: 3,
        anchor_txlog_records: 1,
        anchor_txlog_mutations: 0,
        anchor_live_keys: 0,
        base_value_txlog_records: 0,
        base_value_txlog_mutation_bytes: 0,
        descriptor_deterministic: true,
        immutable_put_reuse_verified: true,
        decoded_base_records: 4,
        all_base_records_at_anchor: true,
        segment_versions_at_anchor: true,
        subject_roots_distinct: true,
        tail_exact: true,
        resident_images_distinct: true,
        resident_logical_images_equal: true,
        poison_detected: true,
    };
    assert_eq!(fixture_contract_anomalies(&exact, 4), 0);
    assert_eq!(fixture_contract_anomalies(&exact, 5), 1);
    assert_eq!(fixture_contract_anomalies(&FixtureContractObservations { poison_detected: false, ..exact }, 4), 1);
    assert_eq!(fixture_contract_anomalies(&FixtureContractObservations { base_value_txlog_records: 1, ..exact }, 4), 1);
}

#[test]
fn process_report_counts_checks_and_digests_the_trace() {
    let counters = ProcessRunCounters {
        process_starts: 6,
        process_kills: 2,
        elections: 3,
        dropped_replies: 1,
        recovered_outcomes: 1,
    };
    let checks = vec![
        ("first_ok".to_owned(), true),
        ("second_bad".to_owned(), false),
        ("third_bad".to_owned(), false),
    ];
    let report = process_report(
        7,
        TransactionProcessMode::PartialApply,
        checks,
        counters,
        false,
        Vec::new(),
        br#"{"h":1}"#,
    );
    assert_eq!((report.executed_checks, report.anomaly_count), (3, 2));
    assert_eq!(report.first_mismatch.as_deref(), Some("second_bad"));
    assert_eq!((report.process_starts, report.elections, report.recovered_outcomes), (6, 3, 1));
    assert_eq!(report.history.cell_id, "cell-v0-process");
    assert_eq!(report.history.tenant_id, "tenant-process");
    assert_eq!(report.trace_sha256, "b13b91352c8c004cc64eb4b24b2537a1826cce5d0ea2b842241261366b920a71");
    let clean = process_report(7, TransactionProcessMode::Correct, vec![("ok".to_owned(), true)], counters, true, Vec::new(), b"");
    assert_eq!((clean.anomaly_count, clean.first_mismatch), (0, None));
}
