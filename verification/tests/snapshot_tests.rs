use okv_eval::frontiered_process_snapshot::{
    check_cycle_committed, check_frontier_activated, check_frontier_applied, check_version_advanced, cycle_frontier_advance,
    expected_state_shape, frontiered_cycle_accounting, frontiered_judgement, response_for_identity,
    FrontieredCycleOutcome, FrontieredProcessSnapshotMode, suffix_items, validate_profile as validate_frontiered,
    workload_items, FrontieredSnapshotBounds,
};
use okv_eval::process_snapshot_compaction::{
    deterministic_value, maximum_commit_version, mode_id, poison_detected, suffix_batch,
    suffix_committed_after, summarize_compaction, validate_profile, workload_batches, CompactionObservation,
    ProcessSnapshotCompactionMode, ProcessSnapshotCompactionProfile,
};
use okv_eval::transaction::{
    GenerationCredential, Mutation, RequestIdentity, TransactionApplyResponse, TransactionBatchApplyResponse,
    TransactionBatchItemResponse, TransactionStatus,
};
use okv_eval::mvcc_gc_authority::{PublicationAuthorityPosition, PublicationObjectKind, PublicationObjectReference};
use okv_eval::transaction_log::{ObjectFrontierRecord, TransactionFrontierApplyResponse, TransactionLogStorageStats, TransactionRetryFloor};
use std::collections::BTreeSet;

#[test]
fn frozen_workload_batches_are_complete_and_bounded() {
    let profile = ProcessSnapshotCompactionProfile {
        transaction_count: 1_024,
        transactions_per_batch: 32,
        live_keys: 256,
        value_bytes: 128,
    };
    let batches = workload_batches(5_501, &profile, "test");
    assert_eq!(batches.len(), 32);
    assert!(batches.iter().all(|batch| batch.len() == 32));
    assert_eq!(batches.iter().map(Vec::len).sum::<usize>(), 1_024);
}

#[test]
fn invalid_profiles_fail_closed() {
    let invalid = ProcessSnapshotCompactionProfile {
        transaction_count: 0,
        transactions_per_batch: 33,
        live_keys: 0,
        value_bytes: 0,
    };
    assert!(validate_profile(&invalid).is_err());
}

#[test]
fn a_partial_last_batch_holds_the_remainder() {
    let profile = ProcessSnapshotCompactionProfile { transaction_count: 5, transactions_per_batch: 2, live_keys: 2, value_bytes: 4 };
    let batches = workload_batches(1, &profile, "prefix");
    assert_eq!(batches.iter().map(Vec::len).collect::<Vec<_>>(), vec![2, 2, 1]);
    assert_eq!(batches[2][0].identity.request_id, 5);
    assert_eq!(batches[1][1].command.write_conflicts[0].start, b"snapshot/prefix/1/1".to_vec());
}

#[test]
fn lcg_values_follow_the_generator() {
    let value = deterministic_value(0, 0, 2);
    let step = |state: u64| state.wrapping_mul(6_364_136_223_846_793_005).wrapping_add(1_442_695_040_888_963_407);
    let first = step(0);
    let second = step(first);
    assert_eq!(value, vec![(first >> 56) as u8, (second >> 56) as u8]);
    assert_ne!(deterministic_value(0, 1, 2), value);
}

#[test]
fn compaction_summary_sums_and_judges() {
    let observation = |snapshot_index, reclaimed| CompactionObservation {
        snapshot_index,
        purged_index: 10,
        compaction_calls: 1,
        compaction_reclaimed_bytes: reclaimed,
        journal_bytes_before: 100,
        journal_bytes_after: 40,
        snapshot_bytes: 7,
    };
    let summary = summarize_compaction(&[observation(10, 60), observation(12, 0)], 10);
    assert!(summary.all_snapshots_cover_purge);
    assert!(!summary.all_journals_reclaimed_bytes);
    assert_eq!(summary.journal_bytes_before, 200);
    assert_eq!(summary.journal_bytes_after, 80);
    assert_eq!(summary.journal_reclaimed_bytes, 60);
    assert_eq!(summary.snapshot_bytes, 14);
    assert_eq!(summary.durable_bytes_after, 94);
    assert!(!summarize_compaction(&[observation(9, 60)], 10).all_snapshots_cover_purge);
    assert_eq!(ProcessSnapshotCompactionMode::PurgeBeforeSnapshotPoison.id(), "purge_before_snapshot_poison");
}

fn bounds() -> FrontieredSnapshotBounds {
    FrontieredSnapshotBounds {
        frontier_cycles: 4,
        transactions_per_cycle: 256,
        transactions_per_batch: 32,
        live_keys: 256,
        value_bytes: 128,
        retry_window: 64,
    }
}

#[test]
fn frozen_workload_uses_one_stable_client_and_complete_live_keyset() {
    let profile = bounds();
    let credential = GenerationCredential { generation: 7, transaction_system_id: "tx-g7".to_owned() };
    let items = workload_items(5_601, 105_601, 0, 0, &profile, &credential);
    assert_eq!(items.len(), 256);
    assert_eq!(items.first().unwrap().identity.request_id, 1);
    assert_eq!(items.last().unwrap().identity.request_id, 256);
    assert!(items.iter().all(|item| item.identity.client_id == 105_601));
    assert_eq!(
        items.iter().map(|item| item.command.write_conflicts[0].start.clone()).collect::<BTreeSet<_>>().len(),
        256
    );
}

#[test]
fn profile_rejects_changed_cycle_and_retry_contracts() {
    let mut invalid = bounds();
    invalid.frontier_cycles = 3;
    invalid.retry_window = invalid.transactions_per_cycle;
    assert!(validate_frontiered(&invalid).is_err());
    assert!(validate_frontiered(&bounds()).is_ok());
    assert!(validate_frontiered(&FrontieredSnapshotBounds { transactions_per_batch: 30, ..bounds() }).is_err());
}

#[test]
fn frontiered_suffix_keys_are_padded() {
    let credential = GenerationCredential { generation: 7, transaction_system_id: "tx-g7".to_owned() };
    let items = suffix_items(9, 3, &FrontieredSnapshotBounds { transactions_per_batch: 2, ..bounds() }, &credential);
    assert_eq!(items.len(), 2);
    assert_eq!(items[1].command.write_conflicts[0].start, b"frontiered-snapshot/9/suffix/0001".to_vec());
    assert_eq!(items[0].identity.client_id, 200_009);
}

fn item_response(client_id: u64, request_id: u64, version: Option<u64>) -> TransactionBatchItemResponse {
    TransactionBatchItemResponse {
        identity: RequestIdentity { client_id, request_id },
        transaction: version.map(|version| TransactionApplyResponse {
            status: TransactionStatus::Committed { commit_version: version },
            applied_mutation_count: 1,
            applied_log_index: version,
            batch_order: 0,
        }),
        error: None,
    }
}

#[test]
fn committed_versions_of_batches() {
    let responses = vec![
        TransactionBatchApplyResponse { items: vec![item_response(1, 1, Some(4)), item_response(1, 2, None)] },
        TransactionBatchApplyResponse { items: vec![item_response(1, 3, Some(9)), item_response(1, 4, Some(6))] },
    ];
    assert_eq!(maximum_commit_version(&responses), Some(9));
    assert_eq!(maximum_commit_version(&[]), None);
    let uncommitted = vec![TransactionBatchApplyResponse { items: vec![item_response(1, 1, None)] }];
    assert_eq!(maximum_commit_version(&uncommitted), None);
    assert!(suffix_committed_after(&responses[1], 5));
    assert!(!suffix_committed_after(&responses[1], 6));
    assert!(!suffix_committed_after(&responses[0], 0));
    assert!(suffix_committed_after(&TransactionBatchApplyResponse { items: Vec::new() }, 100));

    let found = response_for_identity(&responses, RequestIdentity { client_id: 1, request_id: 3 });
    assert_eq!(found.map(|response| response.applied_log_index), Some(9));
    assert_eq!(response_for_identity(&responses, RequestIdentity { client_id: 1, request_id: 2 }), None);
    assert_eq!(response_for_identity(&responses, RequestIdentity { client_id: 2, request_id: 3 }), None);
}

#[test]
fn suffix_batch_writes_one_key_per_index() {
    let profile = ProcessSnapshotCompactionProfile {
        transaction_count: 64,
        transactions_per_batch: 3,
        live_keys: 16,
        value_bytes: 8,
    };
    let batch = suffix_batch(5, &profile, 40);
    assert_eq!(batch.len(), 3);
    for (index, item) in batch.iter().enumerate() {
        assert_eq!(item.identity, RequestIdentity { client_id: 1_000_005, request_id: index as u64 + 1 });
        assert_eq!(item.credential, None);
        assert_eq!(item.command.read_version, 40);
        let key = format!("snapshot/suffix/5/{index}").into_bytes();
        assert_eq!(item.command.write_conflicts[0].start, key);
        assert_eq!(
            item.command.mutations,
            vec![Mutation::SetValue { key, value: deterministic_value(5, index as u64, 8) }]
        );
    }
    assert_eq!(suffix_batch(0, &profile, 1)[0].identity.client_id, 1_000_001);
}

#[test]
fn purge_poison_needs_the_exact_refusal() {
    assert_eq!(mode_id(ProcessSnapshotCompactionMode::Candidate), "candidate");
    assert_eq!(
        mode_id(ProcessSnapshotCompactionMode::PurgeBeforeSnapshotPoison),
        "purge_before_snapshot_poison"
    );
    let refusal = "snapshot at 12 does not cover purge index 20";
    assert!(poison_detected(refusal, true, true));
    assert!(!poison_detected(refusal, false, true));
    assert!(!poison_detected(refusal, true, false));
    assert!(!poison_detected("purge refused", true, true));
}

#[test]
fn frontiered_cycle_state_shape() {
    let storage = TransactionLogStorageStats {
        conflict_retention_floor: 30,
        transaction_retry_outcomes: 8,
        transaction_retry_fingerprints: 8,
        retained_records: 0,
        retained_conflict_versions: 0,
        ..zero_stats()
    };
    assert!(expected_state_shape(&storage, 30, Some(12), 100, 8));
    assert!(!expected_state_shape(&storage, 30, None, 100, 8));
    assert!(expected_state_shape(&storage, 30, None, 8, 3));
    assert!(!expected_state_shape(&storage, 31, Some(12), 100, 8));
    let retained = TransactionLogStorageStats { retained_records: 1, ..storage };
    assert!(!expected_state_shape(&retained, 30, Some(12), 100, 8));
}

fn zero_stats() -> TransactionLogStorageStats {
    TransactionLogStorageStats {
        format_version: 0,
        high_watermark: 0,
        retention_floor: 0,
        projected_retention_floor: 0,
        conflict_retention_floor: 0,
        retry_clients: 0,
        live_keys: 0,
        retained_conflict_versions: 0,
        durable_outcomes: 0,
        request_fingerprints: 0,
        transaction_retry_outcomes: 0,
        transaction_retry_fingerprints: 0,
        retained_records: 0,
        projected_retained_records: 0,
        snapshot_bytes: 0,
        projected_snapshot_bytes: 0,
        transaction_authority_bytes: 0,
        serving_state_bytes: 0,
        resolver_state_bytes: 0,
        transaction_retry_state_bytes: 0,
        transaction_frontier_state_bytes: 0,
        retained_transactions_bytes: 0,
        projected_retained_transactions_bytes: 0,
        durable_outcomes_bytes: 0,
        request_fingerprints_bytes: 0,
    }
}

fn voter(snapshot_index: u64, purged_index: u64, before: u64, after: u64, reclaimed: u64) -> CompactionObservation {
    CompactionObservation {
        snapshot_index,
        purged_index,
        compaction_calls: 1,
        compaction_reclaimed_bytes: reclaimed,
        journal_bytes_before: before,
        journal_bytes_after: after,
        snapshot_bytes: 30,
    }
}

#[test]
fn frontier_cycle_accounting_sums_every_voter() {
    let voters = [voter(20, 20, 100, 10, 90), voter(21, 20, 80, 5, 75)];
    let candidate = frontiered_cycle_accounting(FrontieredProcessSnapshotMode::AlignedRqoCandidate, &voters);
    assert!(candidate.snapshot_covers_purge && candidate.journals_reclaimed);
    assert_eq!((candidate.journal_bytes_before, candidate.journal_bytes_after, candidate.snapshot_bytes), (180, 15, 60));
    assert_eq!((candidate.actual_physical_bytes, candidate.reported_physical_bytes), (75, 75));
    let poison = frontiered_cycle_accounting(FrontieredProcessSnapshotMode::AccountingPoison, &voters);
    assert_eq!((poison.actual_physical_bytes, poison.reported_physical_bytes), (75, 15));
    let unpurged = frontiered_cycle_accounting(
        FrontieredProcessSnapshotMode::AlignedRqoCandidate,
        &[voter(20, 0, 100, 10, 90), voter(19, 20, 100, 100, 0)],
    );
    assert!(!unpurged.snapshot_covers_purge);
    assert!(!unpurged.journals_reclaimed);
    let empty = frontiered_cycle_accounting(FrontieredProcessSnapshotMode::AlignedRqoCandidate, &[]);
    assert!(empty.snapshot_covers_purge && empty.journals_reclaimed);
    assert_eq!(empty.actual_physical_bytes, 0);
}

fn exact_cycle(retained: u64) -> FrontieredCycleOutcome {
    FrontieredCycleOutcome {
        retained_retry_outcomes: retained,
        actual_physical_bytes: 75,
        reported_physical_bytes: 75,
        snapshot_covers_purge: true,
        journals_reclaimed: true,
        expired_retry_rejected_without_mutation: true,
        retained_retry_exact: true,
        full_quorum_restart_exact: true,
        publication_retry_after_restart_exact: true,
        frontier_attestation_after_restart_exact: true,
        object_state_after_restart_exact: true,
        object_plus_suffix_after_restart_exact: true,
    }
}

#[test]
fn frontiered_judgement_counts_nine_flags() {
    let profile = bounds();
    let candidate = FrontieredProcessSnapshotMode::AlignedRqoCandidate;
    let cycles = [exact_cycle(64); 4];
    let j = frontiered_judgement(candidate, &profile, 3, 3, 1_024, &cycles, true, true);
    assert!(j.semantic_exact && j.no_retry_frontier_control_detected && j.accounting_poison_detected);
    assert_eq!(j.correctness_anomalies, 0);

    let mut broken = cycles;
    broken[2].retained_retry_exact = false;
    let j = frontiered_judgement(candidate, &profile, 2, 3, 1_000, &broken[..3], false, false);
    assert!(!j.semantic_exact);
    assert_eq!(j.correctness_anomalies, 1 + 1 + 1 + 1 + 1 + 1);

    let control = FrontieredProcessSnapshotMode::NoRetryFrontierControl;
    let growing = [exact_cycle(256), exact_cycle(512), exact_cycle(768), exact_cycle(1_024)];
    let j = frontiered_judgement(control, &profile, 3, 3, 1_024, &growing, true, true);
    assert!(j.no_retry_frontier_control_detected);
    assert_eq!(j.correctness_anomalies, 0);
    let j = frontiered_judgement(control, &profile, 3, 3, 1_024, &cycles, true, true);
    assert!(!j.no_retry_frontier_control_detected);
    assert_eq!(j.correctness_anomalies, 1);
    assert!(!frontiered_judgement(control, &profile, 3, 3, 1_024, &[], true, true).no_retry_frontier_control_detected);

    let poison = FrontieredProcessSnapshotMode::AccountingPoison;
    let mut hidden = cycles;
    for cycle in &mut hidden {
        cycle.reported_physical_bytes = 15;
    }
    assert!(frontiered_judgement(poison, &profile, 3, 3, 1_024, &hidden, true, true).accounting_poison_detected);
    hidden[3].reported_physical_bytes = 75;
    let j = frontiered_judgement(poison, &profile, 3, 3, 1_024, &hidden, true, true);
    assert!(!j.accounting_poison_detected);
    assert_eq!(j.correctness_anomalies, 1);
}

fn frozen_frontier_bounds() -> FrontieredSnapshotBounds {
    FrontieredSnapshotBounds {
        frontier_cycles: 4,
        transactions_per_cycle: 64,
        transactions_per_batch: 16,
        live_keys: 32,
        value_bytes: 64,
        retry_window: 16,
    }
}

#[test]
fn a_cycle_that_committed_too_few_refuses_the_run() {
    assert_eq!(check_cycle_committed(2, 64, 64), Ok(()));
    assert_eq!(
        check_cycle_committed(3, 61, 64).unwrap_err(),
        "G4.11a.1 cycle 3 committed 61 of 64 transactions"
    );
    assert_eq!(
        check_cycle_committed(1, 65, 64).unwrap_err(),
        "G4.11a.1 cycle 1 committed 65 of 64 transactions"
    );
}

#[test]
fn a_cycle_that_did_not_advance_the_version_refuses_the_run() {
    assert_eq!(check_version_advanced(1, 65, 1), Ok(()));
    assert_eq!(
        check_version_advanced(2, 65, 65).unwrap_err(),
        "G4.11a.1 cycle 2 did not advance the transaction version"
    );
    assert!(check_version_advanced(4, 3, 9).is_err());
}

#[test]
fn cycle_frontier_advance_names_the_retry_floor_unless_omitted() {
    let bounds = frozen_frontier_bounds();
    let advance = cycle_frontier_advance(FrontieredProcessSnapshotMode::AlignedRqoCandidate, &bounds, 77, 3, 190);
    assert_eq!(advance.sequence, 3);
    assert_eq!(advance.conflict_retention_floor, 190);
    assert_eq!(advance.retry_floors, vec![TransactionRetryFloor { client_id: 77, through_request_id: 176 }]);
    let omitted = cycle_frontier_advance(FrontieredProcessSnapshotMode::NoRetryFrontierControl, &bounds, 77, 3, 190);
    assert!(omitted.retry_floors.is_empty());
    let short = FrontieredSnapshotBounds { retry_window: 500, ..bounds };
    let saturated = cycle_frontier_advance(FrontieredProcessSnapshotMode::AccountingPoison, &short, 77, 1, 5);
    assert_eq!(saturated.retry_floors[0].through_request_id, 0);
}

#[test]
fn a_frontier_answer_that_differs_refuses_the_run() {
    let bounds = frozen_frontier_bounds();
    let advance = cycle_frontier_advance(FrontieredProcessSnapshotMode::AlignedRqoCandidate, &bounds, 77, 2, 130);
    let mut response = TransactionFrontierApplyResponse {
        applied_log_index: 9,
        sequence: 2,
        conflict_retention_floor: 130,
        retry_floors: advance.retry_floors.clone(),
        pruned_conflict_versions: 4,
        pruned_retry_outcomes: 112,
    };
    assert_eq!(check_frontier_applied(2, &response, &advance), Ok(()));
    response.retry_floors[0].through_request_id = 111;
    assert_eq!(
        check_frontier_applied(2, &response, &advance).unwrap_err(),
        "G4.11a.1 cycle 2 applied different transaction frontiers"
    );
    response.retry_floors = advance.retry_floors.clone();
    response.conflict_retention_floor = 129;
    assert!(check_frontier_applied(2, &response, &advance).is_err());
    response.conflict_retention_floor = 130;
    response.retry_floors.clear();
    assert!(check_frontier_applied(2, &response, &advance).is_err());
}

fn prepared_frontier(covered_through: u64) -> ObjectFrontierRecord {
    ObjectFrontierRecord {
        owner_generation: 7,
        source_root: "object-frontier/g411a1/9".to_owned(),
        manifest: PublicationObjectReference {
            kind: PublicationObjectKind::Manifest,
            key: "rows-g411a1/9/cycle-1/manifest/sha256/cd".to_owned(),
            length: 640,
            sha256: "cd".to_owned(),
        },
        covered_through,
        prepared_at: PublicationAuthorityPosition { term: 1, index: 3 },
    }
}

#[test]
fn a_cycle_must_activate_the_frontier_it_prepared() {
    let pending = prepared_frontier(65);
    assert_eq!(check_frontier_activated(1, true, &Some(pending.clone()), &pending), Ok(()));
    assert_eq!(
        check_frontier_activated(1, false, &Some(pending.clone()), &pending).unwrap_err(),
        "G4.11a.1 cycle 1 did not activate the exact object frontier"
    );
    assert!(check_frontier_activated(1, true, &None, &pending).is_err());
    assert!(check_frontier_activated(1, true, &Some(prepared_frontier(64)), &pending).is_err());
    let mut other_root = pending.clone();
    other_root.source_root.push('x');
    assert!(check_frontier_activated(2, true, &Some(other_root), &pending).is_err());
}
