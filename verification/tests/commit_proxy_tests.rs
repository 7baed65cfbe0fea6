use okv_eval::commit_proxy::{
    committed_versionstamps, contiguous_batch_orders, deterministic_value, proxy_verdict,
    sort_versionstamps, stamps_unique, subject_bounds, tally_outcomes, validate_profile,
    workload_items, CommitProxyMode, CommitProxyObservations, CommitProxyProfile,
};
use okv_eval::transaction::{TransactionApplyResponse, TransactionStatus};

fn profile() -> CommitProxyProfile {
    CommitProxyProfile {
        transaction_count: 1_024,
        value_bytes: 128,
        concurrent_clients: 64,
        admission_knee_clients: 32,
        max_batch_items: 16,
        max_entry_bytes: 262_144,
        max_batch_delay_micros: 2_000,
        queue_capacity: 2_048,
        sparse_transaction_count: 32,
        byte_control_transaction_count: 128,
        byte_control_value_bytes: 8_192,
        byte_control_max_entry_bytes: 131_072,
        overload_transaction_count: 512,
        overload_queue_capacity: 16,
    }
}

#[test]
fn profile_is_bounded() {
    let profile = profile();
    assert!(validate_profile(&profile).is_ok());
    assert!(validate_profile(&CommitProxyProfile { queue_capacity: 8, ..profile }).is_err());
}

#[test]
fn batch_orders_must_start_at_zero_without_gaps() {
    assert!(contiguous_batch_orders(&[(7, 0), (7, 1), (8, 0)]));
    assert!(!contiguous_batch_orders(&[(7, 0), (7, 2)]));
}

#[test]
fn repeated_batch_orders_are_not_contiguous() {
    assert!(!contiguous_batch_orders(&[(7, 0), (7, 0)]));
    assert!(contiguous_batch_orders(&[]));
    assert!(contiguous_batch_orders(&[(9, 1), (9, 0)]));
}

#[test]
fn subject_bounds_follow_the_mode() {
    let profile = profile();
    let sparse = subject_bounds(CommitProxyMode::SparseArrivalControl, &profile);
    assert_eq!(sparse.transaction_count, 32);
    assert_eq!(sparse.concurrent_requests, 1);
    let overload = subject_bounds(CommitProxyMode::OverloadControl, &profile);
    assert_eq!(overload.concurrent_requests, 512);
    assert_eq!(overload.queue_capacity, 16);
    let poison = subject_bounds(CommitProxyMode::OversizedItemPoison, &profile);
    assert_eq!(poison.transaction_count, 1);
    assert_eq!(poison.value_bytes, 262_144);
}

#[test]
fn deterministic_value_is_the_low_byte_of_the_mix() {
    let value = deterministic_value(1, 2, 3);
    // 17 + 62 + 13 * offset
    assert_eq!(value, vec![79, 92, 105]);
}

#[test]
fn workload_items_use_distinct_padded_keys() {
    let items = workload_items(5, 2, 4);
    assert_eq!(items.len(), 2);
    assert_eq!(items[0].identity.request_id, 1);
    assert_eq!(items[1].identity.client_id, 5);
    assert_eq!(items[1].command.write_conflicts[0].start, b"commit-proxy/5/00000002".to_vec());
    assert!(items[0].credential.is_none());
}

#[test]
fn versionstamps_sort_and_detect_repeats() {
    let sorted = sort_versionstamps(vec![(8, 0), (7, 1), (7, 0)]);
    assert_eq!(sorted, vec![(7, 0), (7, 1), (8, 0)]);
    assert!(stamps_unique(&sorted));
    assert!(!stamps_unique(&sort_versionstamps(vec![(7, 0), (7, 0)])));
}

#[test]
fn outcomes_are_tallied_by_kind() {
    let committed = Ok(TransactionApplyResponse {
        status: TransactionStatus::Committed { commit_version: 3 },
        applied_mutation_count: 1,
        applied_log_index: 3,
        batch_order: 0,
    });
    let conflict = Ok(TransactionApplyResponse {
        status: TransactionStatus::Conflict { conflicting_version: 2 },
        applied_mutation_count: 0,
        applied_log_index: 3,
        batch_order: 1,
    });
    let outcomes = vec![
        committed,
        conflict,
        Err("transaction batcher queue is full".to_owned()),
        Err("item has 9 bytes above the bound".to_owned()),
        Err("connection reset".to_owned()),
    ];
    let tally = tally_outcomes(&outcomes);
    assert_eq!(tally.resolved, 2);
    assert_eq!(tally.committed, 1);
    assert_eq!(tally.conflicts, 1);
    assert_eq!(tally.backpressure_rejections, 1);
    assert_eq!(tally.oversized_rejections, 1);
    assert_eq!(tally.unexpected_errors, 1);
}

#[test]
fn committed_outcomes_yield_their_versionstamps() {
    let committed = |version: u64, order: u16| {
        Ok(TransactionApplyResponse {
            status: TransactionStatus::Committed { commit_version: version },
            applied_mutation_count: 1,
            applied_log_index: version,
            batch_order: order,
        })
    };
    let outcomes = vec![
        committed(4, 1),
        Err("queue is full".to_owned()),
        Ok(TransactionApplyResponse {
            status: TransactionStatus::Conflict { conflicting_version: 3 },
            applied_mutation_count: 0,
            applied_log_index: 5,
            batch_order: 0,
        }),
        committed(4, 0),
    ];
    assert_eq!(committed_versionstamps(&outcomes), vec![(4, 1), (4, 0)]);
    assert!(committed_versionstamps(&[]).is_empty());
}

fn exact_observations(count: u64) -> CommitProxyObservations {
    CommitProxyObservations {
        authority_processes: 3,
        accepted_count: count,
        resolved_count: count,
        unexpected_errors: 0,
        backpressure_rejections: 0,
        oversized_rejections: 0,
        batcher_backpressure_rejections: 0,
        batcher_oversized_rejections: 0,
        versionstamps_unique: true,
        batch_orders_contiguous: true,
        retained_stream_complete: true,
        replay_matches_authority: true,
        exact_individual_retry: true,
        leader_failover_exact: true,
        restarted_voter_exact: true,
        authority_unchanged: true,
        max_observed_entry_bytes: 1_000,
        max_observed_batch_items: 8,
        batches: 100,
        delay_bound_closures: 0,
        byte_bound_closures: 0,
    }
}

#[test]
fn proxy_verdict_judges_each_mode_contract() {
    let profile = profile();
    let mode = CommitProxyMode::SaturatedCandidate;
    let bounds = subject_bounds(mode, &profile);
    let exact = exact_observations(1_024);
    let verdict = proxy_verdict(mode, &bounds, &exact);
    assert_eq!(verdict.correctness_anomalies, 0);
    assert!(verdict.overload_was_explicit);
    assert!(verdict.oversized_rejected_before_mutation);

    let broken = CommitProxyObservations {
        unexpected_errors: 2,
        authority_processes: 2,
        resolved_count: 1_000,
        versionstamps_unique: false,
        max_observed_entry_bytes: 262_145,
        max_observed_batch_items: 1,
        ..exact
    };
    assert_eq!(proxy_verdict(mode, &bounds, &broken).correctness_anomalies, 2 + 1 + 1 + 1 + 1 + 1);

    let overload = CommitProxyMode::OverloadControl;
    let overload_bounds = subject_bounds(overload, &profile);
    let refused = CommitProxyObservations {
        accepted_count: 300,
        resolved_count: 300,
        backpressure_rejections: 212,
        batcher_backpressure_rejections: 212,
        ..exact
    };
    let verdict = proxy_verdict(overload, &overload_bounds, &refused);
    assert!(verdict.overload_was_explicit);
    assert_eq!(verdict.correctness_anomalies, 0);
    let silent = CommitProxyObservations { backpressure_rejections: 0, ..refused };
    let verdict = proxy_verdict(overload, &overload_bounds, &silent);
    assert!(!verdict.overload_was_explicit);
    assert_eq!(verdict.correctness_anomalies, 1);

    let poison = CommitProxyMode::OversizedItemPoison;
    let poison_bounds = subject_bounds(poison, &profile);
    let rejected = CommitProxyObservations {
        accepted_count: 0,
        resolved_count: 0,
        oversized_rejections: 1,
        batcher_oversized_rejections: 1,
        ..exact
    };
    assert!(proxy_verdict(poison, &poison_bounds, &rejected).oversized_rejected_before_mutation);
    let mutated = CommitProxyObservations { authority_unchanged: false, ..rejected };
    assert!(!proxy_verdict(poison, &poison_bounds, &mutated).oversized_rejected_before_mutation);
}
