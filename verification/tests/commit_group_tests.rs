use okv_eval::commit_group::{
    command, early_ack_anomalies, expected_values, normal_anomalies, retained_stream_complete,
    validate_profile, value_fill, CommitGroupMode, CommitGroupObservations, CommitGroupProfile,
};
use okv_eval::replay::replay_values;
use okv_eval::transaction::{KeyRange, Mutation, RetainedTransactionRecord, TransactionCommand};

fn valid() -> CommitGroupProfile {
    CommitGroupProfile {
        live_keys: 256,
        value_bytes: 128,
        transaction_count: 512,
        candidate_max_in_flight: 32,
        control_max_in_flight: 1,
        candidate_min_transactions_per_second: 200,
        candidate_min_entries_per_append: 4,
        candidate_max_commit_p99_micros: 250_000,
    }
}

#[test]
fn profile_rejects_unbounded_or_nonsequential_controls() {
    let valid = valid();
    assert!(validate_profile(&valid).is_ok());
    let mut invalid = valid.clone();
    invalid.control_max_in_flight = 2;
    assert!(validate_profile(&invalid).is_err());
    invalid = valid;
    invalid.candidate_max_in_flight = 257;
    assert!(validate_profile(&invalid).is_err());
}

#[test]
fn final_value_oracle_ignores_concurrent_overwrite_order() {
    let profile = CommitGroupProfile {
        live_keys: 1,
        value_bytes: 2,
        transaction_count: 2,
        candidate_max_in_flight: 2,
        control_max_in_flight: 1,
        candidate_min_transactions_per_second: 1,
        candidate_min_entries_per_append: 1,
        candidate_max_commit_p99_micros: 1,
    };
    assert_eq!(command(9, 1, &profile), command(9, 2, &profile));
}

#[test]
fn replay_in_either_order_yields_the_expected_values() {
    let profile = CommitGroupProfile { live_keys: 2, value_bytes: 3, transaction_count: 4, ..valid() };
    let records = |order: [u64; 4]| {
        order
            .iter()
            .enumerate()
            .map(|(position, request)| RetainedTransactionRecord {
                commit_version: position as u64 + 1,
                batch_order: 0,
                command: command(5, *request, &profile),
            })
            .collect::<Vec<_>>()
    };
    let expected = expected_values(5, &profile);
    assert_eq!(expected.len(), 2);
    assert_eq!(expected[0].0, b"range/0001/key/00000000".to_vec());
    assert_eq!(expected[0].1, vec![value_fill(5, 0); 3]);
    for order in [[1, 2, 3, 4], [4, 3, 2, 1], [2, 4, 1, 3]] {
        let replayed = replay_values(&records(order));
        assert!(replayed.values_equal(&expected));
    }
    let partial = replay_values(&records([1, 3, 1, 3]));
    assert!(!partial.values_equal(&expected));
}

#[test]
fn value_fill_cycles_through_capital_letters() {
    assert_eq!(value_fill(0, 0), b'A');
    assert_eq!(value_fill(9, 16), b'Z');
    assert_eq!(value_fill(26, 0), b'A');
}

#[test]
fn mode_identifiers_are_stable() {
    assert_eq!(CommitGroupMode::Candidate.id(), "candidate");
    assert_eq!(CommitGroupMode::SequentialControl.id(), "sequential_control");
    assert_eq!(CommitGroupMode::EarlyAckPoison.id(), "early_ack_poison");
}

#[test]
fn clear_range_removes_only_keys_in_the_interval() {
    let set = |key: &[u8]| Mutation::SetValue { key: key.to_vec(), value: vec![1] };
    let records = vec![
        RetainedTransactionRecord {
            commit_version: 1,
            batch_order: 0,
            command: TransactionCommand {
                read_version: 0,
                read_conflicts: vec![],
                write_conflicts: vec![],
                mutations: vec![set(b"a"), set(b"b"), set(b"c"), set(b"d")],
            },
        },
        RetainedTransactionRecord {
            commit_version: 2,
            batch_order: 0,
            command: TransactionCommand {
                read_version: 0,
                read_conflicts: vec![],
                write_conflicts: vec![],
                mutations: vec![
                    Mutation::ClearRange { range: KeyRange { start: b"b".to_vec(), end: b"d".to_vec() } },
                    Mutation::Clear { key: b"a".to_vec() },
                ],
            },
        },
    ];
    let replayed = replay_values(&records);
    assert!(replayed.get(b"a").is_none());
    assert!(replayed.get(b"b").is_none());
    assert!(replayed.get(b"c").is_none());
    let d = replayed.get(b"d").expect("d survives");
    assert_eq!(d.version, 1);
}

#[test]
fn normal_run_counts_each_failed_observation() {
    let exact = CommitGroupObservations {
        authority_processes: 3,
        committed_count: 512,
        commit_versions_unique_and_increasing: true,
        retained_stream_complete: true,
        exact_final_values: true,
        exact_retry: true,
        leader_failover_exact: true,
        restarted_voter_exact: true,
    };
    assert_eq!(normal_anomalies(&exact, 512), 0);
    assert_eq!(normal_anomalies(&exact, 511), 1);
    let broken = CommitGroupObservations {
        authority_processes: 2,
        committed_count: 1,
        commit_versions_unique_and_increasing: false,
        retained_stream_complete: false,
        exact_final_values: false,
        exact_retry: false,
        leader_failover_exact: false,
        restarted_voter_exact: false,
    };
    assert_eq!(normal_anomalies(&broken, 512), 8);
    assert_eq!(early_ack_anomalies(true, true), 1);
    assert_eq!(early_ack_anomalies(true, false), 0);
    assert_eq!(early_ack_anomalies(false, true), 0);
}

#[test]
fn retained_stream_needs_every_commit_in_version_order() {
    let profile = valid();
    let record = |version: u64| RetainedTransactionRecord {
        commit_version: version,
        batch_order: 0,
        command: command(5, 1, &profile),
    };
    let ordered = vec![record(1), record(2), record(5)];
    assert!(retained_stream_complete(true, &ordered, 3));
    assert!(!retained_stream_complete(false, &ordered, 3));
    assert!(!retained_stream_complete(true, &ordered, 4));
    let repeated = vec![record(1), record(2), record(2)];
    assert!(!retained_stream_complete(true, &repeated, 3));
    assert!(retained_stream_complete(true, &[], 0));
}
