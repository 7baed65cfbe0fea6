use okv_eval::commit_proxy_object_frontier::{
    check_prefix_committed,
    conflict_oracle_exact, expected_conflict_count, ordered_outcomes_exact, prefix_items,
    publication_identity, suffix_items, validate_profile, CommitProxyObjectFrontierMode,
    CommitProxyObjectFrontierProfile,
};
use okv_eval::transaction::{
    GenerationCredential, Mutation, RequestIdentity, TransactionApplyResponse, TransactionStatus,
};

fn profile() -> CommitProxyObjectFrontierProfile {
    CommitProxyObjectFrontierProfile {
        prefix_transaction_count: 512,
        suffix_transaction_count: 1_024,
        value_bytes: 128,
        concurrent_clients: 64,
        max_batch_items: 32,
        max_entry_bytes: 262_144,
        max_batch_delay_micros: 2_000,
        queue_capacity: 2_048,
        hot_key_count: 64,
    }
}

#[test]
fn frozen_profile_is_bounded() {
    let profile = profile();
    assert!(validate_profile(&profile).is_ok());
    assert!(validate_profile(&CommitProxyObjectFrontierProfile { queue_capacity: 16, ..profile }).is_err());
}

#[test]
fn conflict_controls_have_exact_expected_counts() {
    let profile = profile();
    assert_eq!(expected_conflict_count(CommitProxyObjectFrontierMode::QuarterConflictCandidate, &profile), 192);
    assert_eq!(expected_conflict_count(CommitProxyObjectFrontierMode::NoConflictControl, &profile), 0);
    assert_eq!(expected_conflict_count(CommitProxyObjectFrontierMode::HighConflictControl, &profile), 704);
}

fn response(status: TransactionStatus, version: u64, order: u16) -> Result<TransactionApplyResponse, String> {
    Ok(TransactionApplyResponse { status, applied_mutation_count: 1, applied_log_index: version, batch_order: order })
}

#[test]
fn conflict_oracle_follows_versionstamp_order() {
    let profile = CommitProxyObjectFrontierProfile { suffix_transaction_count: 8, hot_key_count: 1, value_bytes: 4, ..profile() };
    let credential = GenerationCredential { generation: 7, transaction_system_id: "tx-g7".to_owned() };
    let items = suffix_items(3, CommitProxyObjectFrontierMode::QuarterConflictCandidate, &profile, 40, &credential);
    assert_eq!(items.len(), 8);
    assert_eq!(items[0].command.read_conflicts.len(), 1);
    assert_eq!(items[1].command.read_conflicts.len(), 1);
    assert_eq!(items[2].command.read_conflicts.len(), 0);
    assert_eq!(items[0].command.write_conflicts[0].start, b"g410b/hot/3/00000000".to_vec());
    assert_eq!(items[2].command.write_conflicts[0].start, b"g410b/unique/3/00000003".to_vec());
    let mut outcomes = Vec::new();
    // The second hot read commits first (lower versionstamp); the first must then conflict at it.
    outcomes.push(response(TransactionStatus::Conflict { conflicting_version: 41 }, 42, 0));
    outcomes.push(response(TransactionStatus::Committed { commit_version: 41 }, 41, 0));
    for ordinal in 2..8u64 {
        outcomes.push(response(TransactionStatus::Committed { commit_version: 50 + ordinal }, 50 + ordinal, 0));
    }
    assert!(conflict_oracle_exact(&items, &outcomes, 40));
    outcomes[0] = response(TransactionStatus::Conflict { conflicting_version: 40 }, 42, 0);
    assert!(!conflict_oracle_exact(&items, &outcomes, 40));
}

#[test]
fn mode_shares_and_poison() {
    assert_eq!(CommitProxyObjectFrontierMode::HighConflictControl.conflict_numerator(), 3);
    assert_eq!(CommitProxyObjectFrontierMode::HighConflictControl.conflict_denominator(), 4);
    assert!(CommitProxyObjectFrontierMode::PrematurePopPoison.is_poison());
    assert!(!CommitProxyObjectFrontierMode::NoConflictControl.is_poison());
    assert_eq!(CommitProxyObjectFrontierMode::MovingFrontierPoison.id(), "moving_frontier_poison");
}

#[test]
fn prefix_items_write_their_own_base_keys() {
    let profile = CommitProxyObjectFrontierProfile { prefix_transaction_count: 3, value_bytes: 40, ..profile() };
    let credential = GenerationCredential { generation: 7, transaction_system_id: "tx-g7".to_owned() };
    let items = prefix_items(5, &profile, &credential);
    assert_eq!(items.len(), 3);
    for (position, item) in items.iter().enumerate() {
        let ordinal = position as u64 + 1;
        assert_eq!(item.identity, RequestIdentity { client_id: 100_005, request_id: ordinal });
        assert_eq!(item.credential, Some(credential.clone()));
        assert_eq!(item.command.read_version, 0);
        assert!(item.command.read_conflicts.is_empty());
        let key = format!("g410b/base/5/{ordinal:08}").into_bytes();
        assert_eq!(item.command.write_conflicts.len(), 1);
        assert_eq!(item.command.write_conflicts[0].start, key);
        match &item.command.mutations[..] {
            [Mutation::SetValue { key: written, value }] => {
                assert_eq!(written, &key);
                assert_eq!(value.len(), 40);
            }
            other => panic!("unexpected mutations {other:?}"),
        }
    }
    assert_ne!(items[0].command.mutations, items[1].command.mutations);
    assert_eq!(publication_identity(5, 9), RequestIdentity { client_id: 300_005, request_id: 9 });
    assert_eq!(publication_identity(0, 1).client_id, 300_001);
    assert_eq!(publication_identity(u64::MAX, 1).client_id, u64::MAX);
}

#[test]
fn ordered_outcomes_are_judged_in_versionstamp_order() {
    let committed = |version: u64| TransactionStatus::Committed { commit_version: version };
    let outcomes = vec![
        response(committed(9), 9, 1),
        Err("queue is full".to_owned()),
        response(committed(9), 9, 0),
        response(committed(8), 8, 0),
    ];
    assert_eq!(ordered_outcomes_exact(&outcomes), (true, true));
    let gap = vec![response(committed(9), 9, 0), response(committed(9), 9, 2)];
    assert_eq!(ordered_outcomes_exact(&gap), (true, false));
    let repeated = vec![response(committed(9), 9, 0), response(committed(9), 9, 0)];
    assert!(!ordered_outcomes_exact(&repeated).0);
}

#[test]
fn a_prefix_that_committed_too_few_refuses_the_run() {
    assert_eq!(check_prefix_committed(512, 512), Ok(()));
    assert_eq!(
        check_prefix_committed(509, 512).unwrap_err(),
        "G4.10b prefix committed 509 of 512 transactions"
    );
}
