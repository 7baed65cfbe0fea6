use okv_eval::authority_state_scale::{
    expired_retry_rejected, frontier_advance, frontier_applied, is_next_checkpoint,
    record_checkpoint, scale_command, scale_verdict, validate_checkpoint, validate_profile,
    AuthorityStateScaleMode, AuthorityStateScaleProfile,
};
use okv_eval::transaction_log::{
    TransactionFrontierApplyResponse, TransactionLogStorageStats, TransactionRetryFloor,
};
use okv_eval::transaction::Mutation;

#[test]
fn profile_rejects_unordered_or_oversized_checkpoints() {
    let valid = AuthorityStateScaleProfile {
        live_keys: 256,
        value_bytes: 128,
        commit_checkpoints: vec![256, 1_024, 4_096],
        max_projected_growth_ratio: 2,
    };
    assert!(validate_profile(&valid).is_ok());
    let mut invalid = valid.clone();
    invalid.commit_checkpoints = vec![256, 128];
    assert!(validate_profile(&invalid).is_err());
    invalid.commit_checkpoints = vec![256, 4_097];
    assert!(validate_profile(&invalid).is_err());
}

#[test]
fn retained_only_mode_differs_from_ideal_projection() {
    assert_ne!(
        AuthorityStateScaleMode::RetainedOnlyAccountingPoison,
        AuthorityStateScaleMode::IdealStreamPopProjection
    );
    assert!(!AuthorityStateScaleMode::RetainedOnlyAccountingPoison.accounting_complete());
    assert!(AuthorityStateScaleMode::AlignedFrontiersProjection.split_frontiers());
}

#[test]
fn scale_command_writes_the_cycling_slot() {
    let profile = AuthorityStateScaleProfile {
        live_keys: 4,
        value_bytes: 3,
        commit_checkpoints: vec![4, 8],
        max_projected_growth_ratio: 2,
    };
    let command = scale_command(1, 6, 9, &profile);
    assert_eq!(command.read_version, 9);
    match &command.mutations[0] {
        Mutation::SetValue { key, value } => {
            assert_eq!(key, b"range/0001/key/00000001");
            // 65 + (1 + 6) % 26 = 72, 'H'
            assert_eq!(value, &vec![72u8; 3]);
        }
        _ => panic!("expected a set"),
    }
}

fn scale_profile() -> AuthorityStateScaleProfile {
    AuthorityStateScaleProfile {
        live_keys: 4,
        value_bytes: 8,
        commit_checkpoints: vec![4, 8],
        max_projected_growth_ratio: 2,
    }
}

fn complete_stats(commits: u64, split: bool) -> TransactionLogStorageStats {
    TransactionLogStorageStats {
        format_version: 2,
        high_watermark: commits,
        retention_floor: 0,
        projected_retention_floor: commits,
        conflict_retention_floor: if split { commits } else { 0 },
        retry_clients: u64::from(split),
        live_keys: 4,
        retained_conflict_versions: if split { 0 } else { commits },
        durable_outcomes: if split { 0 } else { commits },
        request_fingerprints: if split { 0 } else { commits },
        transaction_retry_outcomes: if split { 0 } else { commits },
        transaction_retry_fingerprints: if split { 0 } else { commits },
        retained_records: commits,
        projected_retained_records: 0,
        snapshot_bytes: 900,
        projected_snapshot_bytes: 400,
        transaction_authority_bytes: 10,
        serving_state_bytes: 20,
        resolver_state_bytes: 30,
        transaction_retry_state_bytes: 40,
        transaction_frontier_state_bytes: 50,
        retained_transactions_bytes: 500,
        projected_retained_transactions_bytes: 0,
        durable_outcomes_bytes: 60,
        request_fingerprints_bytes: 70,
    }
}

#[test]
fn checkpoints_require_complete_exact_accounting() {
    let profile = scale_profile();
    let split = AuthorityStateScaleMode::AlignedFrontiersProjection;
    let whole = AuthorityStateScaleMode::NoPopControl;
    assert!(validate_checkpoint(8, split, &profile, &complete_stats(8, true)).is_ok());
    assert!(validate_checkpoint(8, whole, &profile, &complete_stats(8, false)).is_ok());
    assert!(validate_checkpoint(8, whole, &profile, &complete_stats(8, true)).is_err());
    let mut short = complete_stats(8, true);
    short.resolver_state_bytes = 0;
    let error = validate_checkpoint(8, split, &profile, &short).unwrap_err();
    assert_eq!(error, format!("authority-state checkpoint 8 violated complete accounting: {short:?}"));
    let mut early = complete_stats(2, true);
    early.live_keys = 2;
    assert!(validate_checkpoint(2, split, &profile, &early).is_ok());
}

#[test]
fn recorded_checkpoint_tracks_the_mode_size() {
    let stats = complete_stats(8, true);
    let record = |mode| record_checkpoint(8, mode, stats).selected_snapshot_bytes;
    assert_eq!(record(AuthorityStateScaleMode::AlignedFrontiersProjection), 400);
    assert_eq!(record(AuthorityStateScaleMode::IdealStreamPopProjection), 400);
    assert_eq!(record(AuthorityStateScaleMode::NoPopControl), 900);
    assert_eq!(record(AuthorityStateScaleMode::RetainedOnlyAccountingPoison), 0);
    assert_eq!(record(AuthorityStateScaleMode::ServingOnlyAccountingPoison), 20);
    let checkpoint = record_checkpoint(8, AuthorityStateScaleMode::NoPopControl, stats);
    assert_eq!(checkpoint.commits, 8);
    assert_eq!(checkpoint.stats, stats);
}

#[test]
fn checkpoint_schedule_and_frontier_plan() {
    let profile = scale_profile();
    assert!(is_next_checkpoint(&profile, 0, 4));
    assert!(!is_next_checkpoint(&profile, 0, 8));
    assert!(is_next_checkpoint(&profile, 1, 8));
    assert!(!is_next_checkpoint(&profile, 2, 8));

    let (identity, advance) = frontier_advance(7, 3, 40, 12);
    assert_eq!(identity.client_id, 7 + (1_u64 << 62));
    assert_eq!(identity.request_id, 3);
    assert_eq!(advance.sequence, 3);
    assert_eq!(advance.conflict_retention_floor, 40);
    assert_eq!(
        advance.retry_floors,
        vec![TransactionRetryFloor { client_id: 7, through_request_id: 12 }]
    );
    let (zero_seed, zero_advance) = frontier_advance(0, 1, 1, 1);
    assert_eq!(zero_seed.client_id, 1 + (1_u64 << 62));
    assert_eq!(zero_advance.retry_floors[0].client_id, 1);
    assert_eq!(frontier_advance(u64::MAX, 1, 1, 1).0.client_id, u64::MAX);

    let applied = TransactionFrontierApplyResponse {
        applied_log_index: 50,
        sequence: 3,
        conflict_retention_floor: 40,
        retry_floors: Vec::new(),
        pruned_conflict_versions: 0,
        pruned_retry_outcomes: 0,
    };
    assert!(frontier_applied(&applied, 3, 40));
    assert!(!frontier_applied(&applied, 4, 40));
    assert!(!frontier_applied(&applied, 3, 41));
}

#[test]
fn expired_retries_must_be_refused_below_the_floor() {
    assert!(expired_retry_rejected(&Err(
        "request 3 is below its retained floor 9".to_owned()
    )));
    assert!(!expired_retry_rejected(&Err("connection reset".to_owned())));
}

#[test]
fn verdict_counts_growth_and_anomalies() {
    let profile = scale_profile();
    let stats = complete_stats(4, true);
    let checkpoint = |bytes| {
        let mut checkpoint =
            record_checkpoint(4, AuthorityStateScaleMode::AlignedFrontiersProjection, stats);
        checkpoint.selected_snapshot_bytes = bytes;
        checkpoint
    };
    let bounded = [checkpoint(100), checkpoint(200)];
    let verdict = scale_verdict(
        AuthorityStateScaleMode::AlignedFrontiersProjection,
        &profile,
        &bounded,
        true,
        8,
        8,
        true,
    );
    assert!(verdict.bounded_state);
    assert!(verdict.accounting_complete);
    assert!(verdict.projection_non_mutating);
    assert_eq!(verdict.correctness_anomalies, 0);

    let grown = [checkpoint(100), checkpoint(201)];
    let verdict = scale_verdict(
        AuthorityStateScaleMode::ServingOnlyAccountingPoison,
        &profile,
        &grown,
        true,
        7,
        8,
        false,
    );
    assert!(!verdict.bounded_state);
    assert!(!verdict.accounting_complete);
    assert!(!verdict.projection_non_mutating);
    assert_eq!(verdict.correctness_anomalies, 1 + 1 + 2);
}
