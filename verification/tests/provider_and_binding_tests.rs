use okv_eval::mvcc_gc_authority::{
    authorize_mvcc_gc_collection, bind_mvcc_gc_collection_receipt, build_composition_report, collection_token,
    command, require_accepted, CollectionJobToken, CollectionRequest, CompositionEvidence,
    MvccGcAuthorityBindingError, MvccGcAuthorityCompositionMode, PhysicalCollectionReceipt,
    PhysicalManifestReceipt, PhysicalObjectReceipt, PublicationAuthorityPosition, PublicationObjectKind,
    PublicationObjectReference,
};
use okv_eval::provider_incarnation::{
    build_report, run_provider_incarnation_contract, GenerationProcessSummary, ProviderIncarnationMode,
    ProviderObservations, PublicationProcessSummary,
};

fn observations() -> ProviderObservations {
    ProviderObservations {
        external_authority_separate: true,
        source_fence_precedes_activation: true,
        stale_commit_rejected: true,
        stale_route_rejected: true,
        stale_publication_rejected: true,
        destination_operations_authorized: true,
    }
}

fn check(report: &okv_eval::provider_incarnation::ProviderIncarnationReport, name: &str) -> bool {
    report.checks.iter().find(|(check, _)| check == name).map(|(_, passed)| *passed).expect("named check")
}

#[test]
fn correct_compound_fence_has_no_anomalies() {
    let report = build_report(1, ProviderIncarnationMode::Correct, observations(), 6, 6, 2, 2, 4, 4, 10, "generation", "publication");
    assert_eq!(report.anomaly_count, 0);
    assert!(report.checks.iter().all(|(_, passed)| *passed));
    assert_eq!(report.first_mismatch, None);
    assert_eq!(report.trace_sha256.len(), 64);
}

#[test]
fn stale_source_poison_crosses_all_three_fenced_surfaces() {
    let mut unsafe_observations = observations();
    unsafe_observations.stale_commit_rejected = false;
    unsafe_observations.stale_route_rejected = false;
    unsafe_observations.stale_publication_rejected = false;
    let report = build_report(
        1,
        ProviderIncarnationMode::AcceptStaleSourceIncarnation,
        unsafe_observations,
        6, 6, 2, 2, 4, 1, 10,
        "generation",
        "publication",
    );
    assert_eq!(report.anomaly_count, 3);
    assert!(!check(&report, "newer_incarnation_fences_old_commit_authority"));
    assert!(!check(&report, "newer_incarnation_fences_old_routing"));
    assert!(!check(&report, "newer_incarnation_fences_old_object_publication"));
    assert_eq!(report.first_mismatch.as_deref(), Some("newer_incarnation_fences_old_commit_authority"));
    let correct = build_report(1, ProviderIncarnationMode::Correct, observations(), 6, 6, 2, 2, 4, 4, 10, "generation", "publication");
    assert_ne!(report.trace_sha256, correct.trace_sha256);
}

fn object(key: &str, sha: &str) -> PhysicalObjectReceipt {
    PhysicalObjectReceipt { key: key.to_owned(), length: 10, sha256: sha.to_owned() }
}

fn physical() -> PhysicalCollectionReceipt {
    PhysicalCollectionReceipt {
        anomaly_count: 0,
        publication_completed: true,
        input_physical_manifest: PhysicalManifestReceipt { manifest: object("kv-runtime/in", "a"), manifest_id: 1, live_ssts: vec![], valid: true },
        output_physical_manifest: PhysicalManifestReceipt {
            manifest: object("kv-runtime/out", "b"),
            manifest_id: 2,
            live_ssts: vec![object("kv-runtime/sst/2", "c"), object("kv-runtime/sst/1", "d")],
            valid: true,
        },
        floor_version: 9,
        filter_floor_version: 9,
        claimed_collected_through: 9,
    }
}

fn token() -> CollectionJobToken {
    CollectionJobToken {
        job_id: "j1".to_owned(),
        owner_generation: 7,
        authority_position: PublicationAuthorityPosition { term: 3, index: 9 },
        frozen_floor: 9,
        input_manifest: PublicationObjectReference { kind: PublicationObjectKind::Manifest, key: "kv-runtime/in".to_owned(), length: 10, sha256: "a".to_owned() },
        destination_root: "cell-root".to_owned(),
        range_map_epoch: 9,
        expected_collected_through: 0,
        output_namespace: "kv-runtime/".to_owned(),
    }
}

#[test]
fn binds_only_the_exact_physical_job_receipt() {
    let receipt = bind_mvcc_gc_collection_receipt(&token(), &physical()).expect("exact receipt");
    assert_eq!(receipt.token, token());
    assert_eq!(receipt.output_manifest.key, "kv-runtime/out");
    assert_eq!(receipt.object_keys, vec!["kv-runtime/out", "kv-runtime/sst/1", "kv-runtime/sst/2"]);
    let mut wrong_floor = token();
    wrong_floor.frozen_floor += 1;
    assert_eq!(bind_mvcc_gc_collection_receipt(&wrong_floor, &physical()), Err(MvccGcAuthorityBindingError::FrozenFloorMismatch));
    let mut wrong_input = token();
    wrong_input.input_manifest.sha256 = "0".repeat(64);
    assert_eq!(bind_mvcc_gc_collection_receipt(&wrong_input, &physical()), Err(MvccGcAuthorityBindingError::InputManifestMismatch));
    let mut wrong_namespace = token();
    wrong_namespace.output_namespace = "collections/other/".to_owned();
    assert_eq!(bind_mvcc_gc_collection_receipt(&wrong_namespace, &physical()), Err(MvccGcAuthorityBindingError::OutputNamespaceMismatch));
    let authorization = authorize_mvcc_gc_collection(
        &token(),
        &CollectionRequest { frozen_floor: 9, input_manifest: physical().input_physical_manifest },
    )
    .expect("authorize exact request");
    assert_eq!(authorization.authority_index, 9);
}

#[test]
fn rejects_a_collector_that_claims_collection_without_publication() {
    let mut unsafe_physical = physical();
    unsafe_physical.publication_completed = false;
    assert_eq!(bind_mvcc_gc_collection_receipt(&token(), &unsafe_physical), Err(MvccGcAuthorityBindingError::UnsafePhysicalReceipt));
    assert_eq!(
        MvccGcAuthorityBindingError::UnsafePhysicalReceipt.message(),
        "physical MVCC collector receipt failed its safety gates"
    );
}

#[test]
fn provider_trace_digest_covers_seed_mode_traces_and_checks() {
    let report = build_report(1, ProviderIncarnationMode::Correct, observations(), 6, 6, 2, 2, 4, 4, 10, "generation", "publication");
    assert_eq!(report.trace_sha256, "4e522246b0e04e6625859bbe39eab0a1ecaf2e5ca6a659466ae0653b94007411");
}

fn generation_summary() -> GenerationProcessSummary {
    GenerationProcessSummary {
        authority_process_starts: 3,
        data_process_starts: 6,
        process_kills: 1,
        authority_failovers: 1,
        source_provider_fence_persisted: true,
        source_fence_precedes_activation: true,
        fenced_commit_attempts: 4,
        fenced_commit_rejections: 4,
        stale_generation_routing_rejected: true,
        active_generation_routing_authorized: true,
        committed_data_writes: 2,
        trace_sha256: "g-trace".to_owned(),
    }
}

fn publication_summary() -> PublicationProcessSummary {
    PublicationProcessSummary {
        authority_process_starts: 3,
        process_kills: 1,
        authority_failovers: 1,
        publication_writes: 10,
        checks: vec![
            ("active_generation_authorizes_publication".to_owned(), true),
            ("matching_publish_commits".to_owned(), true),
            ("stale_generation_is_fenced".to_owned(), true),
        ],
        trace_sha256: "p-trace".to_owned(),
    }
}

#[test]
fn compound_report_sums_both_process_contracts() {
    let report = run_provider_incarnation_contract(
        5,
        ProviderIncarnationMode::Correct,
        &generation_summary(),
        &publication_summary(),
    );
    assert_eq!(report.seed, 5);
    assert_eq!(report.anomaly_count, 0);
    assert_eq!(report.authority_process_starts, 6);
    assert_eq!(report.data_process_starts, 6);
    assert_eq!(report.process_kills, 2);
    assert_eq!(report.authority_failovers, 2);
    assert_eq!(report.fenced_commit_attempts, 4);
    assert_eq!(report.fenced_commit_rejections, 4);
    assert_eq!(report.publication_writes, 10);
    assert_eq!(report.trace_sha256, "bca9a78847a27538ab97f0df2a199d111821e3a02adfed2375e8f1c02f1b230c");

    let stale = run_provider_incarnation_contract(
        5,
        ProviderIncarnationMode::AcceptStaleSourceIncarnation,
        &generation_summary(),
        &publication_summary(),
    );
    assert_eq!(stale.anomaly_count, 1);
    assert_eq!(stale.first_mismatch.as_deref(), Some("newer_incarnation_fences_old_routing"));
    assert_eq!(stale.trace_sha256, "6903e337e804fb91ca27eb51cd5f0132417a3183a983ada30e7c709222372048");

    let mut unfenced = publication_summary();
    unfenced.checks.retain(|(name, _)| name != "stale_generation_is_fenced");
    let mut few_writes = generation_summary();
    few_writes.committed_data_writes = 1;
    let report = run_provider_incarnation_contract(5, ProviderIncarnationMode::Correct, &few_writes, &unfenced);
    assert_eq!(report.anomaly_count, 2);
    assert!(!check(&report, "newer_incarnation_fences_old_object_publication"));
    assert!(!check(&report, "destination_incarnation_routes_commits_and_publishes"));
}

#[test]
fn composition_steps_must_be_accepted() {
    assert_eq!(command(0, 4).client_id, 1);
    assert_eq!(command(9, 4).client_id, 9);
    assert_eq!(require_accepted(true, "Accepted", "freeze"), Ok(()));
    assert_eq!(require_accepted(false, "Rejected(stale)", "freeze").unwrap_err(), "freeze returned Rejected(stale)");
    assert_eq!(collection_token(true, "Accepted", Some(token()), "Prepared", "prepare"), Ok(token()));
    assert_eq!(
        collection_token(false, "Rejected", Some(token()), "Prepared", "prepare").unwrap_err(),
        "prepare returned Rejected"
    );
    assert_eq!(
        collection_token(true, "Accepted", None, "Noop", "prepare").unwrap_err(),
        "prepare returned unexpected outcome Noop"
    );
}

#[test]
fn composition_report_counts_failed_checks_in_order() {
    let evidence = CompositionEvidence {
        frozen_floor: 9,
        input_manifest_id: 1,
        output_manifest_id: 2,
        output_live_ssts: 2,
        input_reads_exact: true,
        output_reads_exact: true,
        final_collected_through: 9,
        final_root_sha256: Some("root".to_owned()),
    };
    let checks = vec![
        ("a_check".to_owned(), true),
        ("b_check".to_owned(), false),
        ("c_check".to_owned(), false),
    ];
    let report = build_composition_report(3, MvccGcAuthorityCompositionMode::Correct, checks.clone(), &evidence, "trace".to_owned());
    assert_eq!(report.executed_checks, 3);
    assert_eq!(report.anomaly_count, 2);
    assert_eq!(report.first_mismatch.as_deref(), Some("b_check"));
    assert_eq!((report.authority_process_starts, report.authority_process_kills, report.authority_failovers), (3, 1, 1));
    assert!(report.serving_root_binding);
    assert_eq!(report.output_object_count, 3);
    assert_eq!(report.final_root_sha256, "root");
    assert_eq!(report.checks, checks);
    assert_eq!(report.trace_sha256, "trace");

    let skipped = build_composition_report(
        3,
        MvccGcAuthorityCompositionMode::SkipAuthorityFailover,
        vec![("a_check".to_owned(), true)],
        &CompositionEvidence { final_root_sha256: None, output_reads_exact: false, ..evidence },
        String::new(),
    );
    assert_eq!(skipped.anomaly_count, 0);
    assert_eq!(skipped.first_mismatch, None);
    assert_eq!((skipped.authority_process_kills, skipped.authority_failovers), (0, 0));
    assert!(!skipped.serving_root_binding);
    assert_eq!(skipped.final_root_sha256, "");
}
