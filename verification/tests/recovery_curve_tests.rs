use okv_eval::recovery_curve::{
    check_ready_receipt, classify_pending, inspect_inventories, prepare_inventories,
    recovery_curve_verdict, recovery_marker_base, recovery_receipt, recruit_role,
    recruit_successor_roles, verify_inventory_file, write_inventory, InventoryAssignment,
    InventoryInspection, RecoveryCurveReadyReceipt, RecoveryCurveRoleConfig, RecoveryCurveRoleKind,
    RecoveryCurveRoleReceipt, SuccessorRole, TransactionSystemRecoveryCurveConfig,
    TransactionSystemRecoveryCurveMode,
};

#[test]
fn frozen_large_point_remains_inside_eval_envelope() {
    let config = TransactionSystemRecoveryCurveConfig {
        seed: 1103,
        scale_class: "large".to_owned(),
        pending_tickets: 512,
        retained_records_per_tlog: 65_536,
        commit_proxy_roles: 3,
        resolver_roles: 33,
        tlog_sets: 4,
        tlog_nodes_per_set: 5,
        logical_database_bytes: 1_125_899_906_842_624,
    };
    assert!(config.validate().is_ok());
    assert_eq!(config.successor_roles(), 56);
}

fn small_config() -> TransactionSystemRecoveryCurveConfig {
    TransactionSystemRecoveryCurveConfig {
        seed: 1103,
        scale_class: "small".to_owned(),
        pending_tickets: 4,
        retained_records_per_tlog: 16,
        commit_proxy_roles: 1,
        resolver_roles: 1,
        tlog_sets: 2,
        tlog_nodes_per_set: 3,
        logical_database_bytes: 1_048_576,
    }
}

#[test]
fn pending_classification_is_linear_except_under_the_quadratic_poison() {
    assert_eq!(classify_pending(4, TransactionSystemRecoveryCurveMode::Correct), 4);
    assert_eq!(classify_pending(4, TransactionSystemRecoveryCurveMode::QuadraticInventoryScan), 14);
    assert_eq!(classify_pending(0, TransactionSystemRecoveryCurveMode::QuadraticInventoryScan), 0);
    assert_eq!(recovery_marker_base(1103, 3), 55_103_006);
    assert_eq!(recovery_marker_base(21_103, 0), 55_103_000);
}

#[test]
fn inventory_plan_lags_the_last_replica_of_each_set() {
    let plan = prepare_inventories(&small_config()).unwrap();
    let expected: Vec<InventoryAssignment> = [(1, 1, 16), (1, 2, 16), (1, 3, 14), (2, 1, 16), (2, 2, 16), (2, 3, 14)]
        .into_iter()
        .map(|(log_set_id, node_id, record_count)| InventoryAssignment { log_set_id, node_id, record_count })
        .collect();
    assert_eq!(plan, expected);
    let wide = TransactionSystemRecoveryCurveConfig { tlog_nodes_per_set: 70_000, ..small_config() };
    assert_eq!(prepare_inventories(&wide).unwrap_err(), "tLog node identity exceeds u16");
}

#[test]
fn successor_roles_are_recruited_in_order() {
    let (roles, overflow) = recruit_successor_roles(&small_config());
    assert_eq!(overflow, None);
    assert_eq!(roles.len(), 8);
    assert_eq!(roles[0], SuccessorRole { role: RecoveryCurveRoleKind::CommitProxy, role_id: 1, log_set_id: None });
    assert_eq!(roles[1], SuccessorRole { role: RecoveryCurveRoleKind::Resolver, role_id: 1, log_set_id: None });
    assert_eq!(roles[2], SuccessorRole { role: RecoveryCurveRoleKind::Tlog, role_id: 1, log_set_id: Some(1) });
    assert_eq!(roles[7], SuccessorRole { role: RecoveryCurveRoleKind::Tlog, role_id: 6, log_set_id: Some(2) });

    let task = recruit_role(9, &roles[7]).unwrap();
    assert_eq!(
        task,
        RecoveryCurveRoleConfig::Ready {
            seed: 9,
            generation: 2,
            role: RecoveryCurveRoleKind::Tlog,
            role_id: 6,
            log_set_id: Some(2),
        }
    );
    let oversized = SuccessorRole { role: RecoveryCurveRoleKind::Resolver, role_id: 65_536, log_set_id: None };
    assert_eq!(recruit_role(9, &oversized).unwrap_err(), "successor role identity exceeds u16");

    let ready = RecoveryCurveReadyReceipt {
        format_version: 1,
        seed: 9,
        generation: 2,
        role: RecoveryCurveRoleKind::Tlog,
        role_id: 6,
        log_set_id: Some(2),
        signature: vec![1, 2, 3],
    };
    let answer = RecoveryCurveRoleReceipt::Ready(ready.clone());
    assert!(check_ready_receipt(&answer, 9, &roles[7], true).is_ok());
    assert_eq!(
        check_ready_receipt(&answer, 9, &roles[7], false).unwrap_err(),
        "successor role readiness receipt is invalid"
    );
    assert!(check_ready_receipt(&answer, 9, &roles[6], true).is_err());
    let wrong_set = RecoveryCurveRoleReceipt::Ready(RecoveryCurveReadyReceipt { log_set_id: None, ..ready });
    assert!(check_ready_receipt(&wrong_set, 9, &roles[7], true).is_err());
    let (_, receipt) = write_inventory(9, 1, 1, 1).unwrap();
    assert_eq!(
        check_ready_receipt(&RecoveryCurveRoleReceipt::Inventory(receipt), 9, &roles[7], true).unwrap_err(),
        "successor role returned an inventory receipt"
    );
}

#[test]
fn inventory_files_verify_only_when_exact() {
    assert_eq!(write_inventory(9, 0, 1, 4).unwrap_err(), "inventory writer identity is invalid");
    assert!(write_inventory(9, 1, 1, 0).is_err());
    let (file, receipt) = write_inventory(9, 2, 3, 4).unwrap();
    assert_eq!(file.len(), 160);
    assert_eq!(&file[..8], &1_u64.to_be_bytes());
    assert_eq!(&file[120..128], &4_u64.to_be_bytes());
    assert_eq!((receipt.format_version, receipt.generation), (1, 1));
    assert_eq!((receipt.log_set_id, receipt.node_id, receipt.record_count), (2, 3, 4));
    assert_eq!(receipt.byte_count, 160);
    assert!(receipt.signature.is_empty());
    assert_eq!(verify_inventory_file(&file, &receipt), Ok(160));

    let (other, _) = write_inventory(9, 2, 4, 4).unwrap();
    assert_ne!(file, other);

    let mut corrupt = file.clone();
    corrupt[50] ^= 1;
    assert_eq!(
        verify_inventory_file(&corrupt, &receipt).unwrap_err(),
        "tLog inventory record is not exact and contiguous"
    );
    assert_eq!(verify_inventory_file(&file[..150], &receipt).unwrap_err(), "failed to fill whole buffer");
    let mut trailing = file.clone();
    trailing.push(0);
    assert_eq!(
        verify_inventory_file(&trailing, &receipt).unwrap_err(),
        "tLog inventory file does not match its signed receipt"
    );
    let mut forged = receipt.clone();
    forged.inventory_sha256[0] ^= 1;
    assert_eq!(
        verify_inventory_file(&file, &forged).unwrap_err(),
        "tLog inventory file does not match its signed receipt"
    );
}

fn inspections(config: &TransactionSystemRecoveryCurveConfig, invalid_set: Option<u16>) -> Vec<InventoryInspection> {
    prepare_inventories(config)
        .unwrap()
        .into_iter()
        .map(|assignment| {
            let (file, receipt) =
                write_inventory(config.seed, assignment.log_set_id, assignment.node_id, assignment.record_count)
                    .unwrap();
            let file_check = verify_inventory_file(&file, &receipt);
            InventoryInspection {
                receipt_bytes: 100,
                signature_valid: invalid_set != Some(receipt.log_set_id),
                receipt,
                file_check,
            }
        })
        .collect()
}

#[test]
fn recovery_takes_the_quorum_prefix_of_every_set() {
    let config = small_config();
    let correct = TransactionSystemRecoveryCurveMode::Correct;
    let observation = inspect_inventories(&config, correct, &inspections(&config, None)).unwrap();
    assert_eq!(observation.recovered_boundary, 16);
    assert_eq!(observation.authenticated_receipts, 6);
    assert_eq!(observation.records_examined, 92);
    assert_eq!(observation.bytes_examined, 600 + 92 * 40);
    assert_eq!(observation.work_units, 98);
    assert!(observation.required_sets_authenticated);

    let trust_one = TransactionSystemRecoveryCurveMode::TrustOneTlogSet;
    let partial = inspect_inventories(&config, trust_one, &inspections(&config, Some(2))).unwrap();
    assert_eq!(partial.authenticated_receipts, 3);
    assert_eq!(partial.records_examined, 46);
    assert_eq!(partial.bytes_examined, 600 + 46 * 40);
    assert!(!partial.required_sets_authenticated);
    assert_eq!(
        inspect_inventories(&config, correct, &inspections(&config, Some(2))).unwrap_err(),
        "tLog inventory receipt signature is invalid"
    );

    let quadratic = TransactionSystemRecoveryCurveMode::QuadraticInventoryScan;
    let scanned = inspect_inventories(&config, quadratic, &inspections(&config, None)).unwrap();
    assert_eq!(scanned.work_units, 98 + 16 * 17 / 2);

    let lagging = TransactionSystemRecoveryCurveConfig { tlog_nodes_per_set: 2, ..small_config() };
    let lagged = inspect_inventories(&lagging, correct, &inspections(&lagging, None)).unwrap();
    assert_eq!(lagged.recovered_boundary, 14);
}

#[test]
fn receipt_and_verdict_name_the_first_failed_check() {
    let config = small_config();
    let correct = TransactionSystemRecoveryCurveMode::Correct;
    let observation = inspect_inventories(&config, correct, &inspections(&config, None)).unwrap();
    let receipt = recovery_receipt(&config, correct, &observation, 8, 0);
    assert_eq!(receipt.old_issued_high_watermark, 20);
    assert_eq!(receipt.pending_work_units, 4);
    assert!(receipt.recovered_boundary_is_maximal_contiguous_quorum_prefix);
    assert!(receipt.all_declared_successor_roles_recruited_before_resume);
    assert!(receipt.inventory_scan_is_linear);
    let verdict = recovery_curve_verdict(correct, &receipt, true, true);
    assert_eq!(verdict.anomaly_count, 0);
    assert_eq!(verdict.first_mismatch, None);
    assert!(!verdict.negative_control_detected);

    let scan = TransactionSystemRecoveryCurveMode::ScanPermanentDatabase;
    let scanned = recovery_receipt(&config, scan, &observation, 8, 4_096);
    let verdict = recovery_curve_verdict(scan, &scanned, true, true);
    assert_eq!(verdict.anomaly_count, 1);
    assert_eq!(verdict.first_mismatch.as_deref(), Some("zero_permanent_database_reads"));
    assert!(verdict.negative_control_detected);

    let early = TransactionSystemRecoveryCurveMode::ResumeBeforeRoleRecruitment;
    let resumed = recovery_receipt(&config, early, &observation, 8, 0);
    assert!(!resumed.all_declared_successor_roles_recruited_before_resume);
    let verdict = recovery_curve_verdict(early, &resumed, false, true);
    assert_eq!(verdict.anomaly_count, 2);
    assert_eq!(verdict.first_mismatch.as_deref(), Some("exact_untimed_receipts"));
}
