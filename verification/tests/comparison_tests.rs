use okv_eval::comparison::{
    all_checks_pass, check, comparability_checks, comparison_verdict, constraint_failure_reason,
    failed_constraint_ids, failed_hard_gates, has_workload_evidence, minimum_samples, same_direction,
    ComparisonTarget, ComparisonVerdict, ResultHardGate, ResultIdentity, ResultProfile,
};
use okv_eval::config::{Direction, EvidenceClass};

fn profile(evidence_class: Option<EvidenceClass>, workload_profile_hash: Option<String>) -> ResultProfile {
    ResultProfile {
        id: "gcp-r0".to_owned(),
        hash: "profile".to_owned(),
        evidence_class,
        workload_profile_hash,
        machine: "machine".to_owned(),
        rustc: "rustc".to_owned(),
        lockfile_hash: "lockfile".to_owned(),
    }
}

#[test]
fn smoke_and_legacy_receipts_cannot_enter_performance_comparison() {
    assert!(!has_workload_evidence(&profile(Some(EvidenceClass::Smoke), Some("declared".to_owned()))));
    assert!(!has_workload_evidence(&profile(None, None)));
    assert!(has_workload_evidence(&profile(Some(EvidenceClass::Workload), Some("declared".to_owned()))));
}

#[test]
fn blank_workload_hash_is_not_evidence() {
    assert!(!has_workload_evidence(&profile(Some(EvidenceClass::Workload), Some("   ".to_owned()))));
    assert!(!has_workload_evidence(&profile(Some(EvidenceClass::Workload), None)));
}

#[test]
fn check_detail_names_observed_and_expected() {
    let result = check("candidate.suite", false, "a", "b");
    assert_eq!(result.id, "candidate.suite");
    assert!(!result.passed);
    assert_eq!(result.detail, "observed=a,expected=b");
}

#[test]
fn failed_hard_gates_lists_each_failure() {
    let gate = |id: &str, status: &str| ResultHardGate { id: id.to_owned(), status: status.to_owned() };
    assert_eq!(failed_hard_gates(&vec![gate("a", "pass"), gate("b", "pass")]), "all_pass");
    assert_eq!(
        failed_hard_gates(&vec![gate("a", "fail"), gate("b", "pass"), gate("c", "skip")]),
        "a=fail,c=skip"
    );
}

#[test]
fn performance_gates_need_five_samples() {
    assert_eq!(minimum_samples(true, 3), 5);
    assert_eq!(minimum_samples(true, 9), 9);
    assert_eq!(minimum_samples(false, 0), 1);
    assert_eq!(minimum_samples(false, 2), 2);
    assert!(same_direction(Direction::Lower, Direction::Lower));
    assert!(!same_direction(Direction::Lower, Direction::Higher));
}

#[test]
fn verdict_follows_comparability_and_effect() {
    let none: Vec<String> = vec![];
    let some = vec!["p99".to_owned()];
    assert_eq!(comparison_verdict(false, true, false, &none), ComparisonVerdict::Invalid);
    assert_eq!(comparison_verdict(true, true, false, &some), ComparisonVerdict::Better);
    assert_eq!(comparison_verdict(true, false, true, &none), ComparisonVerdict::Worse);
    assert_eq!(comparison_verdict(true, false, false, &some), ComparisonVerdict::Worse);
    assert_eq!(comparison_verdict(true, false, false, &none), ComparisonVerdict::Inconclusive);
}

#[test]
fn failed_constraints_are_named_in_order() {
    let constraints = vec![
        ("a".to_owned(), false),
        ("b".to_owned(), true),
        ("c".to_owned(), false),
    ];
    let failed = failed_constraint_ids(&constraints);
    assert_eq!(failed, vec!["a".to_owned(), "c".to_owned()]);
    assert_eq!(constraint_failure_reason(&failed), "candidate fails comparison constraints: a,c");
}

fn target(suite: &str) -> ComparisonTarget {
    ComparisonTarget {
        suite: suite.to_owned(),
        suite_hash: "suite-hash".to_owned(),
        profile: "gcp-r0".to_owned(),
        backend: "objectkv".to_owned(),
        lane: "point_read".to_owned(),
        primary_metric_otel_name: "okv.operation.duration".to_owned(),
        statistic: "median".to_owned(),
        direction: Direction::Lower,
        configured_repeats: 5,
    }
}

fn receipt(suite: &str) -> ResultIdentity {
    ResultIdentity {
        run_id: "run".to_owned(),
        batch_id: Some("batch-1".to_owned()),
        lane: "point_read".to_owned(),
        suite: suite.to_owned(),
        suite_hash: "suite-hash".to_owned(),
        profile: profile(Some(EvidenceClass::Workload), Some("declared".to_owned())),
        candidate_commit: "abc123".to_owned(),
        backend: "objectkv".to_owned(),
        seeds: vec![1, 2, 3],
        hard_gates: vec![ResultHardGate { id: "exactness".to_owned(), status: "pass".to_owned() }],
        metric_name: "okv.operation.duration".to_owned(),
        metric_unit: "s".to_owned(),
        metric_direction: Direction::Lower,
        metric_statistic: "median".to_owned(),
        sample_count: 5,
        verdict: "keep".to_owned(),
    }
}

#[test]
fn matched_receipts_are_comparable() {
    let checks = comparability_checks(&target("s"), &target("s"), true, &receipt("s"), &receipt("s"));
    assert_eq!(checks.len(), 30);
    assert!(all_checks_pass(&checks));
    assert_eq!(checks[0].id, "evidence.candidate_workload_profile");
    assert_eq!(checks[0].detail, "class=Some(Workload),profile_hash=Some(\"declared\")");
    let seeds = checks.iter().find(|c| c.id == "identity.seeds").expect("seed check");
    assert_eq!(seeds.detail, "candidate=[1, 2, 3],control=[1, 2, 3]");
    let batch = checks.iter().find(|c| c.id == "identity.batch").expect("batch check");
    assert_eq!(batch.detail, "candidate=Some(\"batch-1\"),control=Some(\"batch-1\")");
    assert_eq!(checks[29].id, "identity.profile_hash");
}

#[test]
fn mismatched_receipts_fail_the_named_checks() {
    let mut control = receipt("t");
    control.seeds = vec![1, 2];
    control.sample_count = 2;
    control.verdict = "crash".to_owned();
    control.batch_id = None;
    let checks = comparability_checks(&target("s"), &target("t"), true, &receipt("s"), &control);
    assert_eq!(checks.len(), 29);
    assert!(!all_checks_pass(&checks));
    let failed: Vec<&str> = checks.iter().filter(|c| !c.passed).map(|c| c.id.as_str()).collect();
    assert_eq!(failed, vec!["identity.batch", "identity.seeds", "control.verdict", "control.samples"]);
    let samples = checks.iter().find(|c| c.id == "control.samples").expect("samples check");
    assert_eq!(samples.detail, "observed=2,required=5");
    let batch = checks.iter().find(|c| c.id == "identity.batch").expect("batch check");
    assert_eq!(batch.detail, "candidate=Some(\"batch-1\"),control=None");
}
