use okv_eval::config::{
    contract_digest, validate_lane, validate_registry, validate_telemetry, EvidenceClass as Class,
    supported_statistic, unique_ids, validate, validate_workload_selection, CardinalityPolicy, ComparisonConstraintRules,
    ConstraintRules, EvidenceClass, InstrumentKind, LaneRules, MetricOutline, ProfileOutline, RegistryOutline,
    SuiteRules, TelemetryConfig, WorkloadProfileOutline, WorkloadRules, WorkloadSelection,
};

fn strings(values: &[&str]) -> Vec<String> {
    values.iter().map(|v| v.to_string()).collect()
}

fn metric(id: &str, kind: InstrumentKind) -> MetricOutline {
    MetricOutline {
        id: id.to_owned(),
        otel_name: format!("okv.eval.{id}"),
        kind,
        unit: "s".to_owned(),
        description: format!("{id} description"),
        attributes: strings(&["operation"]),
        required_attributes: strings(&["operation"]),
        boundaries_empty: kind != InstrumentKind::Histogram,
        boundaries_ordered: true,
    }
}

fn registry() -> RegistryOutline {
    RegistryOutline {
        schema_version: 1,
        namespace: "okv.eval".to_owned(),
        cardinality: CardinalityPolicy {
            max_series_per_run: 1_000,
            banned_attributes: strings(&["key"]),
            required_resource_attributes: strings(&[
                "service.name",
                "service.version",
                "deployment.environment.name",
                "okv.eval.run.id",
                "okv.eval.batch.id",
                "okv.eval.suite.id",
                "okv.eval.suite.hash",
                "okv.eval.profile.id",
                "okv.eval.profile.hash",
                "okv.eval.candidate.commit",
                "okv.eval.backend",
            ]),
        },
        metrics: vec![
            metric("operation.duration", InstrumentKind::Histogram),
            metric("operation.throughput", InstrumentKind::Gauge),
        ],
    }
}

fn suite() -> SuiteRules {
    SuiteRules {
        schema_version: 1,
        id: "objectkv-smoke-v1".to_owned(),
        status: "proposed".to_owned(),
        result_schema_path: "schemas/result.json".to_owned(),
        result_schema_exists: true,
        contract_files: vec![("contracts/a.md".to_owned(), true)],
        telemetry: TelemetryConfig {
            protocol: "otlp-http".to_owned(),
            endpoint_env: "OTEL_EXPORTER_OTLP_ENDPOINT".to_owned(),
            required_signals: strings(&["traces", "logs", "metrics"]),
            required_for_profiles: strings(&["dev"]),
        },
        profiles: vec![ProfileOutline {
            id: "dev".to_owned(),
            budget_limit_positive: true,
            repeats: 1,
            evidence_class: EvidenceClass::Contract,
            workload_profile: None,
        }],
        datasets: strings(&["dev"]),
        lanes: vec![LaneRules {
            id: "read".to_owned(),
            primary_metric: "operation.duration".to_owned(),
            statistic: "median".to_owned(),
            practical_improvement_valid: true,
            constraints: vec![],
            comparison_constraints: vec![],
        }],
        workloads: vec![WorkloadRules {
            id: "point-read".to_owned(),
            lane: "read".to_owned(),
            operation: "get".to_owned(),
        }],
        hard_gate_count: 1,
    }
}

fn envelope() -> WorkloadProfileOutline {
    WorkloadProfileOutline {
        schema_version: 1,
        name: "point-read-pressure-v1".to_owned(),
        dataset: "dev".to_owned(),
        access_pattern: "zipf-0.99".to_owned(),
        matched_control: "direct-rocksdb".to_owned(),
        operation_mix: vec![("point_read".to_owned(), true)],
        operation_mix_sums_to_one: true,
        operation_mix_total_text: "1".to_owned(),
        concurrency: vec![1, 8, 32],
        warmup_positive: true,
        measurement_positive: true,
        failure_schedule: strings(&["none-during-measurement"]),
        resource_limits: vec![
            ("block_cache_bytes".to_owned(), 64 * 1_024 * 1_024),
            ("local_bytes".to_owned(), 1024 * 1_024 * 1_024),
        ],
        required_metrics: strings(&["operation.throughput", "operation.duration"]),
    }
}

#[test]
fn a_complete_suite_and_registry_are_valid() {
    assert_eq!(validate(&suite(), &registry()), Vec::<String>::new());
}

#[test]
fn workload_evidence_fails_closed_without_a_declared_profile() {
    let mut loaded = suite();
    loaded.profiles[0].evidence_class = EvidenceClass::Workload;
    let errors = validate(&loaded, &registry());
    assert!(errors
        .iter()
        .any(|error| error.contains("profile dev declares workload evidence without a workload_profile")));
}

#[test]
fn complete_workload_profile_is_accepted() {
    let mut loaded = suite();
    let profile = &mut loaded.profiles[0];
    profile.evidence_class = EvidenceClass::Workload;
    profile.repeats = 5;
    profile.workload_profile = Some(envelope());
    assert!(validate(&loaded, &registry()).is_empty());
}

#[test]
fn selected_workload_must_fit_hashed_distribution_and_concurrency() {
    let mut profile = suite().profiles[0].clone();
    profile.evidence_class = EvidenceClass::Workload;
    profile.workload_profile = Some(WorkloadProfileOutline { concurrency: vec![8, 32], ..envelope() });
    let declared = WorkloadSelection {
        id: "native-snapshot-concurrency-32".to_owned(),
        distribution: Some("zipf-0.99".to_owned()),
        concurrent_clients: Some(32),
    };
    let undeclared = WorkloadSelection {
        id: "native-snapshot-concurrency-1".to_owned(),
        distribution: Some("zipf-0.99".to_owned()),
        concurrent_clients: Some(1),
    };
    validate_workload_selection(&profile, &declared).expect("declared workload must run");
    let error = validate_workload_selection(&profile, &undeclared).expect_err("undeclared concurrency must fail");
    assert!(error.contains("concurrency 1 is outside declared points"));
    assert_eq!(
        error,
        "workload native-snapshot-concurrency-1 concurrency 1 is outside declared points [8, 32]"
    );
}

#[test]
fn workload_selection_requires_declared_parameters() {
    let mut profile = suite().profiles[0].clone();
    let bare = WorkloadSelection { id: "w".to_owned(), distribution: None, concurrent_clients: None };
    assert!(validate_workload_selection(&profile, &bare).is_ok());
    profile.workload_profile = Some(envelope());
    assert_eq!(
        validate_workload_selection(&profile, &bare),
        Err("workload w must declare distribution for workload evidence".to_owned())
    );
    let uniform = WorkloadSelection { distribution: Some("uniform".to_owned()), ..bare.clone() };
    assert_eq!(
        validate_workload_selection(&profile, &uniform),
        Err("workload w distribution uniform does not match workload profile zipf-0.99".to_owned())
    );
    let negative = WorkloadSelection { distribution: Some("zipf-0.99".to_owned()), concurrent_clients: Some(-1), ..bare };
    assert_eq!(
        validate_workload_selection(&profile, &negative),
        Err("workload w must declare positive concurrent_clients for workload evidence".to_owned())
    );
}

#[test]
fn suite_errors_are_reported_in_order() {
    let mut loaded = suite();
    loaded.schema_version = 2;
    loaded.status = "done".to_owned();
    loaded.telemetry.protocol = "grpc".to_owned();
    loaded.telemetry.required_for_profiles.push("ci".to_owned());
    loaded.lanes[0].statistic = "mean".to_owned();
    loaded.lanes[0].constraints.push(ConstraintRules {
        metric: "missing".to_owned(),
        statistic: "p99".to_owned(),
        value_finite: false,
    });
    let constraint = ComparisonConstraintRules {
        id: "c".to_owned(),
        candidate_metric: "a".to_owned(),
        control_metric: "b".to_owned(),
        unit: " ".to_owned(),
        max_regression_valid: true,
    };
    loaded.lanes[0].comparison_constraints = vec![constraint.clone(), constraint];
    loaded.workloads.push(WorkloadRules { id: "point-read".to_owned(), lane: "write".to_owned(), operation: "".to_owned() });
    loaded.datasets.clear();
    let mut registry = registry();
    registry.metrics[1].boundaries_empty = false;
    let errors = validate(&loaded, &registry);
    assert_eq!(
        errors,
        strings(&[
            "unsupported suite schema version 2",
            "suite status done must use the canonical proof taxonomy",
            "unsupported telemetry protocol grpc",
            "non-histogram metric operation.throughput must not define boundaries",
            "duplicate workload id point-read",
            "telemetry requires unknown profile ci",
            "lane read has unsupported statistic mean",
            "lane read constraint references unknown metric missing",
            "lane read constraint value must be finite",
            "lane read comparison constraints require non-empty id, metrics, and unit",
            "lane read repeats comparison constraint c",
            "lane read comparison constraints require non-empty id, metrics, and unit",
            "workload point-read references unknown lane write",
            "workload point-read operation must not be empty",
            "suite must define at least one dataset",
        ])
    );
}

#[test]
fn envelope_errors_name_each_missing_part() {
    let mut loaded = suite();
    let mut broken = envelope();
    broken.dataset = "gcp".to_owned();
    broken.operation_mix = vec![("".to_owned(), true), ("scan".to_owned(), false)];
    broken.operation_mix_sums_to_one = false;
    broken.operation_mix_total_text = "0.4".to_owned();
    broken.concurrency = vec![1, 1];
    broken.required_metrics = strings(&["unknown.metric"]);
    loaded.profiles[0].evidence_class = EvidenceClass::Workload;
    loaded.profiles[0].workload_profile = Some(broken);
    let errors = validate(&loaded, &registry());
    assert_eq!(
        errors,
        strings(&[
            "profile dev workload_profile references unknown dataset gcp",
            "profile dev workload_profile dataset gcp must match the runner profile id",
            "profile dev workload evidence requires at least 5 repeats",
            "profile dev workload_profile operation_mix entries require a non-empty operation and a fraction in (0, 1]",
            "profile dev workload_profile operation_mix entries require a non-empty operation and a fraction in (0, 1]",
            "profile dev workload_profile operation_mix must sum to 1.0, observed 0.4",
            "profile dev workload_profile concurrency must contain unique positive values",
            "profile dev workload_profile references unknown required metric unknown.metric",
        ])
    );
}

#[test]
fn identifiers_must_be_unique_and_non_blank() {
    let mut errors = Vec::new();
    let unique = unique_ids("lane", &strings(&["b", "a", "b", " "]), &mut errors);
    assert_eq!(unique, strings(&[" ", "a", "b"]));
    assert_eq!(errors, strings(&["duplicate lane id b", "lane id must not be empty"]));
    assert!(supported_statistic("p99"));
    assert!(!supported_statistic("mean"));
}

#[test]
fn registry_errors_follow_contract_ids_then_each_metric() {
    let mut broken = registry();
    broken.namespace = "eval".to_owned();
    broken.cardinality.max_series_per_run = 0;
    broken.cardinality.required_resource_attributes = strings(&["service.name"]);
    broken.metrics = vec![
        MetricOutline {
            id: "m1".to_owned(),
            otel_name: "other.x".to_owned(),
            kind: InstrumentKind::Histogram,
            unit: " ".to_owned(),
            description: "d".to_owned(),
            attributes: strings(&["key", "operation", "operation"]),
            required_attributes: strings(&["operation", "region"]),
            boundaries_empty: true,
            boundaries_ordered: true,
        },
        MetricOutline {
            id: "m1".to_owned(),
            otel_name: "eval.y".to_owned(),
            kind: InstrumentKind::Gauge,
            unit: "s".to_owned(),
            description: "d".to_owned(),
            attributes: Vec::new(),
            required_attributes: Vec::new(),
            boundaries_empty: true,
            boundaries_ordered: true,
        },
    ];
    let mut errors = Vec::new();
    validate_registry(&broken, &mut errors);
    assert_eq!(
        errors,
        strings(&[
            "metric namespace must start with okv.",
            "max_series_per_run must be positive",
            "required_resource_attributes must exactly match the eval runner resource contract",
            "duplicate metric id m1",
            "metric m1 name other.x is outside namespace eval",
            "metric m1 needs a unit and description",
            "duplicate metric m1 attribute id operation",
            "metric m1 required attribute region is not allowlisted",
            "metric m1 uses banned high-cardinality attribute key",
            "histogram m1 has no boundaries",
        ])
    );
    let mut none = Vec::new();
    validate_registry(&registry(), &mut none);
    assert!(none.is_empty());
}

#[test]
fn telemetry_and_lane_errors_are_appended() {
    let mut errors = vec!["earlier".to_owned()];
    let telemetry = TelemetryConfig {
        protocol: "otlp-http".to_owned(),
        endpoint_env: "  ".to_owned(),
        required_signals: strings(&["traces", "metrics"]),
        required_for_profiles: Vec::new(),
    };
    validate_telemetry(&telemetry, &mut errors);
    assert_eq!(
        errors,
        strings(&[
            "earlier",
            "telemetry endpoint_env must not be empty",
            "telemetry required_signals must contain logs, metrics, and traces",
        ])
    );
    let lane = LaneRules {
        id: "read".to_owned(),
        primary_metric: "missing".to_owned(),
        statistic: "p99".to_owned(),
        practical_improvement_valid: false,
        constraints: vec![],
        comparison_constraints: vec![],
    };
    let mut errors = Vec::new();
    validate_lane(&lane, &strings(&["operation.duration"]), &mut errors);
    assert_eq!(
        errors,
        strings(&[
            "lane read references unknown primary metric missing",
            "lane read practical improvement must be finite and non-negative",
        ])
    );
    assert_eq!(Class::default_class(), Class::Contract);
}

#[test]
fn contract_digest_frames_each_part_by_length() {
    let parts = vec![b"suite = 1".to_vec(), Vec::new(), br#"{"schema":true}"#.to_vec()];
    assert_eq!(
        contract_digest(&parts),
        "98791fdebb88e3fb96dfcfdaa20097a47bd81e549d42707a62295026906da91f"
    );
    assert_eq!(
        contract_digest(&Vec::new()),
        "e3b0c44298fc1c149afbf4c8996fb92427ae41e4649b934ca495991b7852b855"
    );
    let moved = vec![b"suite = ".to_vec(), b"1".to_vec(), br#"{"schema":true}"#.to_vec()];
    assert_ne!(contract_digest(&moved), contract_digest(&parts));
}
