use okv_eval::config::Direction;
use okv_eval::program::{
    checkpoint_surface, collect_dependency_artifacts, find_comparison_gate, find_metric, find_profile,
    find_workload, require_text, resolve_lane, resolve_target, validate_control_compatibility,
    validate_control, validate_gate, validate_program, validate_scenario, validate_scenario_coverage, EvalProgram,
    EvalScenario, GateSuites, LaneOutline, LoadedProgram, ProgramControl, ProgramError, ProgramFiles, ProgramGate,
    ProgramGateKind, ProgramGateStatus, ProgramPhase, ScenarioCheckpoint, ScenarioSurface, SuiteLoad, SuiteOutline,
    WorkloadOutline,
};

fn strings(values: &[&str]) -> Vec<String> {
    values.iter().map(|v| v.to_string()).collect()
}

fn checkpoint(id: &str, surface: &str, depends_on: &[&str], inputs: &[&str], outputs: &[&str]) -> ScenarioCheckpoint {
    ScenarioCheckpoint {
        id: id.to_owned(),
        name: format!("{id} name"),
        surface: surface.to_owned(),
        objective: format!("{id} objective"),
        depends_on: strings(depends_on),
        inputs: strings(inputs),
        outputs: strings(outputs),
    }
}

fn surface(id: &str) -> ScenarioSurface {
    ScenarioSurface { id: id.to_owned(), name: format!("{id} name"), question: format!("{id}?") }
}

fn scenario() -> EvalScenario {
    EvalScenario {
        schema_version: 1,
        id: "playground".to_owned(),
        description: "a walk".to_owned(),
        generator: "gen".to_owned(),
        seeds: vec![1, 2],
        initial_artifacts: strings(&["seed-data"]),
        surfaces: vec![surface("write"), surface("read")],
        checkpoints: vec![
            checkpoint("load", "write", &[], &["seed-data"], &["table"]),
            checkpoint("index", "write", &["load"], &["table"], &["index"]),
            checkpoint("query", "read", &["index"], &["table", "index"], &["answer"]),
        ],
    }
}

#[test]
fn a_consistent_scenario_has_no_errors() {
    let mut errors = Vec::new();
    validate_scenario(&scenario(), &mut errors);
    assert!(errors.is_empty(), "{errors:?}");
}

#[test]
fn transitive_dependencies_make_their_outputs_available() {
    let s = scenario();
    let produced = vec![
        ("table".to_owned(), "load".to_owned()),
        ("index".to_owned(), "index".to_owned()),
    ];
    let mut available = collect_dependency_artifacts(&s, 2, &produced);
    available.sort();
    available.dedup();
    assert_eq!(available, strings(&["index", "table"]));
    assert!(collect_dependency_artifacts(&s, 0, &produced).is_empty());
}

#[test]
fn scenario_errors_come_in_order() {
    let mut s = scenario();
    s.schema_version = 2;
    s.seeds = vec![3, 3];
    s.surfaces.push(surface("write"));
    s.surfaces.push(surface("unused"));
    s.checkpoints.push(checkpoint("late", "nowhere", &["ghost"], &["secret"], &["table", "seed-data"]));
    let mut errors = Vec::new();
    validate_scenario(&s, &mut errors);
    assert_eq!(
        errors,
        strings(&[
            "unsupported scenario schema version 2",
            "scenario playground repeats seed 3",
            "duplicate scenario surface write",
            "checkpoint late references unknown surface nowhere",
            "checkpoint late dependency ghost must name an earlier checkpoint",
            "checkpoint late input secret is not produced by its dependencies",
            "artifact table is produced by both load and late",
            "checkpoint late output seed-data duplicates an initial artifact",
            "scenario surface unused has no checkpoint",
        ])
    );
}

#[test]
fn require_text_rejects_blank_values() {
    let mut errors = Vec::new();
    require_text("scenario id", "  ", &mut errors);
    require_text("scenario id", "x", &mut errors);
    assert_eq!(errors, strings(&["scenario id must not be empty"]));
    require_text("name", "\t\u{3000}\u{2028} ", &mut errors);
    require_text("name", "\u{200b}", &mut errors);
    require_text("name", "", &mut errors);
    assert_eq!(
        errors,
        strings(&["scenario id must not be empty", "name must not be empty", "name must not be empty"])
    );
}

#[test]
fn coverage_requires_every_checkpoint_in_dependency_order() {
    let s = scenario();
    let phases = vec![("query".to_owned(), 0), ("index".to_owned(), 1), ("query".to_owned(), 5)];
    let mut errors = Vec::new();
    validate_scenario_coverage(&s, &phases, &mut errors);
    assert_eq!(
        errors,
        strings(&[
            "scenario checkpoint load is not covered by a program gate",
            "checkpoint query is gated before dependency index",
        ])
    );
}

fn suite() -> SuiteOutline {
    SuiteOutline {
        id: "suite-a".to_owned(),
        profiles: vec![("dev".to_owned(), 3), ("gcp".to_owned(), 7)],
        workloads: vec![
            WorkloadOutline { id: "point-read".to_owned(), lane: "read".to_owned(), negative_control: false },
            WorkloadOutline { id: "poison".to_owned(), lane: "read".to_owned(), negative_control: true },
        ],
        lanes: vec![LaneOutline {
            id: "read".to_owned(),
            primary_metric: "operation.duration".to_owned(),
            statistic: "median".to_owned(),
            direction: Direction::Lower,
        }],
        metrics: vec![("operation.duration".to_owned(), "okv.operation.duration".to_owned())],
    }
}

fn gate(id: &str, kind: ProgramGateKind) -> ProgramGate {
    ProgramGate {
        id: id.to_owned(),
        status: ProgramGateStatus::Evaluating,
        kind,
        claim: "claim".to_owned(),
        falsifier: "falsifier".to_owned(),
        requirement_ids: strings(&["R1"]),
        suite: "suite-a.toml".to_owned(),
        profile: "dev".to_owned(),
        workload: "point-read".to_owned(),
        backend: "objectkv".to_owned(),
        lane: "read".to_owned(),
        checkpoint: Some("load".to_owned()),
        negative_controls: vec![],
        evidence: vec![],
        control: None,
    }
}

fn control() -> ProgramControl {
    ProgramControl {
        id: "direct".to_owned(),
        suite: "suite-a.toml".to_owned(),
        profile: "dev".to_owned(),
        workload: "point-read".to_owned(),
        backend: "rocksdb".to_owned(),
        lane: "read".to_owned(),
    }
}

#[test]
fn gate_validation_reports_fields_suite_and_control() {
    let mut g = gate("g1", ProgramGateKind::Performance);
    g.requirement_ids = strings(&["R1", "R1", "R9"]);
    g.negative_controls = strings(&["point-read", "missing"]);
    g.control = Some(control());
    let suites = GateSuites { gate: SuiteLoad::Loaded(suite()), control: Some(SuiteLoad::Loaded(suite())) };
    let mut gate_ids = strings(&["g1"]);
    let mut errors = Vec::new();
    validate_gate(&g, "p1", "| R1 | first |", &mut gate_ids, &suites, &mut errors);
    assert_eq!(gate_ids, strings(&["g1"]));
    assert_eq!(
        errors,
        strings(&[
            "duplicate gate id g1",
            "gate g1 repeats requirement R1",
            "gate g1 references requirement R9 absent from the spec",
            "gate g1 negative control point-read is not marked negative_control",
            "gate g1 references negative control missing absent from suite suite-a",
            "evaluating performance gate g1 candidate profile dev has 3 repeats; at least 5 are required",
            "evaluating performance gate g1 control profile dev has 3 repeats; at least 5 are required",
        ])
    );
}

#[test]
fn comparison_gates_need_a_control() {
    let g = gate("g2", ProgramGateKind::Economics);
    let suites = GateSuites { gate: SuiteLoad::Loaded(suite()), control: None };
    let mut gate_ids = Vec::new();
    let mut errors = Vec::new();
    validate_gate(&g, "p1", "| R1 |", &mut gate_ids, &suites, &mut errors);
    assert_eq!(errors, strings(&["Economics gate g2 must name a paired control"]));
    assert_eq!(gate_ids, strings(&["g2"]));
}

#[test]
fn control_suite_failures_are_reported() {
    let mut errors = Vec::new();
    let load = SuiteLoad::Failed { path: "x.toml".to_owned(), error: "missing".to_owned() };
    validate_control(&control(), &load, &mut errors);
    assert_eq!(errors, strings(&["control direct suite x.toml is invalid: missing"]));
    let mut wrong = control();
    wrong.workload = "absent".to_owned();
    wrong.lane = "write".to_owned();
    let mut errors = Vec::new();
    validate_control(&wrong, &SuiteLoad::Loaded(suite()), &mut errors);
    assert_eq!(
        errors,
        strings(&[
            "control direct references workload absent absent from suite suite-a",
            "control direct references lane write absent from suite suite-a",
        ])
    );
}

#[test]
fn planning_resolves_lane_profile_and_metric_in_order() {
    let s = suite();
    let ok = resolve_target("gate g1", "read", "gcp", &s, &Ok("hash".to_owned())).expect("resolved");
    assert_eq!((ok.lane, ok.profile, ok.metric, ok.suite_hash.as_str()), (0, 1, 0, "hash"));
    let missing = resolve_target("gate g1", "write", "nope", &s, &Ok("hash".to_owned()));
    assert_eq!(missing, Err(ProgramError::Invalid(strings(&["gate g1 references missing lane write"]))));
    let unhashed = resolve_target("control c", "read", "dev", &s, &Err("unreadable".to_owned()));
    assert_eq!(unhashed, Err(ProgramError::Invalid(strings(&["control c cannot hash suite contract: unreadable"]))));
    assert_eq!(checkpoint_surface(&Some(scenario()), &Some("query".to_owned())), Some("read".to_owned()));
    assert_eq!(checkpoint_surface(&Some(scenario()), &Some("nope".to_owned())), None);
    assert_eq!(checkpoint_surface(&None, &Some("query".to_owned())), None);
}

fn program(phases: Vec<ProgramPhase>) -> LoadedProgram {
    LoadedProgram {
        program_path: "programs/p.toml".to_owned(),
        program: EvalProgram {
            schema_version: 1,
            id: "thesis".to_owned(),
            status: ProgramGateStatus::Proposed,
            spec: "requirements.md".to_owned(),
            decision_log: "log.md".to_owned(),
            comparison_schema: "schema.json".to_owned(),
            scenario: Some("s.toml".to_owned()),
            phases,
        },
        spec_path: "programs/requirements.md".to_owned(),
        decision_log_path: "programs/log.md".to_owned(),
        comparison_schema_path: "programs/schema.json".to_owned(),
        scenario_path: Some("programs/s.toml".to_owned()),
        scenario: Some(scenario()),
    }
}

fn phase(id: &str, depends_on: &[&str], gates: Vec<ProgramGate>) -> ProgramPhase {
    ProgramPhase {
        id: id.to_owned(),
        name: format!("{id} name"),
        objective: format!("{id} objective"),
        depends_on: strings(depends_on),
        gates,
    }
}

#[test]
fn program_validation_walks_phases_gates_and_coverage() {
    let mut g1 = gate("g1", ProgramGateKind::Operational);
    g1.checkpoint = Some("index".to_owned());
    let mut g2 = gate("g2", ProgramGateKind::Operational);
    g2.checkpoint = Some("load".to_owned());
    let mut g3 = gate("g3", ProgramGateKind::Operational);
    g3.checkpoint = Some("query".to_owned());
    let loaded = program(vec![phase("p1", &["p2"], vec![g1]), phase("p2", &["p1"], vec![g2, g3])]);
    let files = ProgramFiles {
        spec_exists: true,
        decision_log_exists: false,
        comparison_schema_exists: true,
        spec_text: "| R1 |".to_owned(),
    };
    let loads = || GateSuites { gate: SuiteLoad::Loaded(suite()), control: None };
    let suites = vec![vec![loads()], vec![loads(), loads()]];
    let errors = validate_program(&loaded, &files, &suites);
    assert_eq!(
        errors,
        strings(&[
            "program decision log does not exist: programs/log.md",
            "phase p1 dependency p2 must name an earlier phase",
            "checkpoint index is gated before dependency load",
        ])
    );
    let found = find_comparison_gate(&loaded.program.phases, "g3");
    assert_eq!(found, Err("gate g3 is not a performance or economics comparison".to_owned()));
    assert_eq!(find_comparison_gate(&loaded.program.phases, "zz"), Err("program has no gate zz".to_owned()));
}

#[test]
fn comparison_gate_is_found_by_id() {
    let mut g = gate("perf", ProgramGateKind::Performance);
    g.control = Some(control());
    let loaded = program(vec![phase("p1", &[], vec![gate("a", ProgramGateKind::Operational)]), phase("p2", &[], vec![g])]);
    assert_eq!(find_comparison_gate(&loaded.program.phases, "perf"), Ok((1, 0)));
}

#[test]
fn suite_lookups_return_the_first_match() {
    let mut s = suite();
    s.profiles.push(("dev".to_owned(), 9));
    assert_eq!(find_profile(&s, "dev"), Some(0));
    assert_eq!(find_profile(&s, "gcp"), Some(1));
    assert_eq!(find_profile(&s, "ci"), None);
    assert_eq!(find_workload(&s, "poison"), Some(1));
    assert_eq!(find_workload(&s, "scan"), None);
    assert_eq!(resolve_lane(&s, "read"), Some(0));
    assert_eq!(resolve_lane(&s, "write"), None);
    assert_eq!(find_metric(&s, "operation.duration"), Some(0));
    assert_eq!(find_metric(&s, "okv.operation.duration"), None);
}

#[test]
fn paired_control_must_measure_the_same_lane_shape() {
    let g = gate("g1", ProgramGateKind::Economics);
    let mut other = suite();
    other.lanes[0].primary_metric = "operation.bytes".to_owned();
    other.lanes[0].statistic = "p99".to_owned();
    other.lanes[0].direction = Direction::Higher;
    let mut errors = Vec::new();
    validate_control_compatibility(&g, &control(), &SuiteLoad::Loaded(suite()), &SuiteLoad::Loaded(other), &mut errors);
    assert_eq!(
        errors,
        strings(&[
            "gate g1 and control direct use different primary metrics: operation.duration versus operation.bytes",
            "gate g1 and control direct use different statistics: median versus p99",
            "gate g1 and control direct use different metric directions",
        ])
    );
    let mut errors = Vec::new();
    validate_control_compatibility(&g, &control(), &SuiteLoad::Loaded(suite()), &SuiteLoad::Loaded(suite()), &mut errors);
    assert!(errors.is_empty());
    let failed = SuiteLoad::Failed { path: "x.toml".to_owned(), error: "missing".to_owned() };
    validate_control_compatibility(&g, &control(), &SuiteLoad::Loaded(suite()), &failed, &mut errors);
    assert!(errors.is_empty());
}
