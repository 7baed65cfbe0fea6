use okv_eval::locality_feasibility::{
    capacity_plan, hotset_keys, locality_receipt_digest, validate_dimensions, validate_distribution,
    LocalityDistribution, LocalityFeasibilityMode, LocalityRatioBits,
};
use okv_eval::transaction_process_contract::{
    identity, machine_topology_receipt, validate, MachineEndpoint, TransactionMachineConfig, TransactionProcessMode,
};

#[test]
fn capacity_declares_whole_points() {
    let plan = capacity_plan(4_096, 33_554_432, 8_192, 250_000, LocalityFeasibilityMode::Correct).unwrap();
    assert_eq!(plan.declared_capacity_bytes, 8_388_608);
    assert_eq!(plan.declared_capacity_keys, 1_024);
    assert!(plan.capacity_bound_held);
    let inflated = capacity_plan(4_096, 33_554_432, 8_192, 250_000, LocalityFeasibilityMode::InflateCapacity).unwrap();
    assert_eq!(inflated.modeled_resident_keys, 4_096);
    assert!(!inflated.capacity_bound_held);
    assert!(capacity_plan(4, 32, 8, 1, LocalityFeasibilityMode::Correct).is_err());
}

#[test]
fn locality_rules_reject_controls_on_the_wrong_distribution() {
    assert!(validate_dimensions(4_096, 33_554_432, 8_192, 250_000).is_ok());
    assert_eq!(validate_dimensions(4_096, 1, 8_192, 250_000).unwrap_err(), "locality logical bytes must equal key count times point bytes");
    assert!(validate_distribution(LocalityDistribution::Uniform, LocalityFeasibilityMode::IgnoreBackgroundReads).is_err());
    assert!(validate_distribution(LocalityDistribution::Zipfian { theta_milli: 0 }, LocalityFeasibilityMode::Correct).is_err());
    assert!(validate_distribution(
        LocalityDistribution::MovingHotset { hotset_fraction_ppm: 100_000, hot_read_fraction_ppm: 900_000 },
        LocalityFeasibilityMode::IgnoreBackgroundReads
    )
    .is_ok());
    assert_eq!(hotset_keys(4_096, 100_000), 410);
    assert_eq!(hotset_keys(10, 1), 1);
    assert_eq!(LocalityDistribution::Zipfian { theta_milli: 990 }.id(), "zipfian");
}

fn endpoint(last: u8) -> Result<MachineEndpoint, String> {
    Ok(MachineEndpoint { octets: vec![192, 0, 2, last], port: 32_100 })
}

fn machine_config() -> TransactionMachineConfig {
    TransactionMachineConfig {
        schema_version: 1,
        addresses: vec![(1, "192.0.2.11:32100".to_owned()), (2, "192.0.2.12:32100".to_owned()), (3, "192.0.2.13:32100".to_owned())],
        roots: vec![(1, "/srv/machine-1".to_owned()), (2, "/srv/machine-2".to_owned()), (3, "/srv/machine-3".to_owned())],
        machine_ids: vec![(1, "machine-1".to_owned()), (2, "machine-2".to_owned()), (3, "machine-3".to_owned())],
        failure_domains: vec![(1, "zone-a".to_owned()), (2, "zone-b".to_owned()), (3, "zone-c".to_owned())],
        controller_machine_id: "machine-controller".to_owned(),
        controller_failure_domain: "zone-controller".to_owned(),
        lifecycle_hook: "/srv/lifecycle-hook".to_owned(),
        hook_timeout_seconds: 300,
    }
}

#[test]
fn independent_machine_topology_rejects_false_failure_domains() {
    let parsed = vec![endpoint(11), endpoint(12), endpoint(13)];
    assert!(validate(&machine_config(), &parsed, true).is_ok());

    let loopback = vec![endpoint(11), endpoint(12), Ok(MachineEndpoint { octets: vec![127, 0, 0, 1], port: 32_100 })];
    assert!(validate(&machine_config(), &loopback, true).is_err_and(|error| error.contains("routable")));

    let mut config = machine_config();
    config.failure_domains[2].1 = "zone-b".to_owned();
    assert!(validate(&config, &parsed, true).is_err_and(|error| error.contains("failure domains")));

    let mut config = machine_config();
    config.controller_machine_id = "machine-1".to_owned();
    assert!(validate(&config, &parsed, true).is_err_and(|error| error.contains("exclude the controller")));

    let mut config = machine_config();
    config.controller_failure_domain = "zone-a".to_owned();
    assert!(validate(&config, &parsed, true).is_err_and(|error| error.contains("failure domains")));
}

#[test]
fn machine_topology_errors_follow_rule_order() {
    let parsed = vec![endpoint(11), endpoint(12), endpoint(13)];
    let mut config = machine_config();
    config.schema_version = 2;
    assert_eq!(validate(&config, &parsed, true).unwrap_err(), "unsupported transaction machine schema version 2");
    let mut config = machine_config();
    config.roots[0].0 = 4;
    assert_eq!(validate(&config, &parsed, true).unwrap_err(), "roots must contain exactly node IDs 1, 2, and 3");
    let bad = vec![endpoint(11), Err("invalid socket address syntax".to_owned()), endpoint(13)];
    assert_eq!(
        validate(&machine_config(), &bad, true).unwrap_err(),
        "invalid machine endpoint 192.0.2.12:32100: invalid socket address syntax"
    );
    let mut config = machine_config();
    config.roots[1].1 = "relative/root".to_owned();
    assert_eq!(validate(&config, &parsed, true).unwrap_err(), "machine roots must be absolute paths");
    assert_eq!(validate(&machine_config(), &parsed, false).unwrap_err(), "lifecycle hook must be an absolute existing file");
    let mut config = machine_config();
    config.hook_timeout_seconds = 901;
    assert_eq!(validate(&config, &parsed, true).unwrap_err(), "hook timeout must be between 1 and 900 seconds");
    assert_eq!(identity(0, 3).client_id, 0x4f4b_5654_584e_5031);
    assert_eq!(TransactionProcessMode::PartialApply.id(), "partial_apply");
}

#[test]
fn independent_machine_topology_is_canonical_and_exact() {
    let parsed = vec![endpoint(11), endpoint(12), endpoint(13)];
    let hook = Ok(b"#!/bin/sh\nexit 0\n".to_vec());
    let json = Ok(br#"{"schema_version":1}"#.to_vec());
    let first = machine_topology_receipt(&machine_config(), &parsed, true, &hook, &json).expect("valid topology");
    let second = machine_topology_receipt(&machine_config(), &parsed, true, &hook, &json).expect("repeat topology");
    assert_eq!(first.topology_sha256, second.topology_sha256);
    assert_eq!(first.lifecycle_hook_sha256, second.lifecycle_hook_sha256);
    assert_eq!(first.lifecycle_hook_sha256, "306c6ca7407560340797866e077e053627ad409277d1b9da58106fce4cf717cb");
    assert_eq!(first.topology_sha256, "92825053b7f3ef67f96eb98ff7560412a544e10bfb218d16dee7764e7dd60dc0");

    let unreadable = Err("failed to read lifecycle hook /srv/lifecycle-hook: missing".to_owned());
    assert_eq!(
        machine_topology_receipt(&machine_config(), &parsed, true, &unreadable, &json).unwrap_err(),
        "failed to read lifecycle hook /srv/lifecycle-hook: missing"
    );
    assert_eq!(
        machine_topology_receipt(&machine_config(), &parsed, true, &hook, &Err("unencodable".to_owned())).unwrap_err(),
        "unencodable"
    );
    let mut config = machine_config();
    config.hook_timeout_seconds = 0;
    assert_eq!(
        machine_topology_receipt(&config, &parsed, true, &unreadable, &json).unwrap_err(),
        "hook timeout must be between 1 and 900 seconds"
    );
}

#[test]
fn locality_receipt_digest_covers_the_plan_and_ratio_bits() {
    let plan = capacity_plan(4_096, 33_554_432, 8_192, 250_000, LocalityFeasibilityMode::Correct).unwrap();
    let distribution = LocalityDistribution::MovingHotset { hotset_fraction_ppm: 50_000, hot_read_fraction_ppm: 800_000 };
    let ratios = LocalityRatioBits {
        probability_mass: 1.0f64.to_bits(),
        closed_form_hit_ratio: 0.5f64.to_bits(),
        enumerated_hit_ratio: 0.5f64.to_bits(),
        target_provider_miss_ratio: 0.25f64.to_bits(),
    };
    let digest = locality_receipt_digest(
        4_096, 33_554_432, 8_192, 250_000, distribution, LocalityFeasibilityMode::Correct, &plan, &ratios,
    );
    assert_eq!(digest, "736c330cb27ab86bddf0c51e6b104823d8685a043f01adf786234deaad55f2f4");
    let other = locality_receipt_digest(
        4_096, 33_554_432, 8_192, 250_000, LocalityDistribution::Uniform, LocalityFeasibilityMode::Correct, &plan, &ratios,
    );
    assert_ne!(digest, other);
    assert_eq!(other.len(), 64);
}
