use okv_eval::digest::sha256_hex;
use okv_eval::object_fixture::{
    check_authority_stats, check_manifest_anchor, check_retained_stream,
    accept_fixture_placement_locator, base_value, content_key, encode_tail, point_command, tail_value,
    ResidentImageDescriptorV1, descriptor_key, deterministic_value, key_bytes,
    logical_image_sha256, tail_commands, tail_sha256, valid_bucket, valid_prefix, valid_sha256, validate_descriptor,
    validate_subject_roots, validate_tail, BuiltFixture, FixtureManifestIdentityV1, FixturePlacementLocatorV1,
    LogicalOutcome, ObjectFixtureDescriptorV1, ObjectFixtureLocatorV1, ObjectFixtureMode, ObjectFixtureProfile,
};
use okv_eval::transaction::{KeyRange, Mutation, RetainedTransactionRecord};

fn content_sha256(bytes: &[u8]) -> String {
    sha256_hex(bytes)
}

fn descriptor() -> ObjectFixtureDescriptorV1 {
    ObjectFixtureDescriptorV1 {
        schema_version: 1,
        generator_version: 1,
        seed: 7,
        key_count: 4,
        value_bytes: 8,
        logical_bytes: 32,
        logical_key_value_sha256: content_sha256(b"logical"),
        base_version: 2,
        row_object_format_version: 1,
        target_object_bytes: 65_536,
        target_block_bytes: 4_096,
        manifest: FixtureManifestIdentityV1 {
            key: format!("fixtures/single-range/v1/blobs/sha256/{}", content_sha256(b"manifest")),
            length: 42,
            sha256: content_sha256(b"manifest"),
        },
        closure_sha256: content_sha256(b"closure"),
        object_count: 3,
        object_bytes: 128,
    }
}

fn placement_locator() -> FixturePlacementLocatorV1 {
    let descriptor = descriptor();
    let mut locator = FixturePlacementLocatorV1 {
        schema_version: 1,
        fixture: ObjectFixtureLocatorV1 {
            fixture_id: descriptor.fixture_id(),
            descriptor_length: 777,
            descriptor_sha256: content_sha256(b"descriptor"),
        },
        base_version: 2,
        provider: "gcs".to_owned(),
        bucket: "doss-objectkv-dev-okv-evals".to_owned(),
        prefix: "runs/rfc0044-t27-fixture-v1".to_owned(),
        descriptor_key: String::new(),
        descriptor_generation: "1788000691000000".to_owned(),
        fixture_seed: 4244,
        key_count: 1_048_576,
        value_bytes: 1_024,
        logical_bytes: 1_073_741_824,
        generator_version: 1,
        row_object_format_version: 1,
        target_object_bytes: 8_388_608,
        target_block_bytes: 65_536,
        source_sha256: content_sha256(b"source"),
        suite_sha256: content_sha256(b"suite"),
        binary_sha256: content_sha256(b"binary"),
        cargo_lock_sha256: content_sha256(b"lockfile"),
        envelope_sha256: String::new(),
    };
    locator.descriptor_key = format!("fixtures/single-range/v1/descriptors/{}.json", locator.fixture.fixture_id);
    locator.envelope_sha256 = locator.calculated_envelope_sha256();
    locator
}

#[test]
fn fixture_identity_is_deterministic_and_field_sensitive() {
    let first = descriptor();
    let mut changed = first.clone();
    changed.target_block_bytes = changed.target_block_bytes.saturating_mul(2);
    assert_eq!(first.fixture_id(), first.fixture_id());
    assert_ne!(first.fixture_id(), changed.fixture_id());
}

#[test]
fn placement_locator_round_trips_with_independent_envelope_identity() {
    let locator = placement_locator();
    let decoded = accept_fixture_placement_locator(Ok(locator.clone()), &locator.envelope_sha256)
        .expect("decode exact locator");
    assert_eq!(decoded, locator);
}

#[test]
fn placement_locator_rejects_corrupt_identity_and_profile_fields() {
    let locator = placement_locator();
    let expected = locator.envelope_sha256.clone();

    let mut changed_generation = locator.clone();
    changed_generation.descriptor_generation = "1788000691000001".to_owned();
    assert!(changed_generation.validate().is_err());

    let mut changed_profile = locator.clone();
    changed_profile.logical_bytes = changed_profile.logical_bytes.saturating_sub(1);
    changed_profile.envelope_sha256 = changed_profile.calculated_envelope_sha256();
    assert!(changed_profile.validate().is_err());

    assert!(accept_fixture_placement_locator(Ok(locator.clone()), &content_sha256(b"wrong")).is_err());
    assert!(accept_fixture_placement_locator(Ok(locator), &expected).is_ok());
}

#[test]
fn placement_locator_rejects_unsafe_or_unbound_placement() {
    let locator = placement_locator();
    let mutators: [fn(&mut FixturePlacementLocatorV1); 4] = [
        |value: &mut FixturePlacementLocatorV1| value.prefix = "../escape".to_owned(),
        |value: &mut FixturePlacementLocatorV1| value.bucket = "Bad Bucket".to_owned(),
        |value: &mut FixturePlacementLocatorV1| value.descriptor_generation.clear(),
        |value: &mut FixturePlacementLocatorV1| value.envelope_sha256.clear(),
    ];
    for mutate in mutators {
        let mut changed = locator.clone();
        mutate(&mut changed);
        assert!(changed.validate().is_err());
    }
}

#[test]
fn logical_image_distinguishes_value_tombstone_and_absence() {
    let mut image = vec![
        (b"a".to_vec(), LogicalOutcome::Value(b"v".to_vec())),
        (b"b".to_vec(), LogicalOutcome::Tombstone),
        (b"c".to_vec(), LogicalOutcome::Absent),
    ];
    let first = logical_image_sha256(&image);
    image[1].1 = LogicalOutcome::Absent;
    assert_ne!(first, logical_image_sha256(&image));
}

#[test]
fn accepting_a_locator_checks_the_expected_digest_first() {
    let locator = placement_locator();
    assert_eq!(
        accept_fixture_placement_locator(Ok(locator.clone()), "not-a-digest"),
        Err("expected fixture locator envelope SHA-256 is invalid".to_owned())
    );
    assert_eq!(
        accept_fixture_placement_locator(Err("bad json".to_owned()), &locator.envelope_sha256),
        Err("bad json".to_owned())
    );
    let other = content_sha256(b"other");
    assert_eq!(
        accept_fixture_placement_locator(Ok(locator), &other),
        Err("fixture locator envelope identity mismatch".to_owned())
    );
}

#[test]
fn descriptor_validation_binds_anchor_manifest_and_digests() {
    let d = descriptor();
    assert!(validate_descriptor(&d, 2).is_ok());
    assert_eq!(validate_descriptor(&d, 3), Err("invalid RFC-0044 fixture descriptor".to_owned()));
    let mut wrong_key = d.clone();
    wrong_key.manifest.key = "elsewhere".to_owned();
    assert!(validate_descriptor(&wrong_key, 2).is_err());
    let mut upper = d;
    upper.closure_sha256 = upper.closure_sha256.to_uppercase();
    assert!(validate_descriptor(&upper, 2).is_err());
}

#[test]
fn names_and_keys_follow_the_fixture_layout() {
    assert_eq!(ObjectFixtureMode::Candidate.id(), "candidate");
    assert_eq!(ObjectFixtureMode::SharedMutableImagePoison.id(), "shared_mutable_image_poison");
    assert_eq!(content_key("ab"), "fixtures/single-range/v1/blobs/sha256/ab");
    assert_eq!(descriptor_key("ab"), "fixtures/single-range/v1/descriptors/ab.json");
    assert!(valid_sha256(&content_sha256(b"x")));
    assert!(!valid_sha256("abc"));
    assert!(valid_bucket("a.b-c_d"));
    assert!(!valid_bucket(".ab"));
    assert!(!valid_bucket("ab"));
    assert!(valid_prefix("runs/a/b"));
    assert!(!valid_prefix("runs//a"));
    assert!(!valid_prefix("runs/./a"));
    assert!(!valid_prefix("s3://bucket"));
    assert!(!valid_prefix("/runs"));
    assert!(valid_prefix("runs/.hidden/a"));
    assert_eq!(key_bytes(258), vec![0, 0, 0, 0, 0, 0, 1, 2]);
    assert!(validate_subject_roots("/a", "/b").is_ok());
    assert!(validate_subject_roots("/a", "/a").is_err());
}

#[test]
fn profile_validation_requires_a_real_fixture_shape() {
    let profile = ObjectFixtureProfile { key_count: 17, value_bytes: 8, target_object_bytes: 4_096, target_block_bytes: 4_096 };
    assert!(profile.validate().is_ok());
    let small = ObjectFixtureProfile { key_count: 16, ..profile.clone() };
    assert!(small.validate().is_err());
    let tiny_blocks = ObjectFixtureProfile { target_block_bytes: 1_024, ..profile };
    assert!(tiny_blocks.validate().is_err());
}

#[test]
fn fixture_values_are_deterministic_and_domain_separated() {
    let a = deterministic_value(7, b"base", 70);
    assert_eq!(a.len(), 70);
    assert_eq!(a, deterministic_value(7, b"base", 70));
    assert_eq!(&a[..32], &deterministic_value(7, b"base", 32)[..]);
    assert_ne!(a, deterministic_value(7, b"tail", 70));
    assert_ne!(base_value(7, 1, 16), base_value(7, 2, 16));
}

#[test]
fn tail_commands_cover_updates_clears_inserts_and_a_range() {
    let profile = ObjectFixtureProfile { key_count: 17, value_bytes: 8, target_object_bytes: 4_096, target_block_bytes: 4_096 };
    let commands = tail_commands(7, &profile, 2);
    assert_eq!(commands.len(), 7);
    assert!(commands.iter().all(|c| c.read_version == 2 && c.write_conflicts.len() == 1));
    assert!(matches!(&commands[1].mutations[0], Mutation::Clear { key } if key == &key_bytes(3)));
    assert!(matches!(&commands[2].mutations[0], Mutation::SetValue { key, .. } if key == &key_bytes(18)));
    assert!(matches!(&commands[6].mutations[0], Mutation::ClearRange { range } if range.start == key_bytes(10)));

    let records: Vec<RetainedTransactionRecord> = commands
        .into_iter()
        .enumerate()
        .map(|(i, command)| RetainedTransactionRecord { commit_version: 3 + i as u64, batch_order: 0, command })
        .collect();
    let digest = tail_sha256(&records).expect("valid tail");
    assert!(validate_tail(&digest, &records).is_ok());
    assert!(validate_tail(&content_sha256(b"x"), &records).is_err());
    let mut reordered = records.clone();
    reordered.swap(0, 1);
    assert!(validate_tail(&digest, &reordered).is_err());
    let mut broken = records.clone();
    broken[6].command.write_conflicts[0] = KeyRange { start: key_bytes(14), end: key_bytes(10) };
    assert_eq!(tail_sha256(&broken), Err("fixture tail contains an invalid key range".to_owned()));
    assert!(validate_tail(&digest, &records[..6].to_vec()).is_err());
}

#[test]
fn built_fixture_locator_records_the_descriptor_identity() {
    let built = BuiltFixture {
        descriptor: descriptor(),
        fixture_id: "id".to_owned(),
        descriptor_sha256: "sha".to_owned(),
        descriptor_bytes: vec![1, 2, 3],
        reused: false,
    };
    let locator = built.locator();
    assert_eq!(locator.fixture_id, "id");
    assert_eq!(locator.descriptor_length, 3);
    assert_eq!(locator.descriptor_sha256, "sha");
}

#[test]
fn fixture_values_match_their_reference_digests() {
    assert_eq!(
        deterministic_value(7, b"dom", 40),
        hex("d83d289d7aa9320f077915c1cdf21e4a334b107faf726b53bc1970e8249e2e8f8dc4b4cbcf63af4b")
    );
    assert_eq!(tail_value(7, b"dom", 8), hex("0a2cb1340933daee"));
    assert!(deterministic_value(7, b"dom", 0).is_empty());
}

fn hex(text: &str) -> Vec<u8> {
    (0..text.len()).step_by(2).map(|i| u8::from_str_radix(&text[i..i + 2], 16).unwrap()).collect()
}

#[test]
fn resident_image_identity_is_the_digest_of_its_frozen_encoding() {
    let descriptor = ResidentImageDescriptorV1 {
        schema_version: 1,
        fixture_id: "fid".to_owned(),
        tail_sha256: "tail".to_owned(),
        subject: "native".to_owned(),
        engine_provider: "rocksdb".to_owned(),
        engine_format_version: 3,
        options_sha256: "opts".to_owned(),
        applied_through: 40,
        record_count: 4,
        resident_logical_sha256: "logical".to_owned(),
    };
    assert_eq!(
        descriptor.resident_image_id(),
        "01ee025e866e6d5e472f9c98600615d4063385a7117c6be6e9cbf53d221eb872"
    );
    let control = ResidentImageDescriptorV1 { subject: "control".to_owned(), ..descriptor.clone() };
    assert_ne!(control.resident_image_id(), descriptor.resident_image_id());
}

#[test]
fn tail_encoding_is_frozen() {
    let command = point_command(4, 1, Mutation::SetValue { key: key_bytes(1), value: b"ab".to_vec() });
    assert_eq!(command.read_version, 4);
    assert!(command.read_conflicts.is_empty());
    assert_eq!(command.write_conflicts, vec![KeyRange::point(&key_bytes(1))]);
    let records = vec![RetainedTransactionRecord { commit_version: 5, batch_order: 2, command }];
    let expected = hex(&[
        "4f4b564654310000000000000001000000000000000500020000000000000004000000000000000000000000000000010000",
        "000000000008000000000000000100000000000000090000000000000001000000000000000001010000000000000008000000",
        "000000000100000000000000026162",
    ]
    .concat());
    assert_eq!(encode_tail(&records), Some(expected));
    assert_eq!(
        tail_sha256(&records),
        Ok("9eb67914c32c6564d6f55a2004920dd27bd099d82c36bf76df13b02dfd09a841".to_owned())
    );
    let mut inverted = records.clone();
    inverted[0].command.write_conflicts[0] = KeyRange { start: key_bytes(2), end: key_bytes(1) };
    assert_eq!(encode_tail(&inverted), None);
}

#[test]
fn fixture_authority_checks_refuse_mismatched_streams() {
    assert_eq!(check_retained_stream(true, 8), Ok(()));
    assert_eq!(
        check_retained_stream(false, 8).unwrap_err(),
        "fixture authority retained stream has the wrong record count"
    );
    assert!(check_retained_stream(true, 7).is_err());
    assert_eq!(check_authority_stats(42, 8, 42, 8), Ok(()));
    assert_eq!(
        check_authority_stats(41, 8, 42, 8).unwrap_err(),
        "fixture authority storage stats disagree with the retained stream"
    );
    assert!(check_authority_stats(42, 9, 42, 8).is_err());
    assert_eq!(check_manifest_anchor(7, 16, 16), Ok(()));
    assert_eq!(
        check_manifest_anchor(8, 16, 16).unwrap_err(),
        "fixture manifest generation or base version mismatch"
    );
    assert!(check_manifest_anchor(7, 15, 16).is_err());
}
