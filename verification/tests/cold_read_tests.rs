use okv_eval::cold_read::{
    key_bytes, locate, operation_keys, percentile, serving_admits, splitmix64, validate_profile,
    validate_value, value_bytes, ColdReadMode, ColdReadProfile, SegmentRange, XorShift64,
};

fn smoke_profile() -> ColdReadProfile {
    ColdReadProfile {
        key_count: 1_024,
        value_bytes: 128,
        operations_per_repeat: 100,
        repeats: 2,
        seeds: vec![1_103, 2_207],
        target_object_bytes: 16_384,
        target_block_bytes: 4_096,
    }
}

#[test]
fn cold_read_profile_bounds() {
    assert!(validate_profile(&smoke_profile()).is_ok());
    let broken = [
        ColdReadProfile { key_count: 9, ..smoke_profile() },
        ColdReadProfile { value_bytes: 15, ..smoke_profile() },
        ColdReadProfile { operations_per_repeat: 0, ..smoke_profile() },
        ColdReadProfile { repeats: 0, ..smoke_profile() },
        ColdReadProfile { seeds: Vec::new(), ..smoke_profile() },
        ColdReadProfile { seeds: vec![3, 0], ..smoke_profile() },
        ColdReadProfile { target_object_bytes: 4_095, target_block_bytes: 4_096, ..smoke_profile() },
        ColdReadProfile { target_object_bytes: 8_192, target_block_bytes: 2_048, ..smoke_profile() },
    ];
    for profile in broken {
        assert_eq!(validate_profile(&profile).unwrap_err(), "invalid cold point-read profile");
    }
}

#[test]
fn generators_match_their_reference_values() {
    assert_eq!(splitmix64(0), 0xe220_a839_7b1d_cdaf);
    assert_eq!(splitmix64(1), 0x910a_2dec_8902_5cc1);
    let mut random = XorShift64(1);
    assert_eq!(random.next(), 0x4082_2041);
    assert_eq!(random.0, 0x4082_2041);
    assert_eq!(operation_keys(1_024, 5, 1_103), vec![903, 936, 95, 175, 342]);
    assert!(operation_keys(1_024, 0, 1_103).is_empty());
}

#[test]
fn generated_values_carry_their_key() {
    assert_eq!(key_bytes(0x0102_0304_0506_0708), vec![1, 2, 3, 4, 5, 6, 7, 8]);
    let value = value_bytes(5, 20);
    assert_eq!(
        value,
        vec![0, 0, 0, 0, 0, 0, 0, 5, 33, 56, 33, 183, 158, 55, 121, 185, 127, 64, 124, 21]
    );
    assert!(validate_value(5, &value));
    assert!(!validate_value(6, &value));
    assert!(!validate_value(5, &value[..15]));
    let mut corrupt = value.clone();
    corrupt[19] ^= 1;
    assert!(!validate_value(5, &corrupt));
    for key in [0_u64, 1, 77, u64::MAX] {
        assert!(validate_value(key, &value_bytes(key, 128)));
    }
}

#[test]
fn percentile_rounds_the_index_up() {
    let values: Vec<u64> = (10..20).collect();
    assert_eq!(percentile(&values, 50, 100), 15);
    assert_eq!(percentile(&values, 95, 100), 19);
    assert_eq!(percentile(&values, 0, 100), 10);
    assert_eq!(percentile(&values, 100, 100), 19);
    assert_eq!(percentile(&[7], 999, 1_000), 7);
}

#[test]
fn locate_finds_the_covering_segment() {
    let segment = |first: u8, last: u8| SegmentRange { first_key: vec![first], last_key: vec![last] };
    let segments = vec![segment(10, 19), segment(20, 29), segment(40, 49)];
    assert_eq!(locate(&segments, &[10]), Some(0));
    assert_eq!(locate(&segments, &[25]), Some(1));
    assert_eq!(locate(&segments, &[29, 0]), None);
    assert_eq!(locate(&segments, &[35]), None);
    assert_eq!(locate(&segments, &[49]), Some(2));
    assert_eq!(locate(&segments, &[9]), None);
    assert_eq!(locate(&segments, &[50]), None);
    assert_eq!(locate(&[], &[1]), None);
}

#[test]
fn serving_range_fences_generation_and_coverage() {
    assert!(serving_admits(ColdReadMode::Candidate, 7, 41, 41, 7).is_ok());
    assert_eq!(
        serving_admits(ColdReadMode::Candidate, 7, 41, 41, 6).unwrap_err(),
        "stale object-base serving generation"
    );
    assert_eq!(
        serving_admits(ColdReadMode::Candidate, 7, 40, 41, 7).unwrap_err(),
        "object-base coverage is behind read version"
    );
    assert!(serving_admits(ColdReadMode::DirectControl, 7, 0, 41, 6).is_ok());
    assert!(serving_admits(ColdReadMode::ScanObjectPoison, 7, 0, 41, 6).is_ok());
}
