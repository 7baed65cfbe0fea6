//! The integer side of the closed-form locality feasibility bounds: the
//! distributions and controls, the dimension and distribution rules, and the
//! capacity that a cache fraction declares and a control models, and the
//! digest that binds a receipt to them.

use crate::codec::{ascii_text, be_u32, be_u64, extend_bytes, hex_lower, push_u32, push_u64, sat_mul, saturating_mul_u64};
use crate::digest::{sha256_hex, sha256_of};
use vstd::string::StringSliceAdditionalSpecFns;
use vstd::prelude::*;

verus! {

/// Parts per million.
pub const PARTS_PER_MILLION: u64 = 1_000_000;

#[derive(Clone, Copy, Debug, PartialEq, Eq, Structural)]
pub enum LocalityDistribution {
    Uniform,
    Zipfian { theta_milli: u32 },
    MovingHotset { hotset_fraction_ppm: u32, hot_read_fraction_ppm: u32 },
}

pub open spec fn distribution_id(distribution: LocalityDistribution) -> Seq<char> {
    match distribution {
        LocalityDistribution::Uniform => "uniform"@,
        LocalityDistribution::Zipfian { .. } => "zipfian"@,
        LocalityDistribution::MovingHotset { .. } => "moving_hotset"@,
    }
}

impl LocalityDistribution {
    /// Stable identifier used by receipts.
    pub fn id(self) -> (id: &'static str)
        ensures
            id@ == distribution_id(self),
    {
        match self {
            LocalityDistribution::Uniform => "uniform",
            LocalityDistribution::Zipfian { .. } => "zipfian",
            LocalityDistribution::MovingHotset { .. } => "moving_hotset",
        }
    }
}

#[derive(Clone, Copy, Debug, PartialEq, Eq, Structural)]
pub enum LocalityFeasibilityMode {
    Correct,
    InflateCapacity,
    SkipProbabilityNormalization,
    IgnoreBackgroundReads,
}

pub open spec fn feasibility_mode_id(mode: LocalityFeasibilityMode) -> Seq<char> {
    match mode {
        LocalityFeasibilityMode::Correct => "correct"@,
        LocalityFeasibilityMode::InflateCapacity => "inflate_capacity"@,
        LocalityFeasibilityMode::SkipProbabilityNormalization => "skip_probability_normalization"@,
        LocalityFeasibilityMode::IgnoreBackgroundReads => "ignore_background_reads"@,
    }
}

impl LocalityFeasibilityMode {
    /// Stable identifier used by receipts.
    pub fn id(self) -> (id: &'static str)
        ensures
            id@ == feasibility_mode_id(self),
    {
        match self {
            LocalityFeasibilityMode::Correct => "correct",
            LocalityFeasibilityMode::InflateCapacity => "inflate_capacity",
            LocalityFeasibilityMode::SkipProbabilityNormalization => "skip_probability_normalization",
            LocalityFeasibilityMode::IgnoreBackgroundReads => "ignore_background_reads",
        }
    }

    /// The correct model is the default.
    pub fn default_mode() -> (mode: Self)
        ensures
            mode == LocalityFeasibilityMode::Correct,
    {
        LocalityFeasibilityMode::Correct
    }
}

/// The dimensions are positive, the logical bytes are exactly the key count
/// times the point bytes (the product saturating), and the cache fraction is
/// 1 to 1000000 parts per million. The first violated rule names the error.
pub fn validate_dimensions(key_count: u64, logical_bytes: u64, point_bytes: u64, cache_fraction_ppm: u32) -> (result: Result<(), String>)
    ensures
        result is Ok <==> key_count != 0 && point_bytes != 0 && logical_bytes != 0 && logical_bytes == sat_mul(
            key_count,
            point_bytes,
        ) && 1 <= cache_fraction_ppm <= PARTS_PER_MILLION,
        (key_count == 0 || point_bytes == 0 || logical_bytes == 0) ==> (result matches Err(e)
            && e@ == "locality dimensions must be positive"@),
        key_count != 0 && point_bytes != 0 && logical_bytes != 0 && logical_bytes != sat_mul(key_count, point_bytes)
            ==> (result matches Err(e) && e@ == "locality logical bytes must equal key count times point bytes"@),
        key_count != 0 && point_bytes != 0 && logical_bytes != 0 && logical_bytes == sat_mul(key_count, point_bytes)
            && !(1 <= cache_fraction_ppm <= PARTS_PER_MILLION) ==> (result matches Err(e)
            && e@ == "locality cache fraction must be in 1..=1000000 ppm"@),
{
    if key_count == 0 || point_bytes == 0 || logical_bytes == 0 {
        return Err("locality dimensions must be positive".to_owned());
    }
    if logical_bytes != saturating_mul_u64(key_count, point_bytes) {
        return Err("locality logical bytes must equal key count times point bytes".to_owned());
    }
    if cache_fraction_ppm < 1 || cache_fraction_ppm as u64 > PARTS_PER_MILLION {
        return Err("locality cache fraction must be in 1..=1000000 ppm".to_owned());
    }
    Ok(())
}

/// The error a distribution and control pair draws, if any.
pub open spec fn distribution_error(distribution: LocalityDistribution, mode: LocalityFeasibilityMode) -> Option<Seq<char>> {
    match distribution {
        LocalityDistribution::Uniform => if mode is IgnoreBackgroundReads {
            Some("ignore-background control requires moving hotset"@)
        } else {
            None
        },
        LocalityDistribution::Zipfian { theta_milli } => if theta_milli == 0 {
            Some("locality Zipfian theta must be positive"@)
        } else if mode is IgnoreBackgroundReads {
            Some("ignore-background control requires moving hotset"@)
        } else {
            None
        },
        LocalityDistribution::MovingHotset { hotset_fraction_ppm, hot_read_fraction_ppm } => if !(1
            <= hotset_fraction_ppm <= PARTS_PER_MILLION) || hot_read_fraction_ppm > PARTS_PER_MILLION {
            Some("locality moving-hotset probabilities are invalid"@)
        } else if mode is SkipProbabilityNormalization {
            Some("skip-normalization control requires Zipfian"@)
        } else {
            None
        },
    }
}

/// A control applies only to the distribution it falsifies, and each
/// distribution's parameters are in range.
pub fn validate_distribution(distribution: LocalityDistribution, mode: LocalityFeasibilityMode) -> (result: Result<(), String>)
    ensures
        result is Ok <==> distribution_error(distribution, mode) is None,
        result matches Err(e) ==> distribution_error(distribution, mode) == Some(e@),
{
    match distribution {
        LocalityDistribution::Uniform => {
            if matches!(mode, LocalityFeasibilityMode::IgnoreBackgroundReads) {
                return Err("ignore-background control requires moving hotset".to_owned());
            }
        },
        LocalityDistribution::Zipfian { theta_milli } => {
            if theta_milli == 0 {
                return Err("locality Zipfian theta must be positive".to_owned());
            }
            if matches!(mode, LocalityFeasibilityMode::IgnoreBackgroundReads) {
                return Err("ignore-background control requires moving hotset".to_owned());
            }
        },
        LocalityDistribution::MovingHotset { hotset_fraction_ppm, hot_read_fraction_ppm } => {
            if hotset_fraction_ppm < 1 || hotset_fraction_ppm as u64 > PARTS_PER_MILLION || hot_read_fraction_ppm
                as u64 > PARTS_PER_MILLION {
                return Err("locality moving-hotset probabilities are invalid".to_owned());
            }
            if matches!(mode, LocalityFeasibilityMode::SkipProbabilityNormalization) {
                return Err("skip-normalization control requires Zipfian".to_owned());
            }
        },
    }
    Ok(())
}

/// The capacity a run declares and the one its control models.
#[derive(Clone, Copy, Debug, PartialEq, Eq, Structural)]
pub struct LocalityCapacity {
    pub declared_capacity_bytes: u64,
    pub declared_capacity_keys: u64,
    pub modeled_resident_keys: u64,
    pub modeled_resident_bytes: u64,
    pub capacity_bound_held: bool,
}

/// The capacity plan of a run: the declared capacity is the cache fraction of
/// the logical bytes (the product saturating) in whole points; the inflating
/// control models every key resident, the others the declared keys; the bound
/// holds when the modeled residents fit the declared keys and bytes.
pub open spec fn capacity_spec(
    key_count: u64,
    logical_bytes: u64,
    point_bytes: u64,
    cache_fraction_ppm: u32,
    mode: LocalityFeasibilityMode,
) -> LocalityCapacity {
    let bytes = sat_mul(logical_bytes, cache_fraction_ppm as u64) / PARTS_PER_MILLION;
    let keys = bytes / point_bytes;
    let resident = if mode is InflateCapacity { key_count } else { keys as u64 };
    LocalityCapacity {
        declared_capacity_bytes: bytes as u64,
        declared_capacity_keys: keys as u64,
        modeled_resident_keys: resident,
        modeled_resident_bytes: sat_mul(resident, point_bytes),
        capacity_bound_held: resident <= keys && sat_mul(resident, point_bytes) <= bytes,
    }
}

/// Plan the capacity of a run (see `capacity_spec`); a capacity that holds
/// no whole point is an error.
pub fn capacity_plan(
    key_count: u64,
    logical_bytes: u64,
    point_bytes: u64,
    cache_fraction_ppm: u32,
    mode: LocalityFeasibilityMode,
) -> (result: Result<LocalityCapacity, String>)
    requires
        point_bytes != 0,
    ensures
        capacity_spec(key_count, logical_bytes, point_bytes, cache_fraction_ppm, mode).declared_capacity_keys == 0
            ==> (result matches Err(e) && e@ == "locality capacity must hold at least one complete point"@),
        capacity_spec(key_count, logical_bytes, point_bytes, cache_fraction_ppm, mode).declared_capacity_keys != 0
            ==> result == Ok::<LocalityCapacity, String>(
            capacity_spec(key_count, logical_bytes, point_bytes, cache_fraction_ppm, mode),
        ),
{
    let declared_capacity_bytes = saturating_mul_u64(logical_bytes, cache_fraction_ppm as u64) / PARTS_PER_MILLION;
    let declared_capacity_keys = declared_capacity_bytes / point_bytes;
    if declared_capacity_keys == 0 {
        return Err("locality capacity must hold at least one complete point".to_owned());
    }
    let modeled_resident_keys = if matches!(mode, LocalityFeasibilityMode::InflateCapacity) {
        key_count
    } else {
        declared_capacity_keys
    };
    let modeled_resident_bytes = saturating_mul_u64(modeled_resident_keys, point_bytes);
    Ok(LocalityCapacity {
        declared_capacity_bytes,
        declared_capacity_keys,
        modeled_resident_keys,
        modeled_resident_bytes,
        capacity_bound_held: modeled_resident_keys <= declared_capacity_keys
            && modeled_resident_bytes <= declared_capacity_bytes,
    })
}

/// The number of hot keys: the hot fraction of the keys, rounded up, kept
/// between one and the key count.
pub open spec fn hotset_size(key_count: usize, hotset_fraction_ppm: u32) -> int {
    let product = key_count * hotset_fraction_ppm;
    let saturated = if product > usize::MAX { usize::MAX as int } else { product };
    let rounded = (saturated + PARTS_PER_MILLION - 1) / (PARTS_PER_MILLION as int);
    if rounded < 1 { 1 } else if rounded > key_count { key_count as int } else { rounded }
}

/// The number of hot keys of a moving hotset.
pub fn hotset_keys(key_count: usize, hotset_fraction_ppm: u32) -> (keys: usize)
    requires
        key_count >= 1,
    ensures
        keys == hotset_size(key_count, hotset_fraction_ppm),
{
    let product = match key_count.checked_mul(hotset_fraction_ppm as usize) {
        Some(p) => p,
        None => usize::MAX,
    };
    let million: usize = 1_000_000;
    let rounded = product / million + if product % million == 0 { 0 } else { 1 };
    assert(rounded == (product + 1_000_000 - 1) / 1_000_000) by (nonlinear_arith)
        requires
            rounded == product / 1_000_000 + if product % 1_000_000 == 0 { 0int } else { 1int },
    ;
    if rounded < 1 {
        1
    } else if rounded > key_count {
        key_count
    } else {
        rounded
    }
}

/// Capacity law: the declared capacity is the cache fraction of the logical
/// bytes in whole points, and the capacity bound holds exactly when the
/// control is not the inflating one or every key fits the declared points.
pub proof fn lemma_capacity_bound(
    key_count: u64,
    logical_bytes: u64,
    point_bytes: u64,
    cache_fraction_ppm: u32,
    mode: LocalityFeasibilityMode,
)
    requires
        point_bytes != 0,
    ensures
        capacity_spec(key_count, logical_bytes, point_bytes, cache_fraction_ppm, mode).declared_capacity_keys
            == sat_mul(logical_bytes, cache_fraction_ppm as u64) / PARTS_PER_MILLION / point_bytes,
        capacity_spec(key_count, logical_bytes, point_bytes, cache_fraction_ppm, mode).capacity_bound_held == (!(
        mode is InflateCapacity) || key_count <= capacity_spec(
            key_count,
            logical_bytes,
            point_bytes,
            cache_fraction_ppm,
            mode,
        ).declared_capacity_keys),
{
    let bytes = sat_mul(logical_bytes, cache_fraction_ppm as u64) / PARTS_PER_MILLION;
    let keys = bytes / point_bytes;
    assert(keys * point_bytes <= bytes) by (nonlinear_arith)
        requires
            keys == bytes / point_bytes,
            point_bytes > 0,
            bytes >= 0,
    ;
    assert(bytes <= u64::MAX);
    assert(keys <= bytes) by (nonlinear_arith)
        requires
            keys == bytes / point_bytes,
            point_bytes >= 1,
            bytes >= 0,
    ;
    if key_count <= keys {
        assert(key_count * point_bytes <= keys * point_bytes) by (nonlinear_arith)
            requires
                key_count <= keys,
                point_bytes >= 0,
        ;
    }
}

/// The distribution's parameters as the receipt digest binds them.
pub open spec fn distribution_parameters(distribution: LocalityDistribution) -> Seq<u8> {
    match distribution {
        LocalityDistribution::Uniform => Seq::empty(),
        LocalityDistribution::Zipfian { theta_milli } => be_u32(theta_milli),
        LocalityDistribution::MovingHotset { hotset_fraction_ppm, hot_read_fraction_ppm } => be_u32(
            hotset_fraction_ppm,
        ) + be_u32(hot_read_fraction_ppm),
    }
}

/// The bit patterns of the four modeled ratios a receipt binds: the
/// probability mass, the closed-form and enumerated hit ratios, and the
/// target provider miss ratio.
#[derive(Clone, Copy, Debug, PartialEq, Eq, Structural)]
pub struct LocalityRatioBits {
    pub probability_mass: u64,
    pub closed_form_hit_ratio: u64,
    pub enumerated_hit_ratio: u64,
    pub target_provider_miss_ratio: u64,
}

/// The hashed receipt: the domain tag; the key count, logical bytes and
/// point bytes; the cache fraction; the distribution's identifier and
/// parameters; the control's identifier; the capacity counts; then the ratio
/// bit patterns, every integer big-endian.
pub open spec fn locality_receipt_preimage(
    key_count: u64,
    logical_bytes: u64,
    point_bytes: u64,
    cache_fraction_ppm: u32,
    distribution: LocalityDistribution,
    mode: LocalityFeasibilityMode,
    capacity: LocalityCapacity,
    ratios: LocalityRatioBits,
) -> Seq<u8> {
    vstd::utf8::encode_utf8("okv-provider-locality-feasibility-v0"@) + be_u64(key_count) + be_u64(logical_bytes)
        + be_u64(point_bytes) + be_u32(cache_fraction_ppm) + vstd::utf8::encode_utf8(distribution_id(distribution))
        + distribution_parameters(distribution) + vstd::utf8::encode_utf8(feasibility_mode_id(mode)) + be_u64(
        capacity.declared_capacity_keys,
    ) + be_u64(capacity.declared_capacity_bytes) + be_u64(capacity.modeled_resident_keys) + be_u64(
        capacity.modeled_resident_bytes,
    ) + be_u64(ratios.probability_mass) + be_u64(ratios.closed_form_hit_ratio) + be_u64(
        ratios.enumerated_hit_ratio,
    ) + be_u64(ratios.target_provider_miss_ratio)
}

/// The receipt digest: the lowercase hexadecimal SHA-256 of the preimage.
pub fn locality_receipt_digest(
    key_count: u64,
    logical_bytes: u64,
    point_bytes: u64,
    cache_fraction_ppm: u32,
    distribution: LocalityDistribution,
    mode: LocalityFeasibilityMode,
    capacity: &LocalityCapacity,
    ratios: &LocalityRatioBits,
) -> (digest: String)
    ensures
        digest@ == ascii_text(
            hex_lower(
                sha256_of(
                    locality_receipt_preimage(
                        key_count,
                        logical_bytes,
                        point_bytes,
                        cache_fraction_ppm,
                        distribution,
                        mode,
                        *capacity,
                        *ratios,
                    ),
                ),
            ),
        ),
{
    let mut bytes: Vec<u8> = Vec::new();
    extend_bytes(&mut bytes, "okv-provider-locality-feasibility-v0".as_bytes());
    push_u64(&mut bytes, key_count);
    push_u64(&mut bytes, logical_bytes);
    push_u64(&mut bytes, point_bytes);
    push_u32(&mut bytes, cache_fraction_ppm);
    extend_bytes(&mut bytes, distribution.id().as_bytes());
    let ghost before_parameters = bytes@;
    match distribution {
        LocalityDistribution::Uniform => {},
        LocalityDistribution::Zipfian { theta_milli } => {
            push_u32(&mut bytes, theta_milli);
        },
        LocalityDistribution::MovingHotset { hotset_fraction_ppm, hot_read_fraction_ppm } => {
            push_u32(&mut bytes, hotset_fraction_ppm);
            push_u32(&mut bytes, hot_read_fraction_ppm);
        },
    }
    assert(bytes@ =~= before_parameters + distribution_parameters(distribution));
    extend_bytes(&mut bytes, mode.id().as_bytes());
    push_u64(&mut bytes, capacity.declared_capacity_keys);
    push_u64(&mut bytes, capacity.declared_capacity_bytes);
    push_u64(&mut bytes, capacity.modeled_resident_keys);
    push_u64(&mut bytes, capacity.modeled_resident_bytes);
    push_u64(&mut bytes, ratios.probability_mass);
    push_u64(&mut bytes, ratios.closed_form_hit_ratio);
    push_u64(&mut bytes, ratios.enumerated_hit_ratio);
    push_u64(&mut bytes, ratios.target_provider_miss_ratio);
    assert(bytes@ =~= locality_receipt_preimage(
        key_count,
        logical_bytes,
        point_bytes,
        cache_fraction_ppm,
        distribution,
        mode,
        *capacity,
        *ratios,
    ));
    sha256_hex(bytes.as_slice())
}

} // verus!

