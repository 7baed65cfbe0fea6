//! Indexed cold point reads over the portable row-object format: the frozen
//! profile, the deterministic key stream and self-validating values, segment
//! location by key, and latency percentiles.

use crate::codec::{be_u64, bytes_le, lemma_lex_le_trans, lex_le, push_u64, rotate_left_17, rotl};
use vstd::prelude::*;

verus! {

/// Generation that the cold-read serving range publishes.
pub const GENERATION: u64 = 7;

/// Read version that every cold point read uses.
pub const READ_VERSION: u64 = 41;

#[derive(Clone, Copy, Debug, PartialEq, Eq, Structural)]
pub enum ColdReadMode {
    Candidate,
    DirectControl,
    ScanObjectPoison,
}

#[derive(Clone, Copy, Debug, PartialEq, Eq, Structural)]
pub enum EmptyWorkerMode {
    LazyCandidate,
    FullHydrationControl,
    FullHydrationPoison,
}

#[derive(Clone, Debug)]
pub struct ColdReadProfile {
    pub key_count: u64,
    pub value_bytes: usize,
    pub operations_per_repeat: usize,
    pub repeats: u32,
    pub seeds: Vec<u64>,
    pub target_object_bytes: usize,
    pub target_block_bytes: usize,
}

impl ColdReadProfile {
    /// The profile is large enough to measure and every seed is non-zero.
    pub open spec fn valid(&self) -> bool {
        &&& self.key_count >= 10
        &&& self.value_bytes >= 16
        &&& self.operations_per_repeat != 0
        &&& self.repeats != 0
        &&& self.seeds@.len() > 0
        &&& !self.seeds@.contains(0)
        &&& self.target_object_bytes >= self.target_block_bytes
        &&& self.target_block_bytes >= 4_096
    }
}

/// Accept exactly the valid cold-read profiles.
pub fn validate_profile(profile: &ColdReadProfile) -> (result: Result<(), String>)
    ensures
        result is Ok <==> profile.valid(),
        result matches Err(e) ==> e@ == "invalid cold point-read profile"@,
{
    let mut zero_seed = false;
    let mut index: usize = 0;
    while index < profile.seeds.len()
        invariant
            index <= profile.seeds@.len(),
            zero_seed == exists|i: int| 0 <= i < index && profile.seeds@[i] == 0,
        decreases profile.seeds@.len() - index,
    {
        if profile.seeds[index] == 0 {
            zero_seed = true;
        }
        index = index + 1;
    }
    if profile.key_count < 10 || profile.value_bytes < 16 || profile.operations_per_repeat == 0
        || profile.repeats == 0 || profile.seeds.len() == 0 || zero_seed
        || profile.target_object_bytes < profile.target_block_bytes || profile.target_block_bytes < 4_096
    {
        return Err("invalid cold point-read profile".to_owned());
    }
    Ok(())
}

/// One step of the SplitMix64 generator.
pub open spec fn splitmix64_spec(value: u64) -> u64 {
    let a = value.wrapping_add(0x9e37_79b9_7f4a_7c15);
    let b = (a ^ (a >> 30u64)).wrapping_mul(0xbf58_476d_1ce4_e5b9);
    let c = (b ^ (b >> 27u64)).wrapping_mul(0x94d0_49bb_1331_11eb);
    c ^ (c >> 31u64)
}

/// One step of the SplitMix64 generator.
pub fn splitmix64(value: u64) -> (mixed: u64)
    ensures
        mixed == splitmix64_spec(value),
{
    let a = value.wrapping_add(0x9e37_79b9_7f4a_7c15);
    let b = (a ^ (a >> 30u64)).wrapping_mul(0xbf58_476d_1ce4_e5b9);
    let c = (b ^ (b >> 27u64)).wrapping_mul(0x94d0_49bb_1331_11eb);
    c ^ (c >> 31u64)
}

/// One xorshift step: shifts by 13, 7 and 17.
pub open spec fn xorshift_step(state: u64) -> u64 {
    let a = state ^ (state << 13u64);
    let b = a ^ (a >> 7u64);
    b ^ (b << 17u64)
}

/// The `n`-th xorshift output from a seed (the first output is `n == 1`).
pub open spec fn xorshift_iter(seed: u64, n: nat) -> u64
    decreases n,
{
    if n == 0 {
        seed
    } else {
        xorshift_step(xorshift_iter(seed, (n - 1) as nat))
    }
}

/// The xorshift64 generator that draws the operation keys.
pub struct XorShift64(pub u64);

impl XorShift64 {
    /// Advance the state and return it.
    pub fn next(&mut self) -> (value: u64)
        ensures
            value == xorshift_step(old(self).0),
            final(self).0 == value,
    {
        let mut value = self.0;
        value = value ^ (value << 13u64);
        value = value ^ (value >> 7u64);
        value = value ^ (value << 17u64);
        self.0 = value;
        value
    }
}

/// The keys one measured repeat reads.
pub open spec fn operation_key_stream(key_count: u64, operations: nat, seed: u64) -> Seq<u64> {
    Seq::new(operations, |i: int| (xorshift_iter(seed, (i + 1) as nat) % key_count) as u64)
}

/// Draw `operations` key ids below `key_count` from the seeded generator.
pub fn operation_keys(key_count: u64, operations: usize, seed: u64) -> (keys: Vec<u64>)
    requires
        key_count > 0,
    ensures
        keys@ == operation_key_stream(key_count, operations as nat, seed),
{
    let mut random = XorShift64(seed);
    let mut keys: Vec<u64> = Vec::new();
    let mut index: usize = 0;
    while index < operations
        invariant
            key_count > 0,
            index <= operations,
            random.0 == xorshift_iter(seed, index as nat),
            keys@ =~= operation_key_stream(key_count, index as nat, seed),
        decreases operations - index,
    {
        let value = random.next();
        keys.push(value % key_count);
        index = index + 1;
    }
    keys
}

/// Big-endian bytes of one key id.
pub fn key_bytes(key_id: u64) -> (key: Vec<u8>)
    ensures
        key@ == be_u64(key_id),
{
    let mut key: Vec<u8> = Vec::new();
    push_u64(&mut key, key_id);
    key
}

/// Mixes the key id into the value stream.
pub const VALUE_MIX: u64 = 0x9e37_79b9_7f4a_7c15;

/// The generator state that fills chunk `k` (0-based) of a key's value.
pub open spec fn value_chunk_state(key_id: u64, k: nat) -> u64
    decreases k,
{
    if k == 0 {
        splitmix64_spec(key_id ^ VALUE_MIX)
    } else {
        splitmix64_spec(value_chunk_state(key_id, (k - 1) as nat))
    }
}

/// The trailer that closes every value.
pub open spec fn value_tail(key_id: u64) -> u64 {
    rotl(key_id, 17) ^ VALUE_MIX
}

/// Byte `i` of a key's value of `length` bytes: the key id leads, the trailer
/// closes, and the generator fills the rest.
pub open spec fn value_byte(key_id: u64, length: nat, i: int) -> u8 {
    if i >= length - 8 {
        be_u64(value_tail(key_id))[i - (length - 8)]
    } else if i < 8 {
        be_u64(key_id)[i]
    } else {
        be_u64(value_chunk_state(key_id, (i / 8) as nat))[i % 8]
    }
}

pub open spec fn value_spec(key_id: u64, length: nat) -> Seq<u8> {
    Seq::new(length, |i: int| value_byte(key_id, length, i))
}

/// The deterministic, self-validating value of one key.
pub fn value_bytes(key_id: u64, length: usize) -> (value: Vec<u8>)
    requires
        length >= 8,
    ensures
        value@ == value_spec(key_id, length as nat),
{
    let mut value: Vec<u8> = Vec::new();
    let mut state = key_id ^ VALUE_MIX;
    let mut chunk: usize = 0;
    while value.len() < length
        invariant
            value@.len() <= length,
            value@.len() == if 8 * chunk < length { 8 * chunk } else { length as int },
            chunk == 0 ==> state == key_id ^ VALUE_MIX,
            chunk > 0 ==> state == value_chunk_state(key_id, (chunk - 1) as nat),
            8 * chunk <= length + 7,
            forall|i: int|
                0 <= i < value@.len() ==> #[trigger] value@[i] == be_u64(value_chunk_state(key_id, (i / 8) as nat))[i
                    % 8],
        decreases length - value@.len(),
    {
        state = splitmix64(state);
        let mut encoded: Vec<u8> = Vec::new();
        push_u64(&mut encoded, state);
        let ghost start = value@.len();
        let mut j: usize = 0;
        while j < 8 && value.len() < length
            invariant
                j <= 8,
                value@.len() == start + j,
                value@.len() <= length,
                start == 8 * chunk,
                encoded@ == be_u64(state),
                state == value_chunk_state(key_id, chunk as nat),
                forall|i: int|
                    0 <= i < value@.len() ==> #[trigger] value@[i] == be_u64(value_chunk_state(key_id, (i / 8) as nat))[i
                        % 8],
            decreases 8 - j,
        {
            value.push(encoded[j]);
            proof {
                let i = start + j;
                assert(i / 8 == chunk && i % 8 == j) by {
                    vstd::arithmetic::div_mod::lemma_fundamental_div_mod_converse(i, 8, chunk as int, j as int);
                }
            }
            j = j + 1;
        }
        chunk = chunk + 1;
    }
    let head = key_bytes(key_id);
    let mut index: usize = 0;
    while index < 8
        invariant
            index <= 8,
            length >= 8,
            value@.len() == length,
            head@ == be_u64(key_id),
            forall|i: int|
                0 <= i < length ==> #[trigger] value@[i] == if i < index {
                    be_u64(key_id)[i]
                } else {
                    be_u64(value_chunk_state(key_id, (i / 8) as nat))[i % 8]
                },
        decreases 8 - index,
    {
        value.set(index, head[index]);
        index = index + 1;
    }
    let tail = key_bytes(rotate_left_17(key_id) ^ VALUE_MIX);
    let start = length - 8;
    let mut index: usize = 0;
    while index < 8
        invariant
            index <= 8,
            length >= 8,
            start == length - 8,
            value@.len() == length,
            tail@ == be_u64(value_tail(key_id)),
            forall|i: int|
                0 <= i < length ==> #[trigger] value@[i] == if start <= i < start + index {
                    be_u64(value_tail(key_id))[i - start]
                } else if i < 8 {
                    be_u64(key_id)[i]
                } else {
                    be_u64(value_chunk_state(key_id, (i / 8) as nat))[i % 8]
                },
        decreases 8 - index,
    {
        value.set(start + index, tail[index]);
        index = index + 1;
    }
    assert(value@ =~= value_spec(key_id, length as nat));
    value
}

/// A value belongs to a key when it is at least 16 bytes, leads with the key
/// id, and closes with the key's trailer.
pub open spec fn value_matches_key(key_id: u64, value: Seq<u8>) -> bool {
    &&& value.len() >= 16
    &&& value.subrange(0, 8) == be_u64(key_id)
    &&& value.subrange(value.len() - 8, value.len() as int) == be_u64(value_tail(key_id))
}

/// Check that a value read back belongs to `key_id`.
pub fn validate_value(key_id: u64, value: &[u8]) -> (valid: bool)
    ensures
        valid == value_matches_key(key_id, value@),
{
    if value.len() < 16 {
        return false;
    }
    let head = key_bytes(key_id);
    let tail = key_bytes(rotate_left_17(key_id) ^ VALUE_MIX);
    let start = value.len() - 8;
    let mut index: usize = 0;
    while index < 8
        invariant
            index <= 8,
            value@.len() >= 16,
            start == value@.len() - 8,
            head@ == be_u64(key_id),
            tail@ == be_u64(value_tail(key_id)),
            forall|i: int| 0 <= i < index ==> value@[i] == head@[i] && value@[start + i] == tail@[i],
        decreases 8 - index,
    {
        if value[index] != head[index] {
            assert(value@.subrange(0, 8)[index as int] != be_u64(key_id)[index as int]);
            return false;
        }
        if value[start + index] != tail[index] {
            assert(value@.subrange(start as int, value@.len() as int)[index as int] != be_u64(value_tail(key_id))[index as int]);
            return false;
        }
        index = index + 1;
    }
    assert(value@.subrange(0, 8) =~= be_u64(key_id));
    assert(value@.subrange(start as int, value@.len() as int) =~= be_u64(value_tail(key_id)));
    true
}

/// Round-trip law of cold-read values: every generated value of at least 16
/// bytes validates for its own key.
pub proof fn lemma_generated_values_validate(key_id: u64, length: nat)
    requires
        length >= 16,
    ensures
        value_matches_key(key_id, value_spec(key_id, length)),
{
    let value = value_spec(key_id, length);
    assert(value.subrange(0, 8) =~= be_u64(key_id));
    assert(value.subrange(length - 8, length as int) =~= be_u64(value_tail(key_id)));
}

/// `ceil(a / d)`.
pub open spec fn div_ceil(a: nat, d: nat) -> nat {
    if a % d == 0 {
        a / d
    } else {
        a / d + 1
    }
}

/// Index of a percentile `numerator / denominator` in `len` sorted samples,
/// rounding up; the product saturates at `usize::MAX`.
pub open spec fn percentile_index(len: nat, numerator: nat, denominator: nat) -> nat {
    let product = (len - 1) * numerator;
    div_ceil(if product > usize::MAX { usize::MAX as nat } else { product as nat }, denominator)
}

/// The percentile sample of sorted values, rounding the index up. The
/// caller names an index that lies inside the samples.
pub fn percentile(values: &[u64], numerator: usize, denominator: usize) -> (sample: u64)
    requires
        values@.len() > 0,
        denominator > 0,
        percentile_index(values@.len(), numerator as nat, denominator as nat) < values@.len(),
    ensures
        sample == values@[percentile_index(values@.len(), numerator as nat, denominator as nat) as int],
{
    let last = values.len() - 1;
    let product = match last.checked_mul(numerator) {
        Some(p) => p,
        None => usize::MAX,
    };
    let quotient = product / denominator;
    let remainder = product % denominator;
    proof {
        let saturated = if last * numerator > usize::MAX {
            usize::MAX as nat
        } else {
            (last * numerator) as nat
        };
        assert(product as nat == saturated);
        assert(percentile_index(values@.len(), numerator as nat, denominator as nat) == div_ceil(
            product as nat,
            denominator as nat,
        ));
    }
    let index = if remainder == 0 { quotient } else { quotient + 1 };
    values[index]
}

/// One published row segment: the keys it covers, inclusive.
#[derive(Clone, Debug, PartialEq, Eq)]
pub struct SegmentRange {
    pub first_key: Vec<u8>,
    pub last_key: Vec<u8>,
}

/// Segments are ordered by first key.
pub open spec fn segments_sorted(segments: Seq<SegmentRange>) -> bool {
    forall|i: int, j: int| 0 <= i < j < segments.len() ==> lex_le(segments[i].first_key@, segments[j].first_key@)
}


/// The segment that may hold `key`: the last segment whose first key is at
/// or below `key`, when its last key reaches `key`.
pub open spec fn located_segment(segments: Seq<SegmentRange>, key: Seq<u8>, index: int) -> bool {
    &&& 0 <= index < segments.len()
    &&& lex_le(segments[index].first_key@, key)
    &&& forall|j: int| index < j < segments.len() ==> !lex_le(#[trigger] segments[j].first_key@, key)
    &&& lex_le(key, segments[index].last_key@)
}

/// Binary-search the segments for the one that covers `key`.
pub fn locate(segments: &[SegmentRange], key: &[u8]) -> (found: Option<usize>)
    ensures
        found matches Some(index) ==> lex_le(segments@[index as int].first_key@, key@) && lex_le(
            key@,
            segments@[index as int].last_key@,
        ) && index < segments@.len(),
        segments_sorted(segments@) ==> (found matches Some(index) ==> located_segment(segments@, key@, index as int)),
        segments_sorted(segments@) ==> (found is None ==> forall|index: int| !located_segment(segments@, key@, index)),
{
    let mut lower: usize = 0;
    let mut upper: usize = segments.len();
    while lower < upper
        invariant
            lower <= upper <= segments@.len(),
            segments_sorted(segments@) ==> forall|j: int| 0 <= j < lower ==> lex_le(#[trigger] segments@[j].first_key@, key@),
            forall|j: int| upper <= j < segments@.len() ==> !lex_le(#[trigger] segments@[j].first_key@, key@)
                || !segments_sorted(segments@),
            lower > 0 ==> lex_le(segments@[lower - 1].first_key@, key@),
        decreases upper - lower,
    {
        let middle = lower + (upper - lower) / 2;
        if bytes_le(segments[middle].first_key.as_slice(), key) {
            proof {
                if segments_sorted(segments@) {
                    assert forall|j: int| 0 <= j < middle + 1 implies lex_le(#[trigger] segments@[j].first_key@, key@) by {
                        if j < middle {
                            lemma_lex_le_trans(segments@[j].first_key@, segments@[middle as int].first_key@, key@);
                        }
                    }
                }
            }
            lower = middle + 1;
        } else {
            proof {
                if segments_sorted(segments@) {
                    assert forall|j: int| middle <= j < segments@.len() implies !lex_le(#[trigger] segments@[j].first_key@, key@) by {
                        if j > middle && lex_le(segments@[j].first_key@, key@) {
                            lemma_lex_le_trans(segments@[middle as int].first_key@, segments@[j].first_key@, key@);
                        }
                    }
                }
            }
            upper = middle;
        }
    }
    if lower == 0 {
        return None;
    }
    let candidate = lower - 1;
    if bytes_le(key, segments[candidate].last_key.as_slice()) {
        Some(candidate)
    } else {
        proof {
            assert forall|index: int| segments_sorted(segments@) implies !located_segment(segments@, key@, index) by {
                if located_segment(segments@, key@, index) {
                    if index < candidate {
                        assert(!lex_le(segments@[candidate as int].first_key@, key@));
                    } else if index > candidate {
                    }
                }
            }
        }
        None
    }
}

/// The serving range only answers its own generation at a covered version.
pub fn serving_admits(
    mode: ColdReadMode,
    manifest_generation: u64,
    covered_through: u64,
    read_version: u64,
    generation: u64,
) -> (result: Result<(), String>)
    ensures
        mode != ColdReadMode::Candidate ==> result is Ok,
        mode == ColdReadMode::Candidate && generation != manifest_generation ==> (result matches Err(e)
            && e@ == "stale object-base serving generation"@),
        mode == ColdReadMode::Candidate && generation == manifest_generation && read_version > covered_through ==> (
        result matches Err(e) && e@ == "object-base coverage is behind read version"@),
        mode == ColdReadMode::Candidate && generation == manifest_generation && read_version <= covered_through
            ==> result is Ok,
{
    if mode == ColdReadMode::Candidate {
        if generation != manifest_generation {
            return Err("stale object-base serving generation".to_owned());
        }
        if read_version > covered_through {
            return Err("object-base coverage is behind read version".to_owned());
        }
    }
    Ok(())
}

} // verus!
