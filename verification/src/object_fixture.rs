//! Content-addressed object fixtures: the descriptor, placement and resident
//! image identities, their frozen field encodings and digests, the checks a
//! descriptor or locator must pass, and the deterministic fixture values.

use crate::codec::{
    ascii_text, be_u32, be_u64, extend_bytes, framed, hex_lower, push_bytes, push_u32, push_u64, rotl,
    rotate_left_17, sat_mul, saturating_mul_u64,
};
use crate::digest::{sha256, sha256_hex, sha256_of};
use crate::key_set::utf8;
use crate::program::{message2, message3};
use crate::provider_incarnation::text_equal;
use vstd::prelude::*;

verus! {

/// Subject or deliberate poison for the object fixture contract.
#[derive(Clone, Copy, Debug, PartialEq, Eq, Structural)]
pub enum ObjectFixtureMode {
    Candidate,
    CorruptDescriptorPoison,
    MutatedAnchorPoison,
    TailMismatchPoison,
    SharedMutableImagePoison,
}

impl ObjectFixtureMode {
    pub open spec fn id_text(self) -> Seq<char> {
        match self {
            ObjectFixtureMode::Candidate => "candidate"@,
            ObjectFixtureMode::CorruptDescriptorPoison => "corrupt_descriptor_poison"@,
            ObjectFixtureMode::MutatedAnchorPoison => "mutated_anchor_poison"@,
            ObjectFixtureMode::TailMismatchPoison => "tail_mismatch_poison"@,
            ObjectFixtureMode::SharedMutableImagePoison => "shared_mutable_image_poison"@,
        }
    }

    /// The stable identifier of a mode.
    pub fn id(self) -> (id: &'static str)
        ensures
            id@ == self.id_text(),
    {
        match self {
            ObjectFixtureMode::Candidate => "candidate",
            ObjectFixtureMode::CorruptDescriptorPoison => "corrupt_descriptor_poison",
            ObjectFixtureMode::MutatedAnchorPoison => "mutated_anchor_poison",
            ObjectFixtureMode::TailMismatchPoison => "tail_mismatch_poison",
            ObjectFixtureMode::SharedMutableImagePoison => "shared_mutable_image_poison",
        }
    }
}

/// The fixed shape of a local object fixture.
#[derive(Clone, Debug, PartialEq, Eq)]
pub struct ObjectFixtureProfile {
    pub key_count: u64,
    pub value_bytes: usize,
    pub target_object_bytes: usize,
    pub target_block_bytes: usize,
}

impl ObjectFixtureProfile {
    /// A usable profile: more than sixteen keys, non-empty values, blocks of
    /// at least 4 KiB, objects no smaller than a block.
    pub open spec fn valid(self) -> bool {
        self.key_count > 16 && self.value_bytes != 0 && self.target_block_bytes >= 4096 && self.target_object_bytes
            >= self.target_block_bytes
    }

    pub fn validate(&self) -> (result: Result<(), String>)
        ensures
            result.is_ok() == self.valid(),
            result matches Err(message) ==> message@ == "invalid RFC-0044 object fixture profile"@,
    {
        if self.key_count <= 16 || self.value_bytes == 0 || self.target_block_bytes < 4096 || self.target_object_bytes
            < self.target_block_bytes {
            return Err("invalid RFC-0044 object fixture profile".to_owned());
        }
        Ok(())
    }
}

/// The manifest object one fixture descriptor names.
#[derive(Clone, Debug, PartialEq, Eq)]
pub struct FixtureManifestIdentityV1 {
    pub key: String,
    pub length: u64,
    pub sha256: String,
}

/// The semantic identity of one immutable logical object fixture.
#[derive(Clone, Debug, PartialEq, Eq)]
pub struct ObjectFixtureDescriptorV1 {
    pub schema_version: u32,
    pub generator_version: u32,
    pub seed: u64,
    pub key_count: u64,
    pub value_bytes: u64,
    pub logical_bytes: u64,
    pub logical_key_value_sha256: String,
    pub base_version: u64,
    pub row_object_format_version: u32,
    pub target_object_bytes: u64,
    pub target_block_bytes: u64,
    pub manifest: FixtureManifestIdentityV1,
    pub closure_sha256: String,
    pub object_count: u64,
    pub object_bytes: u64,
}

/// The semantic identity of one subject-local resident image.
#[derive(Clone, Debug, PartialEq, Eq)]
pub struct ResidentImageDescriptorV1 {
    pub schema_version: u32,
    pub fixture_id: String,
    pub tail_sha256: String,
    pub subject: String,
    pub engine_provider: String,
    pub engine_format_version: u32,
    pub options_sha256: String,
    pub applied_through: u64,
    pub record_count: u64,
    pub resident_logical_sha256: String,
}

/// The exact descriptor identity that reopens one persisted fixture.
#[derive(Clone, Debug, PartialEq, Eq)]
pub struct ObjectFixtureLocatorV1 {
    pub fixture_id: String,
    pub descriptor_length: u64,
    pub descriptor_sha256: String,
}

/// The cross-invocation identity and placement of one immutable fixture.
#[derive(Clone, Debug, PartialEq, Eq)]
pub struct FixturePlacementLocatorV1 {
    pub schema_version: u32,
    pub fixture: ObjectFixtureLocatorV1,
    pub base_version: u64,
    pub provider: String,
    pub bucket: String,
    pub prefix: String,
    pub descriptor_key: String,
    pub descriptor_generation: String,
    pub fixture_seed: u64,
    pub key_count: u64,
    pub value_bytes: u64,
    pub logical_bytes: u64,
    pub generator_version: u32,
    pub row_object_format_version: u32,
    pub target_object_bytes: u64,
    pub target_block_bytes: u64,
    pub source_sha256: String,
    pub suite_sha256: String,
    pub binary_sha256: String,
    pub cargo_lock_sha256: String,
    pub envelope_sha256: String,
}

/// One length-prefixed text field: its UTF-8 bytes, framed.
pub open spec fn text_field(text: Seq<char>) -> Seq<u8> {
    framed(utf8(text))
}

/// Append one length-prefixed text field.
fn push_text(bytes: &mut Vec<u8>, text: &str)
    ensures
        final(bytes)@ == old(bytes)@ + text_field(text@),
{
    let raw = text.as_bytes();
    let _n = raw.len();
    push_bytes(bytes, raw);
}

/// Append one length-prefixed byte field held in a vector.
fn push_vec(bytes: &mut Vec<u8>, value: &Vec<u8>)
    ensures
        final(bytes)@ == old(bytes)@ + framed(value@),
{
    let _n = value.len();
    push_bytes(bytes, value.as_slice());
}

/// The magic bytes `OKVF1` of a fixture identity.
pub open spec fn fixture_magic() -> Seq<u8> {
    seq![79u8, 75u8, 86u8, 70u8, 49u8]
}

/// The magic bytes `OKVFP1` of a placement identity.
pub open spec fn placement_magic() -> Seq<u8> {
    seq![79u8, 75u8, 86u8, 70u8, 80u8, 49u8]
}

/// The magic bytes `OKVRI1` of a resident image identity.
pub open spec fn resident_magic() -> Seq<u8> {
    seq![79u8, 75u8, 86u8, 82u8, 73u8, 49u8]
}

/// The frozen `OKVF1` field encoding of a fixture descriptor.
pub open spec fn fixture_identity_bytes(d: ObjectFixtureDescriptorV1) -> Seq<u8> {
    fixture_magic() + be_u32(d.schema_version) + be_u32(d.generator_version) + be_u64(d.seed) + be_u64(d.key_count)
        + be_u64(d.value_bytes) + be_u64(d.logical_bytes) + text_field(d.logical_key_value_sha256@) + be_u64(
        d.base_version,
    ) + be_u32(d.row_object_format_version) + be_u64(d.target_object_bytes) + be_u64(d.target_block_bytes)
        + text_field(d.manifest.key@) + be_u64(d.manifest.length) + text_field(d.manifest.sha256@) + text_field(
        d.closure_sha256@,
    ) + be_u64(d.object_count) + be_u64(d.object_bytes)
}

/// The frozen `OKVFP1` field encoding of a placement locator, without its
/// own envelope digest.
pub open spec fn placement_identity_bytes(l: FixturePlacementLocatorV1) -> Seq<u8> {
    placement_magic() + be_u32(l.schema_version) + text_field(l.fixture.fixture_id@) + be_u64(
        l.fixture.descriptor_length,
    ) + text_field(l.fixture.descriptor_sha256@) + be_u64(l.base_version) + text_field(l.provider@) + text_field(
        l.bucket@,
    ) + text_field(l.prefix@) + text_field(l.descriptor_key@) + text_field(l.descriptor_generation@) + be_u64(
        l.fixture_seed,
    ) + be_u64(l.key_count) + be_u64(l.value_bytes) + be_u64(l.logical_bytes) + be_u32(l.generator_version) + be_u32(
        l.row_object_format_version,
    ) + be_u64(l.target_object_bytes) + be_u64(l.target_block_bytes) + text_field(l.source_sha256@) + text_field(
        l.suite_sha256@,
    ) + text_field(l.binary_sha256@) + text_field(l.cargo_lock_sha256@)
}

/// The frozen `OKVRI1` field encoding of a resident image descriptor.
pub open spec fn resident_identity_bytes(d: ResidentImageDescriptorV1) -> Seq<u8> {
    resident_magic() + be_u32(d.schema_version) + text_field(d.fixture_id@) + text_field(d.tail_sha256@) + text_field(
        d.subject@,
    ) + text_field(d.engine_provider@) + be_u32(d.engine_format_version) + text_field(d.options_sha256@) + be_u64(
        d.applied_through,
    ) + be_u64(d.record_count) + text_field(d.resident_logical_sha256@)
}

/// The lowercase hexadecimal SHA-256 of some bytes, as text.
pub open spec fn content_sha256_text(bytes: Seq<u8>) -> Seq<char> {
    ascii_text(hex_lower(sha256_of(bytes)))
}

/// Encode a fixture descriptor's identity fields.
pub fn encode_fixture_identity(d: &ObjectFixtureDescriptorV1) -> (bytes: Vec<u8>)
    ensures
        bytes@ == fixture_identity_bytes(*d),
{
    let mut bytes: Vec<u8> = vec![79u8, 75u8, 86u8, 70u8, 49u8];
    push_u32(&mut bytes, d.schema_version);
    push_u32(&mut bytes, d.generator_version);
    push_u64(&mut bytes, d.seed);
    push_u64(&mut bytes, d.key_count);
    push_u64(&mut bytes, d.value_bytes);
    push_u64(&mut bytes, d.logical_bytes);
    push_text(&mut bytes, d.logical_key_value_sha256.as_str());
    push_u64(&mut bytes, d.base_version);
    push_u32(&mut bytes, d.row_object_format_version);
    push_u64(&mut bytes, d.target_object_bytes);
    push_u64(&mut bytes, d.target_block_bytes);
    push_text(&mut bytes, d.manifest.key.as_str());
    push_u64(&mut bytes, d.manifest.length);
    push_text(&mut bytes, d.manifest.sha256.as_str());
    push_text(&mut bytes, d.closure_sha256.as_str());
    push_u64(&mut bytes, d.object_count);
    push_u64(&mut bytes, d.object_bytes);
    assert(bytes@ =~= fixture_identity_bytes(*d));
    bytes
}

/// Encode a placement locator's identity fields.
pub fn encode_fixture_placement_identity(l: &FixturePlacementLocatorV1) -> (bytes: Vec<u8>)
    ensures
        bytes@ == placement_identity_bytes(*l),
{
    let mut bytes: Vec<u8> = vec![79u8, 75u8, 86u8, 70u8, 80u8, 49u8];
    push_u32(&mut bytes, l.schema_version);
    push_text(&mut bytes, l.fixture.fixture_id.as_str());
    push_u64(&mut bytes, l.fixture.descriptor_length);
    push_text(&mut bytes, l.fixture.descriptor_sha256.as_str());
    push_u64(&mut bytes, l.base_version);
    push_text(&mut bytes, l.provider.as_str());
    push_text(&mut bytes, l.bucket.as_str());
    push_text(&mut bytes, l.prefix.as_str());
    push_text(&mut bytes, l.descriptor_key.as_str());
    push_text(&mut bytes, l.descriptor_generation.as_str());
    push_u64(&mut bytes, l.fixture_seed);
    push_u64(&mut bytes, l.key_count);
    push_u64(&mut bytes, l.value_bytes);
    push_u64(&mut bytes, l.logical_bytes);
    push_u32(&mut bytes, l.generator_version);
    push_u32(&mut bytes, l.row_object_format_version);
    push_u64(&mut bytes, l.target_object_bytes);
    push_u64(&mut bytes, l.target_block_bytes);
    push_text(&mut bytes, l.source_sha256.as_str());
    push_text(&mut bytes, l.suite_sha256.as_str());
    push_text(&mut bytes, l.binary_sha256.as_str());
    push_text(&mut bytes, l.cargo_lock_sha256.as_str());
    assert(bytes@ =~= placement_identity_bytes(*l));
    bytes
}

/// Encode a resident image descriptor's identity fields.
pub fn encode_resident_identity(d: &ResidentImageDescriptorV1) -> (bytes: Vec<u8>)
    ensures
        bytes@ == resident_identity_bytes(*d),
{
    let mut bytes: Vec<u8> = vec![79u8, 75u8, 86u8, 82u8, 73u8, 49u8];
    push_u32(&mut bytes, d.schema_version);
    push_text(&mut bytes, d.fixture_id.as_str());
    push_text(&mut bytes, d.tail_sha256.as_str());
    push_text(&mut bytes, d.subject.as_str());
    push_text(&mut bytes, d.engine_provider.as_str());
    push_u32(&mut bytes, d.engine_format_version);
    push_text(&mut bytes, d.options_sha256.as_str());
    push_u64(&mut bytes, d.applied_through);
    push_u64(&mut bytes, d.record_count);
    push_text(&mut bytes, d.resident_logical_sha256.as_str());
    assert(bytes@ =~= resident_identity_bytes(*d));
    bytes
}

impl ObjectFixtureDescriptorV1 {
    /// The lowercase SHA-256 of the frozen `OKVF1` field encoding.
    pub fn fixture_id(&self) -> (id: String)
        ensures
            id@ == content_sha256_text(fixture_identity_bytes(*self)),
    {
        let bytes = encode_fixture_identity(self);
        sha256_hex(bytes.as_slice())
    }
}

impl ResidentImageDescriptorV1 {
    /// The lowercase SHA-256 of the frozen `OKVRI1` field encoding.
    pub fn resident_image_id(&self) -> (id: String)
        ensures
            id@ == content_sha256_text(resident_identity_bytes(*self)),
    {
        let bytes = encode_resident_identity(self);
        sha256_hex(bytes.as_slice())
    }
}

} // verus!

verus! {

/// A lowercase hexadecimal SHA-256: 64 bytes, each a digit or `a`-`f`.
pub open spec fn sha256_text_valid(text: Seq<char>) -> bool {
    let b = utf8(text);
    b.len() == 64 && forall|i: int| 0 <= i < b.len() ==> crate::codec::is_lower_hex_byte(#[trigger] b[i])
}

pub fn valid_sha256(value: &str) -> (valid: bool)
    ensures
        valid == sha256_text_valid(value@),
{
    let b = value.as_bytes();
    if b.len() != 64 {
        return false;
    }
    let mut i: usize = 0;
    while i < b.len()
        invariant
            i <= b@.len(),
            b@ == utf8(value@),
            forall|k: int| 0 <= k < i ==> crate::codec::is_lower_hex_byte(#[trigger] b@[k]),
        decreases b@.len() - i,
    {
        let byte = b[i];
        if !((48 <= byte && byte <= 57) || (97 <= byte && byte <= 102)) {
            return false;
        }
        i = i + 1;
    }
    true
}

/// A byte a bucket name may hold: a lowercase letter, a digit, `-`, `_` or `.`.
pub open spec fn bucket_byte(b: u8) -> bool {
    (97 <= b <= 122) || (48 <= b <= 57) || b == 45 || b == 95 || b == 46
}

/// A bucket name of 3 to 222 bytes drawn from `bucket_byte`, neither starting
/// nor ending with a dot.
pub open spec fn bucket_valid(text: Seq<char>) -> bool {
    let b = utf8(text);
    &&& 3 <= b.len() <= 222
    &&& b[0] != 46
    &&& b[b.len() - 1] != 46
    &&& forall|i: int| 0 <= i < b.len() ==> bucket_byte(#[trigger] b[i])
}

pub fn valid_bucket(value: &str) -> (valid: bool)
    ensures
        valid == bucket_valid(value@),
{
    let b = value.as_bytes();
    if b.len() < 3 || b.len() > 222 || b[0] == 46 || b[b.len() - 1] == 46 {
        return false;
    }
    let mut i: usize = 0;
    while i < b.len()
        invariant
            i <= b@.len(),
            b@ == utf8(value@),
            forall|k: int| 0 <= k < i ==> bucket_byte(#[trigger] b@[k]),
        decreases b@.len() - i,
    {
        let byte = b[i];
        if !((97 <= byte && byte <= 122) || (48 <= byte && byte <= 57) || byte == 45 || byte == 95 || byte == 46) {
            return false;
        }
        i = i + 1;
    }
    true
}

/// A `.` path component starts at `i`: a dot between slashes or ends.
pub open spec fn dot_component(b: Seq<u8>, i: int) -> bool {
    0 <= i < b.len() && b[i] == 46 && (i == 0 || b[i - 1] == 47) && (i + 1 == b.len() || b[i + 1] == 47)
}

/// A `..` path component starts at `i`.
pub open spec fn dot_dot_component(b: Seq<u8>, i: int) -> bool {
    0 <= i && i + 1 < b.len() && b[i] == 46 && b[i + 1] == 46 && (i == 0 || b[i - 1] == 47) && (i + 2 == b.len()
        || b[i + 2] == 47)
}

/// An object prefix: non-empty, no scheme, neither starting nor ending with a
/// slash, and, split at slashes, no empty, `.` or `..` component.
pub open spec fn prefix_valid(text: Seq<char>) -> bool {
    let b = utf8(text);
    &&& b.len() > 0
    &&& b[0] != 47
    &&& b[b.len() - 1] != 47
    &&& !crate::codec::contains_bytes(b, seq![58u8, 47u8, 47u8])
    &&& forall|i: int| 0 <= i < b.len() - 1 ==> !(b[i] == 47 && #[trigger] b[i + 1] == 47)
    &&& forall|i: int| !#[trigger] dot_component(b, i)
    &&& forall|i: int| !#[trigger] dot_dot_component(b, i)
}

pub fn valid_prefix(value: &str) -> (valid: bool)
    ensures
        valid == prefix_valid(value@),
{
    let b = value.as_bytes();
    let n = b.len();
    if n == 0 || b[0] == 47 || b[n - 1] == 47 {
        return false;
    }
    let scheme: Vec<u8> = vec![58u8, 47u8, 47u8];
    if crate::codec::find_bytes(b, scheme.as_slice()) {
        return false;
    }
    let mut i: usize = 0;
    while i < n
        invariant
            n == b@.len(),
            n > 0,
            i <= n,
            b@ == utf8(value@),
            forall|k: int| 0 <= k < i && k < n - 1 ==> !(b@[k] == 47 && #[trigger] b@[k + 1] == 47),
            forall|k: int| k < i ==> !#[trigger] dot_component(b@, k),
            forall|k: int| k < i ==> !#[trigger] dot_dot_component(b@, k),
        decreases n - i,
    {
        if i + 1 < n && b[i] == 47 && b[i + 1] == 47 {
            return false;
        }
        let starts = i == 0 || b[i - 1] == 47;
        if starts && b[i] == 46 && (i + 1 == n || b[i + 1] == 47) {
            assert(dot_component(b@, i as int));
            return false;
        }
        if starts && i + 1 < n && b[i] == 46 && b[i + 1] == 46 && (i + 2 == n || b[i + 2] == 47) {
            assert(dot_dot_component(b@, i as int));
            return false;
        }
        i = i + 1;
    }
    assert forall|k: int| !#[trigger] dot_component(b@, k) by {
        if k >= n {
        }
    }
    true
}

/// The object key of a content-addressed blob.
pub open spec fn content_key_text(sha256: Seq<char>) -> Seq<char> {
    "fixtures/single-range/v1/blobs/sha256/"@ + sha256
}

pub fn content_key(sha256: &str) -> (key: String)
    ensures
        key@ == content_key_text(sha256@),
{
    message2("fixtures/single-range/v1/blobs/sha256/", sha256)
}

/// The object key of a fixture descriptor.
pub open spec fn descriptor_key_text(fixture_id: Seq<char>) -> Seq<char> {
    "fixtures/single-range/v1/descriptors/"@ + fixture_id + ".json"@
}

pub fn descriptor_key(fixture_id: &str) -> (key: String)
    ensures
        key@ == descriptor_key_text(fixture_id@),
{
    message3("fixtures/single-range/v1/descriptors/", fixture_id, ".json")
}

/// A descriptor generation: a non-empty run of ASCII digits.
pub open spec fn generation_valid(text: Seq<char>) -> bool {
    let b = utf8(text);
    b.len() > 0 && forall|i: int| 0 <= i < b.len() ==> 48 <= #[trigger] b[i] <= 57
}

fn valid_generation(value: &str) -> (valid: bool)
    ensures
        valid == generation_valid(value@),
{
    let b = value.as_bytes();
    if b.len() == 0 {
        return false;
    }
    let mut i: usize = 0;
    while i < b.len()
        invariant
            i <= b@.len(),
            b@ == utf8(value@),
            forall|k: int| 0 <= k < i ==> 48 <= #[trigger] b@[k] <= 57,
        decreases b@.len() - i,
    {
        if b[i] < 48 || b[i] > 57 {
            return false;
        }
        i = i + 1;
    }
    true
}

impl FixturePlacementLocatorV1 {
    /// The canonical envelope digest, computed without trusting the
    /// serialized `envelope_sha256` field.
    pub fn calculated_envelope_sha256(&self) -> (digest: String)
        ensures
            digest@ == content_sha256_text(placement_identity_bytes(*self)),
    {
        let bytes = encode_fixture_placement_identity(self);
        sha256_hex(bytes.as_slice())
    }

    /// The placement's profile and identity fields are present, well formed and
    /// consistent with one another.
    pub open spec fn profile_valid(self) -> bool {
        &&& self.schema_version == 1
        &&& self.base_version != 0
        &&& self.provider@ == "gcs"@
        &&& bucket_valid(self.bucket@)
        &&& prefix_valid(self.prefix@)
        &&& self.fixture_seed != 0
        &&& self.key_count != 0
        &&& self.value_bytes != 0
        &&& self.logical_bytes == sat_mul(self.key_count, self.value_bytes)
        &&& self.generator_version == 1
        &&& self.row_object_format_version == 1
        &&& self.target_block_bytes >= 4096
        &&& self.target_object_bytes >= self.target_block_bytes
        &&& self.fixture.descriptor_length != 0
    }

    /// Every identity digest is well formed, the descriptor key and the
    /// generation are canonical, and the envelope digest is the calculated one.
    pub open spec fn identity_valid(self) -> bool {
        &&& sha256_text_valid(self.fixture.fixture_id@)
        &&& sha256_text_valid(self.fixture.descriptor_sha256@)
        &&& self.descriptor_key@ == descriptor_key_text(self.fixture.fixture_id@)
        &&& generation_valid(self.descriptor_generation@)
        &&& sha256_text_valid(self.source_sha256@)
        &&& sha256_text_valid(self.suite_sha256@)
        &&& sha256_text_valid(self.binary_sha256@)
        &&& sha256_text_valid(self.cargo_lock_sha256@)
        &&& sha256_text_valid(self.envelope_sha256@)
        &&& self.envelope_sha256@ == content_sha256_text(placement_identity_bytes(self))
    }

    fn profile_fields_valid(&self) -> (valid: bool)
        ensures
            valid == self.profile_valid(),
    {
        self.schema_version == 1 && self.base_version != 0 && text_equal(self.provider.as_str(), "gcs")
            && valid_bucket(self.bucket.as_str()) && valid_prefix(self.prefix.as_str()) && self.fixture_seed != 0
            && self.key_count != 0 && self.value_bytes != 0 && self.logical_bytes == saturating_mul_u64(
            self.key_count,
            self.value_bytes,
        ) && self.generator_version == 1 && self.row_object_format_version == 1 && self.target_block_bytes
            >= 4096 && self.target_object_bytes >= self.target_block_bytes && self.fixture.descriptor_length != 0
    }

    fn identity_fields_valid(&self) -> (valid: bool)
        ensures
            valid == self.identity_valid(),
    {
        if !(valid_sha256(self.fixture.fixture_id.as_str()) && valid_sha256(self.fixture.descriptor_sha256.as_str())) {
            return false;
        }
        let key = descriptor_key(self.fixture.fixture_id.as_str());
        if !text_equal(self.descriptor_key.as_str(), key.as_str()) {
            return false;
        }
        if !valid_generation(self.descriptor_generation.as_str()) {
            return false;
        }
        if !(valid_sha256(self.source_sha256.as_str()) && valid_sha256(self.suite_sha256.as_str()) && valid_sha256(
            self.binary_sha256.as_str(),
        ) && valid_sha256(self.cargo_lock_sha256.as_str()) && valid_sha256(self.envelope_sha256.as_str())) {
            return false;
        }
        let calculated = self.calculated_envelope_sha256();
        text_equal(self.envelope_sha256.as_str(), calculated.as_str())
    }

    /// Validate the semantic identity, placement, frozen profile and build
    /// envelope fields.
    pub fn validate(&self) -> (result: Result<(), String>)
        ensures
            result.is_ok() == (self.profile_valid() && self.identity_valid()),
            result matches Err(message) ==> message@ == "invalid RFC-0044 fixture placement locator"@,
    {
        if !self.profile_fields_valid() || !self.identity_fields_valid() {
            return Err("invalid RFC-0044 fixture placement locator".to_owned());
        }
        Ok(())
    }
}

/// What accepting a decoded locator yields, given the expected envelope.
pub open spec fn acceptance(decoded: Result<FixturePlacementLocatorV1, String>, expected: Seq<char>) -> Result<
    FixturePlacementLocatorV1,
    Seq<char>,
> {
    if !sha256_text_valid(expected) {
        Err("expected fixture locator envelope SHA-256 is invalid"@)
    } else {
        match decoded {
            Err(e) => Err(e@),
            Ok(locator) => if !(locator.profile_valid() && locator.identity_valid()) {
                Err("invalid RFC-0044 fixture placement locator"@)
            } else if locator.envelope_sha256@ != expected {
                Err("fixture locator envelope identity mismatch"@)
            } else {
                Ok(locator)
            },
        }
    }
}

/// Accept a decoded placement locator only against an independently supplied
/// envelope digest: the expected digest must be well formed, the bytes must
/// have decoded (`decoded` is the decoding's outcome), the locator must
/// validate, and its envelope must be the expected one.
pub fn accept_fixture_placement_locator(
    decoded: Result<FixturePlacementLocatorV1, String>,
    expected_envelope_sha256: &str,
) -> (result: Result<FixturePlacementLocatorV1, String>)
    ensures
        match (result, acceptance(decoded, expected_envelope_sha256@)) {
            (Ok(accepted), Ok(expected)) => accepted == expected,
            (Err(message), Err(expected)) => message@ == expected,
            _ => false,
        },
{
    if !valid_sha256(expected_envelope_sha256) {
        return Err("expected fixture locator envelope SHA-256 is invalid".to_owned());
    }
    let locator = match decoded {
        Ok(locator) => locator,
        Err(e) => return Err(e),
    };
    match locator.validate() {
        Ok(()) => {},
        Err(e) => return Err(e),
    }
    if !text_equal(locator.envelope_sha256.as_str(), expected_envelope_sha256) {
        return Err("fixture locator envelope identity mismatch".to_owned());
    }
    Ok(locator)
}

/// Whether a descriptor is valid for the anchor version it claims.
pub open spec fn descriptor_valid(d: ObjectFixtureDescriptorV1, anchor_version: u64) -> bool {
    &&& d.schema_version == 1
    &&& d.generator_version == 1
    &&& d.seed != 0
    &&& d.key_count != 0
    &&& d.value_bytes != 0
    &&& d.logical_bytes == sat_mul(d.key_count, d.value_bytes)
    &&& d.base_version == anchor_version
    &&& d.row_object_format_version == 1
    &&& d.target_block_bytes >= 4096
    &&& d.target_object_bytes >= d.target_block_bytes
    &&& d.manifest.key@ == content_key_text(d.manifest.sha256@)
    &&& d.manifest.length != 0
    &&& d.object_count >= 3
    &&& d.object_bytes >= d.manifest.length
    &&& sha256_text_valid(d.logical_key_value_sha256@)
    &&& sha256_text_valid(d.manifest.sha256@)
    &&& sha256_text_valid(d.closure_sha256@)
}

/// Validate a fixture descriptor against the anchor version.
pub fn validate_descriptor(descriptor: &ObjectFixtureDescriptorV1, anchor_version: u64) -> (result: Result<(), String>)
    ensures
        result.is_ok() == descriptor_valid(*descriptor, anchor_version),
        result matches Err(message) ==> message@ == "invalid RFC-0044 fixture descriptor"@,
{
    let d = descriptor;
    let key = content_key(d.manifest.sha256.as_str());
    let shape = d.schema_version == 1 && d.generator_version == 1 && d.seed != 0 && d.key_count != 0
        && d.value_bytes != 0 && d.logical_bytes == saturating_mul_u64(d.key_count, d.value_bytes) && d.base_version
        == anchor_version && d.row_object_format_version == 1 && d.target_block_bytes >= 4096
        && d.target_object_bytes >= d.target_block_bytes;
    let manifest = text_equal(d.manifest.key.as_str(), key.as_str()) && d.manifest.length != 0 && d.object_count >= 3
        && d.object_bytes >= d.manifest.length;
    let digests = valid_sha256(d.logical_key_value_sha256.as_str()) && valid_sha256(d.manifest.sha256.as_str())
        && valid_sha256(d.closure_sha256.as_str());
    if !(shape && manifest && digests) {
        return Err("invalid RFC-0044 fixture descriptor".to_owned());
    }
    Ok(())
}

/// A fixture as built or reopened: its descriptor and the descriptor's bytes
/// and identities.
#[derive(Clone, Debug, PartialEq, Eq)]
pub struct BuiltFixture {
    pub descriptor: ObjectFixtureDescriptorV1,
    pub fixture_id: String,
    pub descriptor_sha256: String,
    pub descriptor_bytes: Vec<u8>,
    pub reused: bool,
}

impl BuiltFixture {
    /// The locator that reopens this fixture by its exact descriptor identity.
    pub fn locator(&self) -> (locator: ObjectFixtureLocatorV1)
        ensures
            locator.fixture_id@ == self.fixture_id@,
            locator.descriptor_sha256@ == self.descriptor_sha256@,
            locator.descriptor_length == if self.descriptor_bytes@.len() <= u64::MAX {
                self.descriptor_bytes@.len() as u64
            } else {
                u64::MAX
            },
    {
        let length = self.descriptor_bytes.len();
        let descriptor_length: u64 = if length as u128 <= u64::MAX as u128 { length as u64 } else { u64::MAX };
        ObjectFixtureLocatorV1 {
            fixture_id: self.fixture_id.clone(),
            descriptor_length,
            descriptor_sha256: self.descriptor_sha256.clone(),
        }
    }
}

} // verus!

verus! {

/// A key range is usable when its start sorts strictly before its end.
pub open spec fn range_valid(range: crate::transaction::KeyRange) -> bool {
    !crate::codec::lex_le(range.end@, range.start@)
}

pub open spec fn range_bytes(range: crate::transaction::KeyRange) -> Seq<u8> {
    framed(range.start@) + framed(range.end@)
}

/// The concatenated encodings of the first `n` ranges.
pub open spec fn ranges_body(ranges: Seq<crate::transaction::KeyRange>, n: nat) -> Seq<u8>
    decreases n,
{
    if n == 0 || n > ranges.len() {
        Seq::empty()
    } else {
        ranges_body(ranges, (n - 1) as nat) + range_bytes(ranges[n - 1])
    }
}

pub open spec fn ranges_bytes(ranges: Seq<crate::transaction::KeyRange>) -> Seq<u8> {
    be_u64(ranges.len() as u64) + ranges_body(ranges, ranges.len())
}

pub open spec fn all_ranges_valid(ranges: Seq<crate::transaction::KeyRange>) -> bool {
    forall|i: int| 0 <= i < ranges.len() ==> range_valid(#[trigger] ranges[i])
}

pub open spec fn mutation_bytes(mutation: crate::transaction::Mutation) -> Seq<u8> {
    match mutation {
        crate::transaction::Mutation::SetValue { key, value } => seq![1u8] + framed(key@) + framed(value@),
        crate::transaction::Mutation::Clear { key } => seq![2u8] + framed(key@),
        crate::transaction::Mutation::ClearRange { range } => seq![3u8] + range_bytes(range),
    }
}

pub open spec fn mutation_valid(mutation: crate::transaction::Mutation) -> bool {
    match mutation {
        crate::transaction::Mutation::ClearRange { range } => range_valid(range),
        _ => true,
    }
}

pub open spec fn mutations_body(mutations: Seq<crate::transaction::Mutation>, n: nat) -> Seq<u8>
    decreases n,
{
    if n == 0 || n > mutations.len() {
        Seq::empty()
    } else {
        mutations_body(mutations, (n - 1) as nat) + mutation_bytes(mutations[n - 1])
    }
}

/// The frozen encoding of one transaction command.
pub open spec fn command_bytes(command: crate::transaction::TransactionCommand) -> Seq<u8> {
    be_u64(command.read_version) + ranges_bytes(command.read_conflicts@) + ranges_bytes(command.write_conflicts@)
        + be_u64(command.mutations@.len() as u64) + mutations_body(command.mutations@, command.mutations@.len())
}

/// Every key range a command holds is usable.
pub open spec fn command_valid(command: crate::transaction::TransactionCommand) -> bool {
    &&& all_ranges_valid(command.read_conflicts@)
    &&& all_ranges_valid(command.write_conflicts@)
    &&& forall|i: int| 0 <= i < command.mutations@.len() ==> mutation_valid(#[trigger] command.mutations@[i])
}

pub open spec fn record_bytes(record: crate::transaction::RetainedTransactionRecord) -> Seq<u8> {
    be_u64(record.commit_version) + crate::codec::be_u16(record.batch_order) + command_bytes(record.command)
}

pub open spec fn records_body(records: Seq<crate::transaction::RetainedTransactionRecord>, n: nat) -> Seq<u8>
    decreases n,
{
    if n == 0 || n > records.len() {
        Seq::empty()
    } else {
        records_body(records, (n - 1) as nat) + record_bytes(records[n - 1])
    }
}

/// The magic bytes `OKVFT1` of a retained tail.
pub open spec fn tail_magic() -> Seq<u8> {
    seq![79u8, 75u8, 86u8, 70u8, 84u8, 49u8]
}

/// The frozen `OKVFT1` encoding of a retained tail.
pub open spec fn tail_bytes(records: Seq<crate::transaction::RetainedTransactionRecord>) -> Seq<u8> {
    tail_magic() + be_u64(records.len() as u64) + records_body(records, records.len())
}

/// Every record of the tail has usable key ranges.
pub open spec fn tail_valid(records: Seq<crate::transaction::RetainedTransactionRecord>) -> bool {
    forall|i: int| 0 <= i < records.len() ==> command_valid(#[trigger] records[i].command)
}

fn encode_range(bytes: &mut Vec<u8>, range: &crate::transaction::KeyRange) -> (ok: bool)
    ensures
        ok == range_valid(*range),
        ok ==> final(bytes)@ == old(bytes)@ + range_bytes(*range),
{
    if crate::codec::bytes_le(range.end.as_slice(), range.start.as_slice()) {
        return false;
    }
    push_vec(bytes, &range.start);
    push_vec(bytes, &range.end);
    assert(bytes@ =~= old(bytes)@ + range_bytes(*range));
    true
}

fn encode_ranges(bytes: &mut Vec<u8>, ranges: &Vec<crate::transaction::KeyRange>) -> (ok: bool)
    ensures
        ok == all_ranges_valid(ranges@),
        ok ==> final(bytes)@ == old(bytes)@ + ranges_bytes(ranges@),
{
    let ghost start = bytes@;
    push_u64(bytes, ranges.len() as u64);
    let mut k: usize = 0;
    while k < ranges.len()
        invariant
            k <= ranges@.len(),
            bytes@ == start + be_u64(ranges@.len() as u64) + ranges_body(ranges@, k as nat),
            forall|i: int| 0 <= i < k ==> range_valid(#[trigger] ranges@[i]),
        decreases ranges@.len() - k,
    {
        if !encode_range(bytes, &ranges[k]) {
            return false;
        }
        assert(bytes@ =~= start + be_u64(ranges@.len() as u64) + ranges_body(ranges@, (k + 1) as nat));
        k = k + 1;
    }
    true
}

fn encode_mutation(bytes: &mut Vec<u8>, mutation: &crate::transaction::Mutation) -> (ok: bool)
    ensures
        ok == mutation_valid(*mutation),
        ok ==> final(bytes)@ == old(bytes)@ + mutation_bytes(*mutation),
{
    match mutation {
        crate::transaction::Mutation::SetValue { key, value } => {
            bytes.push(1u8);
            push_vec(bytes, key);
            push_vec(bytes, value);
            assert(bytes@ =~= old(bytes)@ + mutation_bytes(*mutation));
            true
        },
        crate::transaction::Mutation::Clear { key } => {
            bytes.push(2u8);
            push_vec(bytes, key);
            assert(bytes@ =~= old(bytes)@ + mutation_bytes(*mutation));
            true
        },
        crate::transaction::Mutation::ClearRange { range } => {
            bytes.push(3u8);
            let ok = encode_range(bytes, range);
            if ok {
                assert(bytes@ =~= old(bytes)@ + mutation_bytes(*mutation));
            }
            ok
        },
    }
}

fn encode_command(bytes: &mut Vec<u8>, command: &crate::transaction::TransactionCommand) -> (ok: bool)
    ensures
        ok == command_valid(*command),
        ok ==> final(bytes)@ == old(bytes)@ + command_bytes(*command),
{
    let ghost start = bytes@;
    push_u64(bytes, command.read_version);
    if !encode_ranges(bytes, &command.read_conflicts) {
        return false;
    }
    if !encode_ranges(bytes, &command.write_conflicts) {
        return false;
    }
    let ghost head = bytes@;
    push_u64(bytes, command.mutations.len() as u64);
    let mut k: usize = 0;
    while k < command.mutations.len()
        invariant
            k <= command.mutations@.len(),
            bytes@ == head + be_u64(command.mutations@.len() as u64) + mutations_body(command.mutations@, k as nat),
            forall|i: int| 0 <= i < k ==> mutation_valid(#[trigger] command.mutations@[i]),
        decreases command.mutations@.len() - k,
    {
        if !encode_mutation(bytes, &command.mutations[k]) {
            return false;
        }
        assert(bytes@ =~= head + be_u64(command.mutations@.len() as u64) + mutations_body(
            command.mutations@,
            (k + 1) as nat,
        ));
        k = k + 1;
    }
    assert(bytes@ =~= start + command_bytes(*command));
    true
}

/// Encode a retained tail, or `None` when a key range in it is unusable.
pub fn encode_tail(records: &Vec<crate::transaction::RetainedTransactionRecord>) -> (encoded: Option<Vec<u8>>)
    ensures
        encoded.is_some() == tail_valid(records@),
        encoded matches Some(bytes) ==> bytes@ == tail_bytes(records@),
{
    let mut bytes: Vec<u8> = vec![79u8, 75u8, 86u8, 70u8, 84u8, 49u8];
    push_u64(&mut bytes, records.len() as u64);
    let ghost head = bytes@;
    let mut k: usize = 0;
    while k < records.len()
        invariant
            k <= records@.len(),
            head == tail_magic() + be_u64(records@.len() as u64),
            bytes@ == head + records_body(records@, k as nat),
            forall|i: int| 0 <= i < k ==> command_valid(#[trigger] records@[i].command),
        decreases records@.len() - k,
    {
        let record = &records[k];
        let ghost before = bytes@;
        push_u64(&mut bytes, record.commit_version);
        crate::codec::push_u16(&mut bytes, record.batch_order);
        if !encode_command(&mut bytes, &record.command) {
            assert(!command_valid(records@[k as int].command));
            return None;
        }
        assert(bytes@ =~= head + records_body(records@, (k + 1) as nat));
        k = k + 1;
    }
    Some(bytes)
}

/// The content digest of a retained tail.
pub fn tail_sha256(records: &Vec<crate::transaction::RetainedTransactionRecord>) -> (digest: Result<String, String>)
    ensures
        match digest {
            Ok(text) => tail_valid(records@) && text@ == content_sha256_text(tail_bytes(records@)),
            Err(message) => !tail_valid(records@) && message@ == "fixture tail contains an invalid key range"@,
        },
{
    match encode_tail(records) {
        Some(bytes) => Ok(sha256_hex(bytes.as_slice())),
        None => Err("fixture tail contains an invalid key range".to_owned()),
    }
}

/// The records strictly increase by commit version, then batch order.
pub open spec fn tail_ordered(records: Seq<crate::transaction::RetainedTransactionRecord>) -> bool {
    forall|i: int|
        0 <= i < records.len() - 1 ==> {
            let a = #[trigger] records[i];
            let b = records[i + 1];
            a.commit_version < b.commit_version || (a.commit_version == b.commit_version && a.batch_order
                < b.batch_order)
        }
}

/// The retained tail a fixture expects: seven records.
pub open spec fn expected_tail_records() -> nat {
    7
}

/// What checking a retained tail against an expected digest yields.
pub open spec fn tail_check(expected: Seq<char>, records: Seq<crate::transaction::RetainedTransactionRecord>) -> Result<
    (),
    Seq<char>,
> {
    if records.len() != expected_tail_records() || !tail_ordered(records) {
        Err("fixture retained tail identity mismatch"@)
    } else if !tail_valid(records) {
        Err("fixture tail contains an invalid key range"@)
    } else if content_sha256_text(tail_bytes(records)) != expected {
        Err("fixture retained tail identity mismatch"@)
    } else {
        Ok(())
    }
}

/// Check a retained tail against the digest the resident image recorded: it
/// must hold exactly the expected records, strictly ordered, with that digest.
pub fn validate_tail(expected_sha256: &str, records: &Vec<crate::transaction::RetainedTransactionRecord>) -> (result:
    Result<(), String>)
    ensures
        match (result, tail_check(expected_sha256@, records@)) {
            (Ok(()), Ok(())) => true,
            (Err(message), Err(expected)) => message@ == expected,
            _ => false,
        },
{
    if records.len() != 7 {
        return Err("fixture retained tail identity mismatch".to_owned());
    }
    let mut k: usize = 0;
    while k + 1 < records.len()
        invariant
            records@.len() == 7,
            k < 7,
            forall|i: int|
                0 <= i < k ==> {
                    let a = #[trigger] records@[i];
                    let b = records@[i + 1];
                    a.commit_version < b.commit_version || (a.commit_version == b.commit_version
                        && a.batch_order < b.batch_order)
                },
        decreases 7 - k,
    {
        let a = &records[k];
        let b = &records[k + 1];
        if !(a.commit_version < b.commit_version || (a.commit_version == b.commit_version && a.batch_order
            < b.batch_order)) {
            return Err("fixture retained tail identity mismatch".to_owned());
        }
        k = k + 1;
    }
    let digest = match tail_sha256(records) {
        Ok(digest) => digest,
        Err(e) => return Err(e),
    };
    if !text_equal(digest.as_str(), expected_sha256) {
        return Err("fixture retained tail identity mismatch".to_owned());
    }
    Ok(())
}

} // verus!

verus! {

/// The domain tag every fixture value digest starts with.
pub open spec fn value_tag() -> Seq<u8> {
    seq![
        79u8, 75u8, 86u8, 45u8, 83u8, 69u8, 82u8, 86u8, 73u8, 78u8, 71u8, 45u8, 79u8, 80u8, 69u8, 78u8, 82u8,
        65u8, 70u8, 84u8, 45u8, 82u8, 69u8, 67u8, 79u8, 86u8, 69u8, 82u8, 89u8, 45u8, 86u8, 49u8, 0u8,
    ]
}

/// The digest input of block `counter` of a fixture value.
pub open spec fn value_block_preimage(seed: u64, domain: Seq<u8>, counter: u64) -> Seq<u8> {
    value_tag() + be_u64(seed) + domain + be_u64(counter)
}

/// The concatenated digests of blocks `0..blocks`.
pub open spec fn value_stream(seed: u64, domain: Seq<u8>, blocks: nat) -> Seq<u8>
    decreases blocks,
{
    if blocks == 0 {
        Seq::empty()
    } else {
        value_stream(seed, domain, (blocks - 1) as nat) + sha256_of(value_block_preimage(seed, domain, (blocks - 1) as u64))
    }
}

/// A fixture value: the first `length` bytes of the digest stream of the seed
/// and domain.
pub open spec fn fixture_value(seed: u64, domain: Seq<u8>, length: nat) -> Seq<u8> {
    value_stream(seed, domain, crate::digest::blocks_for(length)).take(length as int)
}

/// The deterministic value of `length` bytes for a seed and domain.
pub fn deterministic_value(seed: u64, domain: &[u8], length: usize) -> (value: Vec<u8>)
    requires
        length + 32 <= usize::MAX,
    ensures
        value@ == fixture_value(seed, domain@, length as nat),
        value@.len() == length,
{
    let tag: Vec<u8> = vec![
        79u8, 75u8, 86u8, 45u8, 83u8, 69u8, 82u8, 86u8, 73u8, 78u8, 71u8, 45u8, 79u8, 80u8, 69u8, 78u8, 82u8,
        65u8, 70u8, 84u8, 45u8, 82u8, 69u8, 67u8, 79u8, 86u8, 69u8, 82u8, 89u8, 45u8, 86u8, 49u8, 0u8,
    ];
    let mut value: Vec<u8> = Vec::new();
    let mut counter: u64 = 0;
    while value.len() < length
        invariant
            length + 32 <= usize::MAX,
            tag@ == value_tag(),
            value@ == value_stream(seed, domain@, counter as nat),
            value@.len() == 32 * counter,
            32 * counter < length + 32,
        decreases length + 32 - value@.len(),
    {
        let mut preimage: Vec<u8> = Vec::new();
        extend_bytes(&mut preimage, tag.as_slice());
        push_u64(&mut preimage, seed);
        extend_bytes(&mut preimage, domain);
        push_u64(&mut preimage, counter);
        assert(preimage@ =~= value_block_preimage(seed, domain@, counter));
        let digest = sha256(preimage.as_slice());
        extend_bytes(&mut value, digest.as_slice());
        counter = counter + 1;
    }
    assert(counter == crate::digest::blocks_for(length as nat)) by (nonlinear_arith)
        requires
            32 * counter >= length,
            32 * counter < length + 32,
    ;
    value.truncate(length);
    value
}

/// The key of fixture key `key_id`: its big-endian bytes.
pub fn key_bytes(key_id: u64) -> (key: Vec<u8>)
    ensures
        key@ == be_u64(key_id),
{
    let mut key: Vec<u8> = Vec::new();
    push_u64(&mut key, key_id);
    assert(key@ =~= be_u64(key_id));
    key
}

/// The domain of base values.
pub open spec fn base_domain() -> Seq<u8> {
    seq![98u8, 97u8, 115u8, 101u8]
}

/// The base value of fixture key `key_id`.
pub open spec fn base_value_spec(seed: u64, key_id: u64, length: nat) -> Seq<u8> {
    fixture_value(seed ^ rotl(key_id, 17), base_domain(), length)
}

pub fn base_value(seed: u64, key_id: u64, length: usize) -> (value: Vec<u8>)
    requires
        length + 32 <= usize::MAX,
    ensures
        value@ == base_value_spec(seed, key_id, length as nat),
{
    let domain: Vec<u8> = vec![98u8, 97u8, 115u8, 101u8];
    deterministic_value(seed ^ rotate_left_17(key_id), domain.as_slice(), length)
}

/// The seed offset of tail values.
pub open spec fn tail_seed_mask() -> u64 {
    0x5441_494c_5641_4c55u64
}

pub fn tail_value(seed: u64, domain: &[u8], length: usize) -> (value: Vec<u8>)
    requires
        length + 32 <= usize::MAX,
    ensures
        value@ == fixture_value(seed ^ tail_seed_mask(), domain@, length as nat),
{
    deterministic_value(seed ^ 0x5441_494c_5641_4c55u64, domain, length)
}

} // verus!

verus! {

/// A mutation as plain values: its kind (1 set, 2 clear, 3 clear range) and
/// its key and value, or its range's start and end.
pub open spec fn mutation_shape(m: crate::transaction::Mutation) -> (u8, Seq<u8>, Seq<u8>) {
    match m {
        crate::transaction::Mutation::SetValue { key, value } => (1u8, key@, value@),
        crate::transaction::Mutation::Clear { key } => (2u8, key@, Seq::empty()),
        crate::transaction::Mutation::ClearRange { range } => (3u8, range.start@, range.end@),
    }
}

/// A one-mutation command at `read_version`, with no read conflicts and one
/// write conflict range.
pub open spec fn single_command(
    c: crate::transaction::TransactionCommand,
    read_version: u64,
    conflict: (Seq<u8>, Seq<u8>),
    mutation: (u8, Seq<u8>, Seq<u8>),
) -> bool {
    &&& c.read_version == read_version
    &&& c.read_conflicts@.len() == 0
    &&& c.write_conflicts@.len() == 1
    &&& c.write_conflicts@[0].start@ == conflict.0
    &&& c.write_conflicts@[0].end@ == conflict.1
    &&& c.mutations@.len() == 1
    &&& mutation_shape(c.mutations@[0]) == mutation
}

/// The point conflict range of fixture key `key_id`.
pub open spec fn point_conflict(key_id: u64) -> (Seq<u8>, Seq<u8>) {
    (be_u64(key_id), be_u64(key_id).push(0u8))
}

/// A point command on fixture key `key_id`.
pub fn point_command(read_version: u64, key_id: u64, mutation: crate::transaction::Mutation) -> (command:
    crate::transaction::TransactionCommand)
    ensures
        single_command(command, read_version, point_conflict(key_id), mutation_shape(mutation)),
{
    let key = key_bytes(key_id);
    let range = crate::transaction::KeyRange::point(key.as_slice());
    crate::transaction::TransactionCommand {
        read_version,
        read_conflicts: Vec::new(),
        write_conflicts: vec![range],
        mutations: vec![mutation],
    }
}

pub open spec fn tail_value_spec(seed: u64, domain: Seq<u8>, length: usize) -> Seq<u8> {
    fixture_value(seed ^ tail_seed_mask(), domain, length as nat)
}

pub open spec fn domain_initial_update() -> Seq<u8> {
    seq![105u8, 110u8, 105u8, 116u8, 105u8, 97u8, 108u8, 45u8, 117u8, 112u8, 100u8, 97u8, 116u8, 101u8]
}

pub open spec fn domain_initial_insert() -> Seq<u8> {
    seq![105u8, 110u8, 105u8, 116u8, 105u8, 97u8, 108u8, 45u8, 105u8, 110u8, 115u8, 101u8, 114u8, 116u8]
}

pub open spec fn domain_concurrent_update() -> Seq<u8> {
    seq![99u8, 111u8, 110u8, 99u8, 117u8, 114u8, 114u8, 101u8, 110u8, 116u8, 45u8, 117u8, 112u8, 100u8, 97u8, 116u8, 101u8]
}

pub open spec fn domain_concurrent_insert() -> Seq<u8> {
    seq![99u8, 111u8, 110u8, 99u8, 117u8, 114u8, 114u8, 101u8, 110u8, 116u8, 45u8, 105u8, 110u8, 115u8, 101u8, 114u8, 116u8]
}

/// The seven tail commands a fixture commits after its base: update, clear
/// and insert three keys, then update, clear and insert three more, then
/// clear the key range `[10, 14)`.
pub open spec fn tail_commands_hold(
    commands: Seq<crate::transaction::TransactionCommand>,
    seed: u64,
    profile: ObjectFixtureProfile,
    base: u64,
) -> bool {
    let n = profile.value_bytes;
    let first_insert = crate::codec::sat_add(profile.key_count, 1);
    let second_insert = crate::codec::sat_add(profile.key_count, 2);
    &&& commands.len() == 7
    &&& single_command(commands[0], base, point_conflict(2), (1u8, be_u64(2), tail_value_spec(seed, domain_initial_update(), n)))
    &&& single_command(commands[1], base, point_conflict(3), (2u8, be_u64(3), Seq::empty()))
    &&& single_command(
        commands[2],
        base,
        point_conflict(first_insert),
        (1u8, be_u64(first_insert), tail_value_spec(seed, domain_initial_insert(), n)),
    )
    &&& single_command(commands[3], base, point_conflict(4), (1u8, be_u64(4), tail_value_spec(seed, domain_concurrent_update(), n)))
    &&& single_command(commands[4], base, point_conflict(5), (2u8, be_u64(5), Seq::empty()))
    &&& single_command(
        commands[5],
        base,
        point_conflict(second_insert),
        (1u8, be_u64(second_insert), tail_value_spec(seed, domain_concurrent_insert(), n)),
    )
    &&& single_command(commands[6], base, (be_u64(10), be_u64(14)), (3u8, be_u64(10), be_u64(14)))
}

fn set_mutation(key_id: u64, seed: u64, domain: Vec<u8>, length: usize) -> (m: crate::transaction::Mutation)
    requires
        length + 32 <= usize::MAX,
    ensures
        mutation_shape(m) == (1u8, be_u64(key_id), tail_value_spec(seed, domain@, length)),
{
    crate::transaction::Mutation::SetValue { key: key_bytes(key_id), value: tail_value(seed, domain.as_slice(), length) }
}

fn clear_mutation(key_id: u64) -> (m: crate::transaction::Mutation)
    ensures
        mutation_shape(m) == (2u8, be_u64(key_id), Seq::<u8>::empty()),
{
    crate::transaction::Mutation::Clear { key: key_bytes(key_id) }
}

/// The commands of a fixture's retained tail, read at the base version.
pub fn tail_commands(seed: u64, profile: &ObjectFixtureProfile, base_version: u64) -> (commands: Vec<
    crate::transaction::TransactionCommand,
>)
    requires
        profile.value_bytes + 32 <= usize::MAX,
    ensures
        tail_commands_hold(commands@, seed, *profile, base_version),
{
    let n = profile.value_bytes;
    let first_insert = profile.key_count.saturating_add(1);
    let second_insert = profile.key_count.saturating_add(2);
    let c0 = point_command(
        base_version,
        2,
        set_mutation(2, seed, vec![105u8, 110u8, 105u8, 116u8, 105u8, 97u8, 108u8, 45u8, 117u8, 112u8, 100u8, 97u8, 116u8, 101u8], n),
    );
    let c1 = point_command(base_version, 3, clear_mutation(3));
    let c2 = point_command(
        base_version,
        first_insert,
        set_mutation(
            first_insert,
            seed,
            vec![105u8, 110u8, 105u8, 116u8, 105u8, 97u8, 108u8, 45u8, 105u8, 110u8, 115u8, 101u8, 114u8, 116u8],
            n,
        ),
    );
    let c3 = point_command(
        base_version,
        4,
        set_mutation(
            4,
            seed,
            vec![99u8, 111u8, 110u8, 99u8, 117u8, 114u8, 114u8, 101u8, 110u8, 116u8, 45u8, 117u8, 112u8, 100u8, 97u8, 116u8, 101u8],
            n,
        ),
    );
    let c4 = point_command(base_version, 5, clear_mutation(5));
    let c5 = point_command(
        base_version,
        second_insert,
        set_mutation(
            second_insert,
            seed,
            vec![99u8, 111u8, 110u8, 99u8, 117u8, 114u8, 114u8, 101u8, 110u8, 116u8, 45u8, 105u8, 110u8, 115u8, 101u8, 114u8, 116u8],
            n,
        ),
    );
    let conflict = crate::transaction::KeyRange { start: key_bytes(10), end: key_bytes(14) };
    let cleared = crate::transaction::KeyRange { start: key_bytes(10), end: key_bytes(14) };
    let c6 = crate::transaction::TransactionCommand {
        read_version: base_version,
        read_conflicts: Vec::new(),
        write_conflicts: vec![conflict],
        mutations: vec![crate::transaction::Mutation::ClearRange { range: cleared }],
    };
    let commands = vec![c0, c1, c2, c3, c4, c5, c6];
    assert(commands@[0] == c0 && commands@[1] == c1 && commands@[2] == c2 && commands@[3] == c3);
    assert(commands@[4] == c4 && commands@[5] == c5 && commands@[6] == c6);
    commands
}

} // verus!

verus! {

/// What one key of a resident image holds.
#[derive(Clone, Debug, PartialEq, Eq)]
pub enum LogicalOutcome {
    Value(Vec<u8>),
    Tombstone,
    Absent,
}

pub open spec fn outcome_bytes(outcome: LogicalOutcome) -> Seq<u8> {
    match outcome {
        LogicalOutcome::Value(value) => seq![1u8] + framed(value@),
        LogicalOutcome::Tombstone => seq![2u8],
        LogicalOutcome::Absent => seq![3u8],
    }
}

pub open spec fn image_body(image: Seq<(Vec<u8>, LogicalOutcome)>, n: nat) -> Seq<u8>
    decreases n,
{
    if n == 0 || n > image.len() {
        Seq::empty()
    } else {
        image_body(image, (n - 1) as nat) + framed(image[n - 1].0@) + outcome_bytes(image[n - 1].1)
    }
}

/// The magic bytes `OKVLI1` of a logical image.
pub open spec fn image_magic() -> Seq<u8> {
    seq![79u8, 75u8, 86u8, 76u8, 73u8, 49u8]
}

/// The frozen `OKVLI1` encoding of a logical image, its keys in order.
pub open spec fn logical_image_bytes(image: Seq<(Vec<u8>, LogicalOutcome)>) -> Seq<u8> {
    image_magic() + be_u64(image.len() as u64) + image_body(image, image.len())
}

/// Keys strictly increase, as a map's keys iterate.
pub open spec fn image_keys_sorted(image: Seq<(Vec<u8>, LogicalOutcome)>) -> bool {
    forall|i: int, j: int| 0 <= i < j < image.len() ==> crate::codec::lex_lt(image[i].0@, image[j].0@)
}

/// The content digest of a logical image given as its entries in key order.
pub fn logical_image_sha256(image: &Vec<(Vec<u8>, LogicalOutcome)>) -> (digest: String)
    requires
        image_keys_sorted(image@),
    ensures
        digest@ == content_sha256_text(logical_image_bytes(image@)),
{
    let mut bytes: Vec<u8> = vec![79u8, 75u8, 86u8, 76u8, 73u8, 49u8];
    push_u64(&mut bytes, image.len() as u64);
    let ghost head = bytes@;
    let mut k: usize = 0;
    while k < image.len()
        invariant
            k <= image@.len(),
            head == image_magic() + be_u64(image@.len() as u64),
            bytes@ == head + image_body(image@, k as nat),
        decreases image@.len() - k,
    {
        let entry = &image[k];
        push_vec(&mut bytes, &entry.0);
        match &entry.1 {
            LogicalOutcome::Value(value) => {
                bytes.push(1u8);
                push_vec(&mut bytes, value);
            },
            LogicalOutcome::Tombstone => bytes.push(2u8),
            LogicalOutcome::Absent => bytes.push(3u8),
        }
        assert(bytes@ =~= head + image_body(image@, (k + 1) as nat));
        k = k + 1;
    }
    sha256_hex(bytes.as_slice())
}

/// Two subjects may not share one mutable resident image: their canonical
/// roots must differ.
pub fn validate_subject_roots(native: &str, control: &str) -> (result: Result<(), String>)
    ensures
        result.is_ok() == (native@ != control@),
        result matches Err(m) ==> m@ == "native and control may not share one mutable resident image"@,
{
    if text_equal(native, control) {
        return Err("native and control may not share one mutable resident image".to_owned());
    }
    Ok(())
}

} // verus!

verus! {

/// A valid placement locator, once parsed, is accepted against its own
/// envelope digest and comes back unchanged. (Parsing the JSON itself is not
/// part of this law.)
pub proof fn lemma_valid_locator_round_trips(locator: FixturePlacementLocatorV1)
    requires
        locator.profile_valid(),
        locator.identity_valid(),
    ensures
        acceptance(Ok(locator), locator.envelope_sha256@) == Ok::<FixturePlacementLocatorV1, Seq<char>>(locator),
{
}

} // verus!

verus! {

/// What the final judgement of a fixture contract run reads.
#[derive(Clone, Copy, Debug, PartialEq, Eq, Structural)]
pub struct FixtureContractObservations {
    pub authority_processes: usize,
    pub anchor_txlog_records: u64,
    pub anchor_txlog_mutations: u64,
    pub anchor_live_keys: u64,
    pub base_value_txlog_records: u64,
    pub base_value_txlog_mutation_bytes: u64,
    pub descriptor_deterministic: bool,
    pub immutable_put_reuse_verified: bool,
    pub decoded_base_records: usize,
    pub all_base_records_at_anchor: bool,
    pub segment_versions_at_anchor: bool,
    pub subject_roots_distinct: bool,
    pub tail_exact: bool,
    pub resident_images_distinct: bool,
    pub resident_logical_images_equal: bool,
    pub poison_detected: bool,
}

/// The run is exact: three authority processes; one empty anchor record and
/// no live key; no base value in the transaction log; a deterministic
/// descriptor reused by immutable puts; every base record decoded and at the
/// anchor; distinct subject roots; an exact tail; distinct resident images of
/// equal logical content; and the poison detected.
pub open spec fn fixture_run_exact(o: FixtureContractObservations, key_count: u64) -> bool {
    &&& o.authority_processes == 3
    &&& o.anchor_txlog_records == 1
    &&& o.anchor_txlog_mutations == 0
    &&& o.anchor_live_keys == 0
    &&& o.base_value_txlog_records == 0
    &&& o.base_value_txlog_mutation_bytes == 0
    &&& o.descriptor_deterministic
    &&& o.immutable_put_reuse_verified
    &&& o.decoded_base_records == (if key_count > usize::MAX { usize::MAX as int } else { key_count as int })
    &&& o.all_base_records_at_anchor
    &&& o.segment_versions_at_anchor
    &&& o.subject_roots_distinct
    &&& o.tail_exact
    &&& o.resident_images_distinct
    &&& o.resident_logical_images_equal
    &&& o.poison_detected
}

/// Judge a fixture contract run; it has one correctness anomaly exactly
/// when it is not exact.
pub fn fixture_contract_anomalies(o: &FixtureContractObservations, key_count: u64) -> (anomalies: u64)
    ensures
        anomalies == (if fixture_run_exact(*o, key_count) { 0u64 } else { 1u64 }),
{
    let expected_records = if key_count > usize::MAX as u64 { usize::MAX } else { key_count as usize };
    let exact = o.authority_processes == 3 && o.anchor_txlog_records == 1 && o.anchor_txlog_mutations == 0
        && o.anchor_live_keys == 0 && o.base_value_txlog_records == 0 && o.base_value_txlog_mutation_bytes == 0
        && o.descriptor_deterministic && o.immutable_put_reuse_verified && o.decoded_base_records == expected_records
        && o.all_base_records_at_anchor && o.segment_versions_at_anchor && o.subject_roots_distinct && o.tail_exact
        && o.resident_images_distinct && o.resident_logical_images_equal && o.poison_detected;
    if exact { 0 } else { 1 }
}

/// Generation that owns the fixture's objects.
pub const FIXTURE_GENERATION: u64 = 7;

/// Records the fixture tail commits after the anchor.
pub const EXPECTED_TAIL_RECORDS: usize = 7;

/// The authority's retained stream through the tail must be complete and
/// hold the anchor record and every tail record.
pub fn check_retained_stream(complete: bool, record_count: usize) -> (result: Result<(), String>)
    ensures
        result is Ok <==> (complete && record_count == EXPECTED_TAIL_RECORDS + 1),
        result matches Err(e) ==> e@ == "fixture authority retained stream has the wrong record count"@,
{
    if complete && record_count == EXPECTED_TAIL_RECORDS + 1 {
        Ok(())
    } else {
        Err("fixture authority retained stream has the wrong record count".to_owned())
    }
}

/// The authority's storage statistics must put its high watermark at the end
/// of the tail and count exactly the retained records read back.
pub fn check_authority_stats(high_watermark: u64, retained_records: u64, applied_through: u64, record_count: usize) -> (result:
    Result<(), String>)
    ensures
        result is Ok <==> (high_watermark == applied_through && retained_records == record_count),
        result matches Err(e) ==> e@ == "fixture authority storage stats disagree with the retained stream"@,
{
    if high_watermark == applied_through && retained_records == record_count as u64 {
        Ok(())
    } else {
        Err("fixture authority storage stats disagree with the retained stream".to_owned())
    }
}

/// A fixture manifest must belong to the fixture generation and cover
/// exactly the descriptor's base version.
pub fn check_manifest_anchor(generation: u64, covered_through: u64, base_version: u64) -> (result: Result<(), String>)
    ensures
        result is Ok <==> (generation == FIXTURE_GENERATION && covered_through == base_version),
        result matches Err(e) ==> e@ == "fixture manifest generation or base version mismatch"@,
{
    if generation == FIXTURE_GENERATION && covered_through == base_version {
        Ok(())
    } else {
        Err("fixture manifest generation or base version mismatch".to_owned())
    }
}

} // verus!
