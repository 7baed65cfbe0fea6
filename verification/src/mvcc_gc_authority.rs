//! The exact adapter from a physical history-collection receipt to the
//! replicated publication-authority receipt, the authorization handed to the
//! collector, and the steps of the authority composition.

use crate::codec::append_text;
use crate::key_set::{insert_key, key_texts, keys_sorted, utf8};
use crate::provider_incarnation::text_equal;
use crate::transaction::RequestIdentity;
use vstd::prelude::*;
use vstd::string::StringSliceAdditionalSpecFns;

verus! {

/// Generation that issues collection jobs.
pub const GENERATION: u64 = 7;

/// Control applied to the physical collector and authority composition.
#[derive(Clone, Copy, Debug, PartialEq, Eq, Structural)]
pub enum MvccGcAuthorityCompositionMode {
    Correct,
    OmitOutputSst,
    SemanticDigestAsManifest,
    SkipAuthorityFailover,
}

pub open spec fn composition_mode_id(mode: MvccGcAuthorityCompositionMode) -> Seq<char> {
    match mode {
        MvccGcAuthorityCompositionMode::Correct => "correct"@,
        MvccGcAuthorityCompositionMode::OmitOutputSst => "omit_output_sst"@,
        MvccGcAuthorityCompositionMode::SemanticDigestAsManifest => "semantic_digest_as_manifest"@,
        MvccGcAuthorityCompositionMode::SkipAuthorityFailover => "skip_authority_failover"@,
    }
}

impl MvccGcAuthorityCompositionMode {
    /// Stable identifier used by receipts.
    pub fn id(self) -> (id: &'static str)
        ensures
            id@ == composition_mode_id(self),
    {
        match self {
            MvccGcAuthorityCompositionMode::Correct => "correct",
            MvccGcAuthorityCompositionMode::OmitOutputSst => "omit_output_sst",
            MvccGcAuthorityCompositionMode::SemanticDigestAsManifest => "semantic_digest_as_manifest",
            MvccGcAuthorityCompositionMode::SkipAuthorityFailover => "skip_authority_failover",
        }
    }
}

/// A mismatch between an issued collection token and physical collector output.
#[derive(Clone, Copy, Debug, PartialEq, Eq, Structural)]
pub enum MvccGcAuthorityBindingError {
    UnsafePhysicalReceipt,
    FrozenFloorMismatch,
    InputManifestMismatch,
    OutputNamespaceMismatch,
}

pub open spec fn binding_error_text(error: MvccGcAuthorityBindingError) -> Seq<char> {
    match error {
        MvccGcAuthorityBindingError::UnsafePhysicalReceipt => "physical MVCC collector receipt failed its safety gates"@,
        MvccGcAuthorityBindingError::FrozenFloorMismatch => "physical collector floor does not match the issued job"@,
        MvccGcAuthorityBindingError::InputManifestMismatch => "physical collector input does not match the issued job"@,
        MvccGcAuthorityBindingError::OutputNamespaceMismatch => "physical collector output escaped the reserved namespace"@,
    }
}

impl MvccGcAuthorityBindingError {
    /// The human-readable rendering of the mismatch.
    pub fn message(&self) -> (text: String)
        ensures
            text@ == binding_error_text(*self),
    {
        match self {
            MvccGcAuthorityBindingError::UnsafePhysicalReceipt => "physical MVCC collector receipt failed its safety gates".to_owned(),
            MvccGcAuthorityBindingError::FrozenFloorMismatch => "physical collector floor does not match the issued job".to_owned(),
            MvccGcAuthorityBindingError::InputManifestMismatch => "physical collector input does not match the issued job".to_owned(),
            MvccGcAuthorityBindingError::OutputNamespaceMismatch => "physical collector output escaped the reserved namespace".to_owned(),
        }
    }
}

/// The kind of a published object this library names.
#[derive(Clone, Copy, Debug, PartialEq, Eq, Structural)]
pub enum PublicationObjectKind {
    Manifest,
}

/// A reference to one published object.
#[derive(Clone, Debug, PartialEq, Eq)]
pub struct PublicationObjectReference {
    pub kind: PublicationObjectKind,
    pub key: String,
    pub length: u64,
    pub sha256: String,
}

/// Position of a command in the publication authority's log.
#[derive(Clone, Copy, Debug, PartialEq, Eq, Structural)]
pub struct PublicationAuthorityPosition {
    pub term: u64,
    pub index: u64,
}

/// One collection job issued by the authority.
#[derive(Clone, Debug, PartialEq, Eq)]
pub struct CollectionJobToken {
    pub job_id: String,
    pub owner_generation: u64,
    pub authority_position: PublicationAuthorityPosition,
    pub frozen_floor: u64,
    pub input_manifest: PublicationObjectReference,
    pub destination_root: String,
    pub range_map_epoch: u64,
    pub expected_collected_through: u64,
    pub output_namespace: String,
}

/// One physical object a collector read or wrote.
#[derive(Clone, Debug, PartialEq, Eq)]
pub struct PhysicalObjectReceipt {
    pub key: String,
    pub length: u64,
    pub sha256: String,
}

/// A physical manifest with its live tables; `valid` records the storage
/// layer's own validation of the manifest.
#[derive(Clone, Debug, PartialEq, Eq)]
pub struct PhysicalManifestReceipt {
    pub manifest: PhysicalObjectReceipt,
    pub manifest_id: u64,
    pub live_ssts: Vec<PhysicalObjectReceipt>,
    pub valid: bool,
}

/// What the physical collector reports of one collection.
#[derive(Clone, Debug, PartialEq, Eq)]
pub struct PhysicalCollectionReceipt {
    pub anomaly_count: u64,
    pub publication_completed: bool,
    pub input_physical_manifest: PhysicalManifestReceipt,
    pub output_physical_manifest: PhysicalManifestReceipt,
    pub floor_version: u64,
    pub filter_floor_version: u64,
    pub claimed_collected_through: u64,
}

/// The authority receipt bound to one physical collection.
#[derive(Clone, Debug, PartialEq, Eq)]
pub struct CollectionReceipt {
    pub token: CollectionJobToken,
    pub output_manifest: PublicationObjectReference,
    pub object_keys: Vec<String>,
}

/// The request a collector makes before compacting.
#[derive(Clone, Debug, PartialEq, Eq)]
pub struct CollectionRequest {
    pub frozen_floor: u64,
    pub input_manifest: PhysicalManifestReceipt,
}

/// The storage-owned authorization consumed before compaction starts.
#[derive(Clone, Debug, PartialEq, Eq)]
pub struct CollectionAuthorization {
    pub job_id: String,
    pub owner_generation: u64,
    pub authority_term: u64,
    pub authority_index: u64,
    pub frozen_floor: u64,
    pub input_manifest: PhysicalObjectReceipt,
    pub destination_root: String,
    pub range_map_epoch: u64,
    pub expected_collected_through: u64,
    pub output_namespace: String,
}

/// The reference names the physical manifest: a manifest with its key,
/// length and digest.
pub open spec fn names_manifest(reference: PublicationObjectReference, object: PhysicalObjectReceipt) -> bool {
    reference.kind == PublicationObjectKind::Manifest && reference.key@ == object.key@ && reference.length
        == object.length && reference.sha256@ == object.sha256@
}

fn same_object(reference: &PublicationObjectReference, object: &PhysicalObjectReceipt) -> (same: bool)
    ensures
        same == names_manifest(*reference, *object),
{
    matches!(reference.kind, PublicationObjectKind::Manifest) && text_equal(reference.key.as_str(), object.key.as_str())
        && reference.length == object.length && text_equal(reference.sha256.as_str(), object.sha256.as_str())
}

fn object_reference(object: &PhysicalObjectReceipt) -> (reference: PublicationObjectReference)
    ensures
        names_manifest(reference, *object),
{
    PublicationObjectReference {
        kind: PublicationObjectKind::Manifest,
        key: object.key.clone(),
        length: object.length,
        sha256: object.sha256.clone(),
    }
}

/// The collector's floors all equal the job's frozen floor.
pub open spec fn floors_match(token: CollectionJobToken, physical: PhysicalCollectionReceipt) -> bool {
    token.frozen_floor == physical.floor_version && token.frozen_floor == physical.filter_floor_version
        && token.frozen_floor == physical.claimed_collected_through
}

/// The keys of the output closure: the output manifest and each live table.
pub open spec fn output_keys(physical: PhysicalCollectionReceipt) -> Set<Seq<char>> {
    Set::new(|k: Seq<char>| k == physical.output_physical_manifest.manifest.key@ || exists|i: int|
        0 <= i < physical.output_physical_manifest.live_ssts@.len()
            && physical.output_physical_manifest.live_ssts@[i].key@ == k)
}

/// The UTF-8 bytes of `text` start with those of `prefix`.
pub open spec fn starts_with(text: Seq<char>, prefix: Seq<char>) -> bool {
    utf8(prefix).len() <= utf8(text).len() && utf8(text).subrange(0, utf8(prefix).len() as int) == utf8(prefix)
}

pub(crate) fn text_starts_with(text: &str, prefix: &str) -> (starts: bool)
    ensures
        starts == starts_with(text@, prefix@),
{
    let a = text.as_bytes();
    let b = prefix.as_bytes();
    assert(a@ == utf8(text@) && b@ == utf8(prefix@));
    if b.len() > a.len() {
        return false;
    }
    let mut index: usize = 0;
    while index < b.len()
        invariant
            a@ == utf8(text@) && b@ == utf8(prefix@),
            b@.len() <= a@.len(),
            index <= b@.len(),
            forall|k: int| 0 <= k < index ==> a@[k] == b@[k],
        decreases b@.len() - index,
    {
        if a[index] != b[index] {
            assert(a@.subrange(0, b@.len() as int)[index as int] != b@[index as int]);
            return false;
        }
        index = index + 1;
    }
    assert(a@.subrange(0, b@.len() as int) =~= b@);
    true
}

fn physical_manifests_equal(a: &PhysicalObjectReceipt, b: &PhysicalObjectReceipt) -> (equal: bool)
    ensures
        equal == (a.key@ == b.key@ && a.length == b.length && a.sha256@ == b.sha256@),
{
    text_equal(a.key.as_str(), b.key.as_str()) && a.length == b.length && text_equal(a.sha256.as_str(), b.sha256.as_str())
}

/// Convert exact physical output into an authority receipt only when every
/// issued job field owned by the collector matches. The checks run in order:
/// the physical safety gates, the frozen floors, the input manifest, then
/// that every output key lies in the reserved namespace.
pub fn bind_mvcc_gc_collection_receipt(
    token: &CollectionJobToken,
    physical: &PhysicalCollectionReceipt,
) -> (result: Result<CollectionReceipt, MvccGcAuthorityBindingError>)
    ensures
        !(physical.anomaly_count == 0 && physical.publication_completed && physical.input_physical_manifest.valid
            && physical.output_physical_manifest.valid && !(physical.input_physical_manifest.manifest.key@
            == physical.output_physical_manifest.manifest.key@ && physical.input_physical_manifest.manifest.length
            == physical.output_physical_manifest.manifest.length && physical.input_physical_manifest.manifest.sha256@
            == physical.output_physical_manifest.manifest.sha256@)) ==> result
            == Err::<CollectionReceipt, MvccGcAuthorityBindingError>(MvccGcAuthorityBindingError::UnsafePhysicalReceipt),
        result matches Ok(receipt) ==> {
            &&& floors_match(*token, *physical)
            &&& names_manifest(token.input_manifest, physical.input_physical_manifest.manifest)
            &&& names_manifest(receipt.output_manifest, physical.output_physical_manifest.manifest)
            &&& receipt.token == *token
            &&& keys_sorted(receipt.object_keys@)
            &&& key_texts(receipt.object_keys@) == output_keys(*physical)
            &&& forall|k: Seq<char>| output_keys(*physical).contains(k) ==> starts_with(k, token.output_namespace@)
        },
        result == Err::<CollectionReceipt, MvccGcAuthorityBindingError>(MvccGcAuthorityBindingError::FrozenFloorMismatch)
            ==> !floors_match(*token, *physical),
        result == Err::<CollectionReceipt, MvccGcAuthorityBindingError>(MvccGcAuthorityBindingError::InputManifestMismatch)
            ==> floors_match(*token, *physical) && !names_manifest(token.input_manifest, physical.input_physical_manifest.manifest),
        result == Err::<CollectionReceipt, MvccGcAuthorityBindingError>(MvccGcAuthorityBindingError::OutputNamespaceMismatch)
            ==> floors_match(*token, *physical) && names_manifest(token.input_manifest, physical.input_physical_manifest.manifest)
            && exists|k: Seq<char>| output_keys(*physical).contains(k) && !starts_with(k, token.output_namespace@),
        result is Err && physical.anomaly_count == 0 && physical.publication_completed
            && physical.input_physical_manifest.valid && physical.output_physical_manifest.valid
            && floors_match(*token, *physical) && names_manifest(token.input_manifest, physical.input_physical_manifest.manifest)
            && !(physical.input_physical_manifest.manifest.key@ == physical.output_physical_manifest.manifest.key@
            && physical.input_physical_manifest.manifest.length == physical.output_physical_manifest.manifest.length
            && physical.input_physical_manifest.manifest.sha256@ == physical.output_physical_manifest.manifest.sha256@)
            ==> result == Err::<CollectionReceipt, MvccGcAuthorityBindingError>(MvccGcAuthorityBindingError::OutputNamespaceMismatch),
{
    if physical.anomaly_count != 0 || !physical.publication_completed || !physical.input_physical_manifest.valid
        || !physical.output_physical_manifest.valid || physical_manifests_equal(
        &physical.input_physical_manifest.manifest,
        &physical.output_physical_manifest.manifest,
    ) {
        return Err(MvccGcAuthorityBindingError::UnsafePhysicalReceipt);
    }
    if token.frozen_floor != physical.floor_version || token.frozen_floor != physical.filter_floor_version
        || token.frozen_floor != physical.claimed_collected_through
    {
        return Err(MvccGcAuthorityBindingError::FrozenFloorMismatch);
    }
    if !same_object(&token.input_manifest, &physical.input_physical_manifest.manifest) {
        return Err(MvccGcAuthorityBindingError::InputManifestMismatch);
    }
    let output_manifest = object_reference(&physical.output_physical_manifest.manifest);
    let ssts = &physical.output_physical_manifest.live_ssts;
    let mut object_keys: Vec<String> = Vec::new();
    insert_key(&mut object_keys, output_manifest.key.clone());
    let mut index: usize = 0;
    while index < ssts.len()
        invariant
            index <= ssts@.len(),
            ssts@ == physical.output_physical_manifest.live_ssts@,
            output_manifest.key@ == physical.output_physical_manifest.manifest.key@,
            keys_sorted(object_keys@),
            key_texts(object_keys@) == Set::new(|k: Seq<char>| k == output_manifest.key@ || exists|i: int|
                0 <= i < index && ssts@[i].key@ == k),
        decreases ssts@.len() - index,
    {
        let ghost prior = key_texts(object_keys@);
        insert_key(&mut object_keys, ssts[index].key.clone());
        index = index + 1;
        proof {
            assert(key_texts(object_keys@) =~= Set::new(|k: Seq<char>| k == output_manifest.key@ || exists|i: int|
                0 <= i < index && ssts@[i].key@ == k)) by {
                assert forall|k: Seq<char>| #[trigger] key_texts(object_keys@).contains(k) <==> (k == output_manifest.key@
                    || exists|i: int| 0 <= i < index && ssts@[i].key@ == k) by {
                    if prior.contains(k) && k != output_manifest.key@ {
                        let i = choose|i: int| 0 <= i < index - 1 && ssts@[i].key@ == k;
                        assert(0 <= i < index && ssts@[i].key@ == k);
                    }
                    if exists|i: int| 0 <= i < index && ssts@[i].key@ == k {
                        let i = choose|i: int| 0 <= i < index && ssts@[i].key@ == k;
                        if i < index - 1 {
                            assert(prior.contains(k));
                        }
                    }
                }
            }
        }
    }
    proof {
        assert(key_texts(object_keys@) =~= output_keys(*physical));
    }
    let mut k: usize = 0;
    while k < object_keys.len()
        invariant
            k <= object_keys@.len(),
            key_texts(object_keys@) == output_keys(*physical),
            physical.anomaly_count == 0 && physical.publication_completed && physical.input_physical_manifest.valid
                && physical.output_physical_manifest.valid && !(physical.input_physical_manifest.manifest.key@
                == physical.output_physical_manifest.manifest.key@ && physical.input_physical_manifest.manifest.length
                == physical.output_physical_manifest.manifest.length && physical.input_physical_manifest.manifest.sha256@
                == physical.output_physical_manifest.manifest.sha256@),
            floors_match(*token, *physical),
            names_manifest(token.input_manifest, physical.input_physical_manifest.manifest),
            forall|j: int| 0 <= j < k ==> starts_with((#[trigger] object_keys@[j])@, token.output_namespace@),
        decreases object_keys@.len() - k,
    {
        if !text_starts_with(object_keys[k].as_str(), token.output_namespace.as_str()) {
            proof {
                assert(key_texts(object_keys@).contains(object_keys@[k as int]@));
            }
            return Err(MvccGcAuthorityBindingError::OutputNamespaceMismatch);
        }
        k = k + 1;
    }
    proof {
        assert forall|t: Seq<char>| output_keys(*physical).contains(t) implies starts_with(t, token.output_namespace@) by {
            assert(key_texts(object_keys@).contains(t));
            let j = choose|j: int| 0 <= j < object_keys@.len() && object_keys@[j]@ == t;
        }
    }
    Ok(CollectionReceipt { token: copy_token(token), output_manifest, object_keys })
}

fn copy_reference(reference: &PublicationObjectReference) -> (copy: PublicationObjectReference)
    ensures
        copy == *reference,
{
    PublicationObjectReference {
        kind: reference.kind,
        key: reference.key.clone(),
        length: reference.length,
        sha256: reference.sha256.clone(),
    }
}

fn copy_token(token: &CollectionJobToken) -> (copy: CollectionJobToken)
    ensures
        copy == *token,
{
    CollectionJobToken {
        job_id: token.job_id.clone(),
        owner_generation: token.owner_generation,
        authority_position: token.authority_position,
        frozen_floor: token.frozen_floor,
        input_manifest: copy_reference(&token.input_manifest),
        destination_root: token.destination_root.clone(),
        range_map_epoch: token.range_map_epoch,
        expected_collected_through: token.expected_collected_through,
        output_namespace: token.output_namespace.clone(),
    }
}

/// Translate one exact authority token into the authorization consumed before
/// compaction starts; the token must name the request's frozen floor, then
/// its input manifest.
pub fn authorize_mvcc_gc_collection(
    token: &CollectionJobToken,
    request: &CollectionRequest,
) -> (result: Result<CollectionAuthorization, MvccGcAuthorityBindingError>)
    ensures
        token.frozen_floor != request.frozen_floor ==> result == Err::<
            CollectionAuthorization,
            MvccGcAuthorityBindingError,
        >(MvccGcAuthorityBindingError::FrozenFloorMismatch),
        token.frozen_floor == request.frozen_floor && !names_manifest(token.input_manifest, request.input_manifest.manifest)
            ==> result == Err::<CollectionAuthorization, MvccGcAuthorityBindingError>(
            MvccGcAuthorityBindingError::InputManifestMismatch,
        ),
        token.frozen_floor == request.frozen_floor && names_manifest(token.input_manifest, request.input_manifest.manifest)
            ==> result == Ok::<CollectionAuthorization, MvccGcAuthorityBindingError>(CollectionAuthorization {
            job_id: token.job_id,
            owner_generation: token.owner_generation,
            authority_term: token.authority_position.term,
            authority_index: token.authority_position.index,
            frozen_floor: token.frozen_floor,
            input_manifest: request.input_manifest.manifest,
            destination_root: token.destination_root,
            range_map_epoch: token.range_map_epoch,
            expected_collected_through: token.expected_collected_through,
            output_namespace: token.output_namespace,
        }),
{
    if token.frozen_floor != request.frozen_floor {
        return Err(MvccGcAuthorityBindingError::FrozenFloorMismatch);
    }
    if !same_object(&token.input_manifest, &request.input_manifest.manifest) {
        return Err(MvccGcAuthorityBindingError::InputManifestMismatch);
    }
    Ok(CollectionAuthorization {
        job_id: token.job_id.clone(),
        owner_generation: token.owner_generation,
        authority_term: token.authority_position.term,
        authority_index: token.authority_position.index,
        frozen_floor: token.frozen_floor,
        input_manifest: PhysicalObjectReceipt {
            key: request.input_manifest.manifest.key.clone(),
            length: request.input_manifest.manifest.length,
            sha256: request.input_manifest.manifest.sha256.clone(),
        },
        destination_root: token.destination_root.clone(),
        range_map_epoch: token.range_map_epoch,
        expected_collected_through: token.expected_collected_through,
        output_namespace: token.output_namespace.clone(),
    })
}

/// The identity of a composition command: the seed (1 for seed zero) as the
/// client.
pub fn command(seed: u64, request_id: u64) -> (identity: RequestIdentity)
    ensures
        identity == (RequestIdentity { client_id: if seed >= 1 { seed } else { 1 }, request_id }),
{
    RequestIdentity { client_id: if seed >= 1 { seed } else { 1 }, request_id }
}

/// A step's command must be accepted; otherwise the error names the step and
/// renders the status it returned.
pub fn require_accepted(accepted: bool, status_text: &str, step: &str) -> (result: Result<(), String>)
    ensures
        result is Ok <==> accepted,
        result matches Err(e) ==> e@ == step@ + " returned "@ + status_text@,
{
    if accepted {
        return Ok(());
    }
    let mut message = step.to_owned();
    append_text(&mut message, " returned ");
    append_text(&mut message, status_text);
    Err(message)
}

/// A collection-preparing step must be accepted and must return the prepared
/// token; otherwise the error names the step and renders what it returned.
pub fn collection_token(
    accepted: bool,
    status_text: &str,
    prepared: Option<CollectionJobToken>,
    outcome_text: &str,
    step: &str,
) -> (result: Result<CollectionJobToken, String>)
    ensures
        !accepted ==> (result matches Err(e) && e@ == step@ + " returned "@ + status_text@),
        accepted && prepared is Some ==> result == Ok::<CollectionJobToken, String>(prepared->0),
        accepted && prepared is None ==> (result matches Err(e) && e@ == step@ + " returned unexpected outcome "@
            + outcome_text@),
{
    if let Err(error) = require_accepted(accepted, status_text, step) {
        return Err(error);
    }
    match prepared {
        Some(token) => Ok(token),
        None => {
            let mut message = step.to_owned();
            append_text(&mut message, " returned unexpected outcome ");
            append_text(&mut message, outcome_text);
            Err(message)
        },
    }
}

} // verus!

verus! {

/// The evidence of one authority composition run.
#[derive(Clone, Debug, PartialEq, Eq)]
pub struct MvccGcAuthorityCompositionReport {
    pub seed: u64,
    pub mode: MvccGcAuthorityCompositionMode,
    pub executed_checks: u64,
    pub anomaly_count: u64,
    pub first_mismatch: Option<String>,
    pub authority_process_starts: u64,
    pub authority_process_kills: u64,
    pub authority_failovers: u64,
    pub collector_process_starts: u64,
    pub collector_process_boundary: bool,
    pub serving_root_binding: bool,
    pub frozen_floor: u64,
    pub input_manifest_id: u64,
    pub output_manifest_id: u64,
    pub output_object_count: u64,
    pub final_collected_through: u64,
    pub final_root_sha256: String,
    /// The checks in name order, each with whether it passed.
    pub checks: Vec<(String, bool)>,
    pub trace_sha256: String,
}

/// What a composition report reads of the authorized physical collection
/// and of the authority's final state.
#[derive(Clone, Debug, PartialEq, Eq)]
pub struct CompositionEvidence {
    pub frozen_floor: u64,
    pub input_manifest_id: u64,
    pub output_manifest_id: u64,
    pub output_live_ssts: u64,
    pub input_reads_exact: bool,
    pub output_reads_exact: bool,
    pub final_collected_through: u64,
    /// The digest of the final `cell-root`, when the authority holds one.
    pub final_root_sha256: Option<String>,
}

/// The names of the checks that did not pass, in order.
pub open spec fn failed_check_names(checks: Seq<(String, bool)>) -> Seq<Seq<char>>
    decreases checks.len(),
{
    if checks.len() == 0 {
        Seq::empty()
    } else {
        let rest = failed_check_names(checks.drop_last());
        if checks.last().1 {
            rest
        } else {
            rest.push(checks.last().0@)
        }
    }
}

/// Assemble the report of one composition run from its checks (in name
/// order), the collection evidence, and the digest of its semantic trace.
pub fn build_composition_report(
    seed: u64,
    mode: MvccGcAuthorityCompositionMode,
    checks: Vec<(String, bool)>,
    evidence: &CompositionEvidence,
    trace_sha256: String,
) -> (report: MvccGcAuthorityCompositionReport)
    ensures
        report.seed == seed,
        report.mode == mode,
        report.executed_checks == checks@.len(),
        report.anomaly_count == failed_check_names(checks@).len(),
        match report.first_mismatch {
            Some(name) => failed_check_names(checks@).len() > 0 && name@ == failed_check_names(checks@)[0],
            None => failed_check_names(checks@).len() == 0,
        },
        report.authority_process_starts == 3,
        report.authority_process_kills == (if mode == MvccGcAuthorityCompositionMode::SkipAuthorityFailover { 0u64 } else { 1u64 }),
        report.authority_failovers == report.authority_process_kills,
        report.collector_process_starts == 1,
        report.collector_process_boundary,
        report.serving_root_binding == (evidence.input_reads_exact && evidence.output_reads_exact),
        report.frozen_floor == evidence.frozen_floor,
        report.input_manifest_id == evidence.input_manifest_id,
        report.output_manifest_id == evidence.output_manifest_id,
        report.output_object_count == crate::codec::sat_add(evidence.output_live_ssts, 1),
        report.final_collected_through == evidence.final_collected_through,
        report.final_root_sha256@ == match evidence.final_root_sha256 {
            Some(root) => root@,
            None => Seq::<char>::empty(),
        },
        report.checks@ == checks@,
        report.trace_sha256@ == trace_sha256@,
{
    let mut anomalies: u64 = 0;
    let mut first: Option<String> = None;
    let mut k: usize = 0;
    while k < checks.len()
        invariant
            k <= checks@.len(),
            anomalies == failed_check_names(checks@.take(k as int)).len(),
            anomalies <= k,
            match first {
                Some(name) => failed_check_names(checks@.take(k as int)).len() > 0 && name@
                    == failed_check_names(checks@.take(k as int))[0],
                None => failed_check_names(checks@.take(k as int)).len() == 0,
            },
        decreases checks@.len() - k,
    {
        proof {
            assert(checks@.take(k + 1).drop_last() =~= checks@.take(k as int));
        }
        if !checks[k].1 {
            if first.is_none() {
                first = Some(checks[k].0.clone());
            }
            anomalies = anomalies + 1;
        }
        proof {
            let names = failed_check_names(checks@.take(k + 1));
            let prior = failed_check_names(checks@.take(k as int));
            if !checks@[k as int].1 && prior.len() > 0 {
                assert(names[0] == prior[0]);
            }
        }
        k = k + 1;
    }
    assert(checks@.take(checks@.len() as int) =~= checks@);
    let kills: u64 = match mode {
        MvccGcAuthorityCompositionMode::SkipAuthorityFailover => 0,
        _ => 1,
    };
    let root = match &evidence.final_root_sha256 {
        Some(root) => root.clone(),
        None => String::new(),
    };
    let executed = checks.len() as u64;
    MvccGcAuthorityCompositionReport {
        seed,
        mode,
        executed_checks: executed,
        anomaly_count: anomalies,
        first_mismatch: first,
        authority_process_starts: 3,
        authority_process_kills: kills,
        authority_failovers: kills,
        collector_process_starts: 1,
        collector_process_boundary: true,
        serving_root_binding: evidence.input_reads_exact && evidence.output_reads_exact,
        frozen_floor: evidence.frozen_floor,
        input_manifest_id: evidence.input_manifest_id,
        output_manifest_id: evidence.output_manifest_id,
        output_object_count: evidence.output_live_ssts.saturating_add(1),
        final_collected_through: evidence.final_collected_through,
        final_root_sha256: root,
        checks,
        trace_sha256,
    }
}

} // verus!
