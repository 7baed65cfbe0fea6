//! Immutable row objects with publication authority, data safe-pop, quorum
//! attestation and post-pop recovery: the setup writes, the coverage each
//! control requests, and the anomaly rules of the candidate and its controls.

use crate::digest::{blocks_for, digest_stream, digest_value};
use crate::transaction::RequestIdentity;
use crate::transaction_log::TransactionLogStorageStats;
use crate::workload::ascii_bytes;
use crate::codec::{extend_bytes, push_zero_padded, zero_padded};
use vstd::prelude::*;
use vstd::string::StringSliceAdditionalSpecFns;

verus! {

/// Generation that the object frontier serves.
pub const GENERATION: u64 = 7;

/// Number of keys the setup writes.
pub const KEY_COUNT: u64 = 16;

/// Bytes of each setup value.
pub const VALUE_BYTES: usize = 128;

/// Frozen subject or negative-control behavior.
#[derive(Clone, Copy, Debug, PartialEq, Eq, Structural)]
pub enum ObjectFrontierMode {
    Candidate,
    MissingPendingControl,
    ForgedCoverageControl,
    SubquorumControl,
}

pub open spec fn object_frontier_mode_id(mode: ObjectFrontierMode) -> Seq<char> {
    match mode {
        ObjectFrontierMode::Candidate => "candidate"@,
        ObjectFrontierMode::MissingPendingControl => "missing_pending_control"@,
        ObjectFrontierMode::ForgedCoverageControl => "forged_coverage_control"@,
        ObjectFrontierMode::SubquorumControl => "subquorum_control"@,
    }
}

impl ObjectFrontierMode {
    /// Stable identifier used by receipts.
    pub fn id(self) -> (id: &'static str)
        ensures
            id@ == object_frontier_mode_id(self),
    {
        match self {
            ObjectFrontierMode::Candidate => "candidate",
            ObjectFrontierMode::MissingPendingControl => "missing_pending_control",
            ObjectFrontierMode::ForgedCoverageControl => "forged_coverage_control",
            ObjectFrontierMode::SubquorumControl => "subquorum_control",
        }
    }
}

/// The key of setup ordinal `ordinal`: `g47/` and the ordinal in four or
/// more digits.
pub open spec fn setup_key(ordinal: u64) -> Seq<u8> {
    ascii_bytes("g47/"@) + zero_padded(ordinal as nat, 4)
}

/// The key of one setup write.
pub fn setup_key_bytes(ordinal: u64) -> (key: Vec<u8>)
    ensures
        key@ == setup_key(ordinal),
{
    let prefix = "g47/";
    proof {
        reveal_strlit("g47/");
        vstd::string::is_ascii_spec_bytes(prefix);
    }
    assert(prefix.is_ascii());
    let mut key: Vec<u8> = Vec::new();
    extend_bytes(&mut key, prefix.as_bytes());
    push_zero_padded(&mut key, ordinal, 4);
    key
}

/// The tag of the setup value digests.
pub open spec fn value_tag() -> Seq<u8> {
    ascii_bytes("OKV-G47-VALUE-V1\0"@)
}

/// The value of setup ordinal `ordinal`: the first 128 bytes of its digest
/// stream.
pub open spec fn setup_value(seed: u64, ordinal: u64) -> Seq<u8> {
    digest_stream(value_tag(), seed, ordinal, blocks_for(VALUE_BYTES as nat)).take(VALUE_BYTES as int)
}

/// The deterministic value of one setup write.
pub fn deterministic_value(seed: u64, ordinal: u64) -> (value: Vec<u8>)
    ensures
        value@ == setup_value(seed, ordinal),
        value@.len() == VALUE_BYTES,
{
    let tag = "OKV-G47-VALUE-V1\0";
    proof {
        reveal_strlit("OKV-G47-VALUE-V1\0");
        vstd::string::is_ascii_spec_bytes(tag);
    }
    assert(tag.is_ascii());
    assert(tag.spec_bytes() =~= value_tag());
    digest_value(tag.as_bytes(), seed, ordinal, VALUE_BYTES)
}

/// Offset of the setup client above the seed.
pub const SETUP_CLIENT_OFFSET: u64 = 20_000;

/// Offset of the pop client above the seed.
pub const POP_CLIENT_OFFSET: u64 = 30_000;

/// Offset of the publication client above the seed.
pub const PUBLICATION_CLIENT_OFFSET: u64 = 40_000;

/// The seed (1 for seed zero) raised by an offset, saturating.
pub open spec fn offset_client(seed: u64, offset: u64) -> u64 {
    let base = if seed >= 1 { seed } else { 1u64 };
    if base + offset > u64::MAX { u64::MAX } else { (base + offset) as u64 }
}

/// The identity of a request made with a client offset.
pub fn offset_identity(seed: u64, offset: u64, request_id: u64) -> (identity: RequestIdentity)
    ensures
        identity == (RequestIdentity { client_id: offset_client(seed, offset), request_id }),
{
    let base = if seed >= 1 { seed } else { 1 };
    RequestIdentity { client_id: base.saturating_add(offset), request_id }
}

/// The identity of a publication command.
pub fn publication_command(seed: u64, request_id: u64) -> (identity: RequestIdentity)
    ensures
        identity == (RequestIdentity { client_id: offset_client(seed, PUBLICATION_CLIENT_OFFSET), request_id }),
{
    offset_identity(seed, PUBLICATION_CLIENT_OFFSET, request_id)
}

/// The version the manifest covers: the high watermark, except under the
/// forged-coverage control, where it stops at the second-to-last setup
/// version (the high watermark if there is none).
pub open spec fn manifest_coverage(mode: ObjectFrontierMode, versions: Seq<u64>, high_watermark: u64) -> u64 {
    if mode is ForgedCoverageControl {
        let at = if versions.len() >= 2 { versions.len() - 2 } else { 0 };
        if at < versions.len() { versions[at] } else { high_watermark }
    } else {
        high_watermark
    }
}

/// The version a run asks to pop through: the high watermark under the
/// forged-coverage control, the manifest's coverage otherwise.
pub open spec fn requested_frontier_spec(mode: ObjectFrontierMode, covered_through: u64, high_watermark: u64) -> u64 {
    if mode is ForgedCoverageControl { high_watermark } else { covered_through }
}

/// The version the manifest covers, given the setup versions in order.
pub fn manifest_covered_through(mode: ObjectFrontierMode, versions: &[u64], high_watermark: u64) -> (covered: u64)
    ensures
        covered == manifest_coverage(mode, versions@, high_watermark),
{
    if matches!(mode, ObjectFrontierMode::ForgedCoverageControl) {
        let at = if versions.len() >= 2 { versions.len() - 2 } else { 0 };
        if at < versions.len() { versions[at] } else { high_watermark }
    } else {
        high_watermark
    }
}

/// The version a run asks to pop through.
pub fn requested_frontier(mode: ObjectFrontierMode, covered_through: u64, high_watermark: u64) -> (requested: u64)
    ensures
        requested == requested_frontier_spec(mode, covered_through, high_watermark),
{
    if matches!(mode, ObjectFrontierMode::ForgedCoverageControl) { high_watermark } else { covered_through }
}

/// What a candidate or subquorum run observed.
#[derive(Clone, Copy, Debug, PartialEq, Eq, Structural)]
pub struct ObjectFrontierObservations {
    pub pending_protected: bool,
    pub closure_validated: bool,
    pub popped_records: u64,
    pub popped_covered_through: u64,
    pub stale_cursor_rejected: bool,
    pub exact_pop_retry: bool,
    pub certificate_signers: u64,
    pub activation_accepted: bool,
    pub unsafe_transition_rejected: bool,
    pub active_frontier_exact: bool,
    pub pending_frontier_retained: bool,
    pub data_leader_failover: bool,
    pub authority_leader_failover: bool,
    pub restarted_data_voter: bool,
    pub recovered_state_exact: bool,
}

/// The subquorum control must pop exactly, keep the pending frontier, and see
/// its activation refused for an invalid certificate.
pub open spec fn subquorum_holds(o: ObjectFrontierObservations, before: TransactionLogStorageStats, after: TransactionLogStorageStats) -> bool {
    &&& o.pending_protected
    &&& o.closure_validated
    &&& o.popped_records == before.retained_records
    &&& after.retained_records == 0
    &&& o.stale_cursor_rejected
    &&& o.exact_pop_retry
    &&& o.certificate_signers >= 2
    &&& !o.activation_accepted
    &&& o.unsafe_transition_rejected
    &&& !o.active_frontier_exact
    &&& o.pending_frontier_retained
    &&& o.recovered_state_exact
}

/// The candidate must pop exactly through the frontier, activate it with a
/// quorum certificate, clear the pending frontier, and survive every failover
/// and restart with the exact state.
pub open spec fn candidate_holds(o: ObjectFrontierObservations, before: TransactionLogStorageStats, after: TransactionLogStorageStats) -> bool {
    &&& o.pending_protected
    &&& o.closure_validated
    &&& o.popped_records == before.retained_records
    &&& after.retained_records == 0
    &&& after.retention_floor == o.popped_covered_through
    &&& o.stale_cursor_rejected
    &&& o.exact_pop_retry
    &&& o.certificate_signers >= 2
    &&& o.activation_accepted
    &&& o.active_frontier_exact
    &&& !o.pending_frontier_retained
    &&& o.data_leader_failover
    &&& o.authority_leader_failover
    &&& o.restarted_data_voter
    &&& o.recovered_state_exact
}

/// One anomaly when the mode's rules fail, none otherwise.
pub fn candidate_anomalies(
    mode: ObjectFrontierMode,
    o: &ObjectFrontierObservations,
    before: &TransactionLogStorageStats,
    after: &TransactionLogStorageStats,
) -> (anomalies: u64)
    ensures
        anomalies == (if mode is SubquorumControl {
            if subquorum_holds(*o, *before, *after) { 0u64 } else { 1u64 }
        } else {
            if candidate_holds(*o, *before, *after) { 0u64 } else { 1u64 }
        }),
{
    if matches!(mode, ObjectFrontierMode::SubquorumControl) {
        let holds = o.pending_protected && o.closure_validated && o.popped_records == before.retained_records
            && after.retained_records == 0 && o.stale_cursor_rejected && o.exact_pop_retry && o.certificate_signers
            >= 2 && !o.activation_accepted && o.unsafe_transition_rejected && !o.active_frontier_exact
            && o.pending_frontier_retained && o.recovered_state_exact;
        return if holds { 0 } else { 1 };
    }
    let holds = o.pending_protected && o.closure_validated && o.popped_records == before.retained_records
        && after.retained_records == 0 && after.retention_floor == o.popped_covered_through && o.stale_cursor_rejected
        && o.exact_pop_retry && o.certificate_signers >= 2 && o.activation_accepted && o.active_frontier_exact
        && !o.pending_frontier_retained && o.data_leader_failover && o.authority_leader_failover
        && o.restarted_data_voter && o.recovered_state_exact;
    if holds { 0 } else { 1 }
}

/// A control run has one anomaly exactly when its unsafe transition was not
/// refused.
pub fn control_anomalies(unsafe_transition_rejected: bool) -> (anomalies: u64)
    ensures
        anomalies == (if unsafe_transition_rejected { 0u64 } else { 1u64 }),
{
    if unsafe_transition_rejected { 0 } else { 1 }
}

} // verus!
