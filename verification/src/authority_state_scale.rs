//! Complete transaction-authority snapshot accounting: the frozen profile, the
//! per-checkpoint accounting rules, the workload commands, and the bounded-state
//! verdict over the checkpoints a run records.

use crate::codec::{append_text, ascii_text, contains_bytes, decimal, decimal_text, find_bytes, sat_mul, saturating_mul_u64};
use crate::transaction::{single_set_command, set_command, RequestIdentity, TransactionApplyResponse, TransactionCommand};
use crate::transaction_log::{
    storage_stats_debug, TransactionFrontierAdvance, TransactionFrontierApplyResponse, TransactionLogStorageStats,
    TransactionRetryFloor,
};
use crate::workload::{range_key, range_key_spec};
use vstd::prelude::*;
use vstd::string::StringSliceAdditionalSpecFns;

verus! {

/// Subject selected for the bounded-state curve.
#[derive(Clone, Copy, Debug, PartialEq, Eq, Structural)]
pub enum AuthorityStateScaleMode {
    AlignedFrontiersProjection,
    IdealStreamPopProjection,
    NoPopControl,
    RetainedOnlyAccountingPoison,
    ServingOnlyAccountingPoison,
}

impl AuthorityStateScaleMode {
    /// Modes that advance the resolver and retry frontiers at each checkpoint.
    pub open spec fn splits_frontiers(self) -> bool {
        self is AlignedFrontiersProjection || self is ServingOnlyAccountingPoison
    }

    /// Modes whose selected size counts every part of the authority state.
    pub open spec fn counts_all_state(self) -> bool {
        !(self is RetainedOnlyAccountingPoison || self is ServingOnlyAccountingPoison)
    }

    /// Whether this mode advances the split frontiers at each checkpoint.
    pub fn split_frontiers(self) -> (split: bool)
        ensures
            split == self.splits_frontiers(),
    {
        matches!(self, AuthorityStateScaleMode::AlignedFrontiersProjection | AuthorityStateScaleMode::ServingOnlyAccountingPoison)
    }

    /// Whether the selected size of this mode accounts for the whole state.
    pub fn accounting_complete(self) -> (complete: bool)
        ensures
            complete == self.counts_all_state(),
    {
        !matches!(self, AuthorityStateScaleMode::RetainedOnlyAccountingPoison | AuthorityStateScaleMode::ServingOnlyAccountingPoison)
    }
}

/// Fixed workload shape for one authority-state scale run.
#[derive(Clone, Debug, PartialEq, Eq)]
pub struct AuthorityStateScaleProfile {
    pub live_keys: u64,
    pub value_bytes: usize,
    pub commit_checkpoints: Vec<u64>,
    pub max_projected_growth_ratio: u64,
}

/// One exact linearizable state-accounting checkpoint.
#[derive(Clone, Copy, Debug, PartialEq, Eq, Structural)]
pub struct AuthorityStateScaleCheckpoint {
    pub commits: u64,
    pub stats: TransactionLogStorageStats,
    pub selected_snapshot_bytes: u64,
}

/// Every element is smaller than every later one.
pub open spec fn strictly_increasing(s: Seq<u64>) -> bool {
    forall|i: int, j: int| 0 <= i < j < s.len() ==> s[i] < s[j]
}

/// Largest number of commits a run may retain for its final verification.
pub const MAX_FINAL_COMMITS: u64 = 4_096;

impl AuthorityStateScaleProfile {
    pub open spec fn has_workload(&self) -> bool {
        self.live_keys != 0 && self.value_bytes != 0
    }

    /// At least two checkpoints, strictly increasing, the first after every
    /// live key has been written once.
    pub open spec fn has_ordered_checkpoints(&self) -> bool {
        &&& self.commit_checkpoints@.len() >= 2
        &&& self.commit_checkpoints@[0] >= self.live_keys
        &&& strictly_increasing(self.commit_checkpoints@)
    }

    pub open spec fn final_commits(&self) -> u64 {
        self.commit_checkpoints@.last()
    }

    pub open spec fn valid(&self) -> bool {
        &&& self.has_workload()
        &&& self.has_ordered_checkpoints()
        &&& self.final_commits() <= MAX_FINAL_COMMITS
        &&& self.max_projected_growth_ratio != 0
    }
}

/// Accept exactly the valid profiles; the first violated rule names the error.
pub fn validate_profile(profile: &AuthorityStateScaleProfile) -> (result: Result<(), String>)
    ensures
        result is Ok <==> profile.valid(),
        !profile.has_workload() ==> (result matches Err(e)
            && e@ == "authority-state profile requires live keys and value bytes"@),
        profile.has_workload() && !profile.has_ordered_checkpoints() ==> (result matches Err(e)
            && e@ == "authority-state checkpoints must be strictly increasing and begin after live-key fill"@),
        profile.has_workload() && profile.has_ordered_checkpoints() && profile.final_commits() > MAX_FINAL_COMMITS
            ==> (result matches Err(e)
            && e@ == "authority-state v1 retains at most 4096 records for final verification"@),
        profile.has_workload() && profile.has_ordered_checkpoints() && profile.final_commits() <= MAX_FINAL_COMMITS
            && profile.max_projected_growth_ratio == 0 ==> (result matches Err(e)
            && e@ == "authority-state growth ceiling must be positive"@),
{
    if profile.live_keys == 0 || profile.value_bytes == 0 {
        return Err("authority-state profile requires live keys and value bytes".to_owned());
    }
    let checkpoints = &profile.commit_checkpoints;
    let ordered_message = "authority-state checkpoints must be strictly increasing and begin after live-key fill";
    if checkpoints.len() < 2 || checkpoints[0] < profile.live_keys {
        return Err(ordered_message.to_owned());
    }
    let mut index: usize = 1;
    while index < checkpoints.len()
        invariant
            1 <= index <= checkpoints@.len(),
            profile.has_workload(),
            checkpoints@ == profile.commit_checkpoints@,
            checkpoints@.len() >= 2,
            checkpoints@[0] >= profile.live_keys,
            ordered_message@ == "authority-state checkpoints must be strictly increasing and begin after live-key fill"@,
            strictly_increasing(checkpoints@.subrange(0, index as int)),
        decreases checkpoints@.len() - index,
    {
        if checkpoints[index - 1] >= checkpoints[index] {
            assert(!strictly_increasing(checkpoints@)) by {
                assert(checkpoints@[index - 1] >= checkpoints@[index as int]);
            }
            return Err(ordered_message.to_owned());
        }
        assert(strictly_increasing(checkpoints@.subrange(0, index + 1))) by {
            let prior = checkpoints@.subrange(0, index as int);
            let next = checkpoints@.subrange(0, index + 1);
            assert forall|i: int, j: int| 0 <= i < j < next.len() implies next[i] < next[j] by {
                if j < index {
                    assert(prior[i] < prior[j]);
                } else if i < index - 1 {
                    assert(prior[i] < prior[index - 1]);
                }
            }
        }
        index = index + 1;
    }
    assert(checkpoints@.subrange(0, checkpoints@.len() as int) =~= checkpoints@);
    if checkpoints[checkpoints.len() - 1] > MAX_FINAL_COMMITS {
        return Err("authority-state v1 retains at most 4096 records for final verification".to_owned());
    }
    if profile.max_projected_growth_ratio == 0 {
        return Err("authority-state growth ceiling must be positive".to_owned());
    }
    Ok(())
}

/// The frontier-dependent counters of a checkpoint: with split frontiers the
/// conflict floor reaches the high watermark and nothing else is retained for
/// retries; without them one entry per commit is retained in each table.
pub open spec fn split_counts_hold(commits: u64, split: bool, stats: TransactionLogStorageStats) -> bool {
    if split {
        &&& stats.conflict_retention_floor == stats.high_watermark
        &&& stats.retry_clients == 1
        &&& stats.retained_conflict_versions == 0
        &&& stats.durable_outcomes == 0
        &&& stats.request_fingerprints == 0
        &&& stats.transaction_retry_outcomes == 0
        &&& stats.transaction_retry_fingerprints == 0
    } else {
        &&& stats.conflict_retention_floor == 0
        &&& stats.retry_clients == 0
        &&& stats.retained_conflict_versions == commits
        &&& stats.durable_outcomes == commits
        &&& stats.request_fingerprints == commits
        &&& stats.transaction_retry_outcomes == commits
        &&& stats.transaction_retry_fingerprints == commits
    }
}

/// Complete, exact accounting at a checkpoint after `commits` commits.
pub open spec fn accounting_holds(
    commits: u64,
    mode: AuthorityStateScaleMode,
    profile: AuthorityStateScaleProfile,
    stats: TransactionLogStorageStats,
) -> bool {
    &&& stats.format_version == 2
    &&& stats.retention_floor == 0
    &&& stats.projected_retention_floor == stats.high_watermark
    &&& stats.live_keys == (if profile.live_keys <= commits { profile.live_keys } else { commits })
    &&& split_counts_hold(commits, mode.splits_frontiers(), stats)
    &&& stats.retained_records == commits
    &&& stats.projected_retained_records == 0
    &&& stats.projected_retained_transactions_bytes == 0
    &&& stats.snapshot_bytes > stats.projected_snapshot_bytes
    &&& stats.transaction_authority_bytes != 0
    &&& stats.serving_state_bytes != 0
    &&& stats.resolver_state_bytes != 0
    &&& stats.transaction_retry_state_bytes != 0
    &&& stats.transaction_frontier_state_bytes != 0
    &&& stats.durable_outcomes_bytes != 0
    &&& stats.request_fingerprints_bytes != 0
}

/// The text that opens the error for a checkpoint that breaks the accounting.
pub open spec fn checkpoint_violation_prefix(commits: u64) -> Seq<char> {
    "authority-state checkpoint "@ + ascii_text(decimal(commits as nat)) + " violated complete accounting: "@
}

/// Accept a checkpoint exactly when its accounting is complete; the error
/// names the checkpoint and then renders the accounting.
pub fn validate_checkpoint(
    commits: u64,
    mode: AuthorityStateScaleMode,
    profile: &AuthorityStateScaleProfile,
    stats: &TransactionLogStorageStats,
) -> (result: Result<(), String>)
    ensures
        result is Ok <==> accounting_holds(commits, mode, *profile, *stats),
        result matches Err(e) ==> e@ == checkpoint_violation_prefix(commits) + storage_stats_debug(*stats),
{
    let split = mode.split_frontiers();
    let split_counts = if split {
        stats.conflict_retention_floor == stats.high_watermark && stats.retry_clients == 1
            && stats.retained_conflict_versions == 0 && stats.durable_outcomes == 0
            && stats.request_fingerprints == 0 && stats.transaction_retry_outcomes == 0
            && stats.transaction_retry_fingerprints == 0
    } else {
        stats.conflict_retention_floor == 0 && stats.retry_clients == 0
            && stats.retained_conflict_versions == commits && stats.durable_outcomes == commits
            && stats.request_fingerprints == commits && stats.transaction_retry_outcomes == commits
            && stats.transaction_retry_fingerprints == commits
    };
    let expected_live = if profile.live_keys <= commits { profile.live_keys } else { commits };
    if stats.format_version != 2 || stats.retention_floor != 0
        || stats.projected_retention_floor != stats.high_watermark || stats.live_keys != expected_live
        || !split_counts || stats.retained_records != commits || stats.projected_retained_records != 0
        || stats.projected_retained_transactions_bytes != 0
        || stats.snapshot_bytes <= stats.projected_snapshot_bytes
        || stats.transaction_authority_bytes == 0 || stats.serving_state_bytes == 0
        || stats.resolver_state_bytes == 0 || stats.transaction_retry_state_bytes == 0
        || stats.transaction_frontier_state_bytes == 0 || stats.durable_outcomes_bytes == 0
        || stats.request_fingerprints_bytes == 0
    {
        let mut message = "authority-state checkpoint ".to_owned();
        let number = decimal_text(commits);
        append_text(&mut message, number.as_str());
        append_text(&mut message, " violated complete accounting: ");
        let rendered = stats.debug_text();
        append_text(&mut message, rendered.as_str());
        return Err(message);
    }
    Ok(())
}

/// The accounting size that a mode tracks for its growth curve.
pub open spec fn selected_bytes(mode: AuthorityStateScaleMode, stats: TransactionLogStorageStats) -> u64 {
    match mode {
        AuthorityStateScaleMode::AlignedFrontiersProjection
        | AuthorityStateScaleMode::IdealStreamPopProjection => stats.projected_snapshot_bytes,
        AuthorityStateScaleMode::NoPopControl => stats.snapshot_bytes,
        AuthorityStateScaleMode::RetainedOnlyAccountingPoison => stats.projected_retained_transactions_bytes,
        AuthorityStateScaleMode::ServingOnlyAccountingPoison => stats.serving_state_bytes,
    }
}

/// Record the checkpoint after `commits` commits with the size the mode tracks.
pub fn record_checkpoint(
    commits: u64,
    mode: AuthorityStateScaleMode,
    stats: TransactionLogStorageStats,
) -> (checkpoint: AuthorityStateScaleCheckpoint)
    ensures
        checkpoint.commits == commits,
        checkpoint.stats == stats,
        checkpoint.selected_snapshot_bytes == selected_bytes(mode, stats),
{
    let selected_snapshot_bytes = match mode {
        AuthorityStateScaleMode::AlignedFrontiersProjection
        | AuthorityStateScaleMode::IdealStreamPopProjection => stats.projected_snapshot_bytes,
        AuthorityStateScaleMode::NoPopControl => stats.snapshot_bytes,
        AuthorityStateScaleMode::RetainedOnlyAccountingPoison => stats.projected_retained_transactions_bytes,
        AuthorityStateScaleMode::ServingOnlyAccountingPoison => stats.serving_state_bytes,
    };
    AuthorityStateScaleCheckpoint { commits, stats, selected_snapshot_bytes }
}

/// Whether commit `request_id` is the next checkpoint of the profile.
pub fn is_next_checkpoint(profile: &AuthorityStateScaleProfile, next_checkpoint: usize, request_id: u64) -> (hit: bool)
    ensures
        hit == (next_checkpoint < profile.commit_checkpoints@.len()
            && profile.commit_checkpoints@[next_checkpoint as int] == request_id),
{
    next_checkpoint < profile.commit_checkpoints.len() && profile.commit_checkpoints[next_checkpoint] == request_id
}

/// The fill byte of commit `request_id`: a capital letter cycling with the
/// seed and the request.
pub open spec fn scale_fill(seed: u64, request_id: u64) -> u8 {
    (65 + (seed + request_id) % 26) as u8
}

/// The command of commit `request_id`: set key slot `(request_id - 1) %
/// live_keys` to `value_bytes` copies of the fill byte, read at the admitted
/// read version, conflicting on writes to the key.
pub fn scale_command(seed: u64, request_id: u64, read_version: u64, profile: &AuthorityStateScaleProfile) -> (command: TransactionCommand)
    requires
        request_id >= 1,
        profile.live_keys != 0,
        seed + request_id <= u64::MAX,
    ensures
        single_set_command(
            command,
            read_version,
            Seq::empty(),
            range_key_spec(((request_id - 1) % (profile.live_keys as int)) as nat),
            Seq::new(profile.value_bytes as nat, |i: int| scale_fill(seed, request_id)),
        ),
{
    let key_index = (request_id - 1) % profile.live_keys;
    let key = range_key(key_index);
    let fill = (65 + (seed + request_id) % 26) as u8;
    let mut value: Vec<u8> = Vec::new();
    let mut index: usize = 0;
    while index < profile.value_bytes
        invariant
            index <= profile.value_bytes,
            fill == scale_fill(seed, request_id),
            value@ == Seq::new(index as nat, |i: int| scale_fill(seed, request_id)),
        decreases profile.value_bytes - index,
    {
        value.push(fill);
        index = index + 1;
        assert(value@ =~= Seq::new(index as nat, |i: int| scale_fill(seed, request_id)));
    }
    set_command(read_version, false, key, value)
}

/// Client of the frontier advances: the workload client with bit 62 set,
/// saturating.
pub open spec fn frontier_client(seed: u64) -> u64 {
    let client = if seed >= 1 { seed } else { 1u64 };
    if client + 0x4000_0000_0000_0000u64 > u64::MAX { u64::MAX } else { (client + 0x4000_0000_0000_0000u64) as u64 }
}

/// The frontier advance taken at a checkpoint: the identity that submits it
/// and the advance itself, which moves the conflict floor to the checkpoint's
/// commit version and expires the workload client's retries through
/// `request_id`.
pub fn frontier_advance(seed: u64, sequence: u64, commit_version: u64, request_id: u64) -> (plan: (RequestIdentity, TransactionFrontierAdvance))
    ensures
        plan.0 == (RequestIdentity { client_id: frontier_client(seed), request_id: sequence }),
        plan.1.sequence == sequence,
        plan.1.conflict_retention_floor == commit_version,
        plan.1.retry_floors@ == seq![TransactionRetryFloor {
            client_id: if seed >= 1 { seed } else { 1u64 },
            through_request_id: request_id,
        }],
{
    let client = if seed >= 1 { seed } else { 1u64 };
    let advance_client = client.saturating_add(1u64 << 62u64);
    assert((1u64 << 62u64) == 0x4000_0000_0000_0000u64) by (bit_vector);
    let mut retry_floors: Vec<TransactionRetryFloor> = Vec::new();
    retry_floors.push(TransactionRetryFloor { client_id: client, through_request_id: request_id });
    (
        RequestIdentity { client_id: advance_client, request_id: sequence },
        TransactionFrontierAdvance { sequence, conflict_retention_floor: commit_version, retry_floors },
    )
}

/// Whether the authority applied exactly the requested frontier advance.
pub fn frontier_applied(advanced: &TransactionFrontierApplyResponse, sequence: u64, commit_version: u64) -> (exact: bool)
    ensures
        exact == (advanced.sequence == sequence && advanced.conflict_retention_floor == commit_version),
{
    advanced.sequence == sequence && advanced.conflict_retention_floor == commit_version
}

/// The rejection text of a retry below the retained floor.
pub open spec fn below_floor_text() -> Seq<u8> {
    "below its retained floor"@.map_values(|c: char| c as u8)
}

/// An expired retry fails closed: it is refused, and the refusal says it
/// fell below the retained floor.
pub fn expired_retry_rejected(outcome: &Result<TransactionApplyResponse, String>) -> (rejected: bool)
    ensures
        rejected == (outcome matches Err(e) && contains_bytes(vstd::utf8::encode_utf8(e@), below_floor_text())),
{
    match outcome {
        Ok(_) => false,
        Err(error) => {
            let needle = "below its retained floor";
            proof {
                reveal_strlit("below its retained floor");
                vstd::string::is_ascii_spec_bytes(needle);
            }
            assert(needle.is_ascii());
            assert(needle.spec_bytes() =~= below_floor_text());
            find_bytes(error.as_str().as_bytes(), needle.as_bytes())
        },
    }
}

/// The run-level judgement of one authority-state scale run.
#[derive(Clone, Copy, Debug, PartialEq, Eq, Structural)]
pub struct AuthorityStateScaleVerdict {
    pub bounded_state: bool,
    pub accounting_complete: bool,
    pub projection_non_mutating: bool,
    pub correctness_anomalies: u64,
}

/// The verdict over the recorded checkpoints: the state stays bounded when the
/// last selected size is within the growth ceiling times the first (the
/// product saturating); the projection did not mutate the stream when the final
/// read is complete and returns every commit; each of a failed projection, an
/// expired retry that was not refused under split frontiers, and each
/// checkpoint of an incomplete accounting counts as an anomaly.
pub fn scale_verdict(
    mode: AuthorityStateScaleMode,
    profile: &AuthorityStateScaleProfile,
    checkpoints: &[AuthorityStateScaleCheckpoint],
    final_page_complete: bool,
    final_page_records: usize,
    final_commits: u64,
    expired_retry_rejected: bool,
) -> (verdict: AuthorityStateScaleVerdict)
    requires
        checkpoints@.len() >= 1,
        checkpoints@.len() + 2 <= u64::MAX,
    ensures
        verdict.bounded_state == (checkpoints@.last().selected_snapshot_bytes <= sat_mul(
            checkpoints@[0].selected_snapshot_bytes,
            profile.max_projected_growth_ratio,
        )),
        verdict.accounting_complete == mode.counts_all_state(),
        verdict.projection_non_mutating == (final_page_complete && final_page_records == final_commits),
        verdict.correctness_anomalies == (if verdict.projection_non_mutating { 0int } else { 1int })
            + (if mode.splits_frontiers() && !expired_retry_rejected { 1int } else { 0int })
            + (if mode.counts_all_state() { 0int } else { checkpoints@.len() as int }),
{
    let first = checkpoints[0].selected_snapshot_bytes;
    let last = checkpoints[checkpoints.len() - 1].selected_snapshot_bytes;
    let bounded_state = last <= saturating_mul_u64(first, profile.max_projected_growth_ratio);
    let accounting_complete = mode.accounting_complete();
    let projection_non_mutating = final_page_complete && (final_page_records as u64) == final_commits;
    let mut anomalies: u64 = 0;
    if !projection_non_mutating {
        anomalies = anomalies + 1;
    }
    if mode.split_frontiers() && !expired_retry_rejected {
        anomalies = anomalies + 1;
    }
    if !accounting_complete {
        anomalies = anomalies + checkpoints.len() as u64;
    }
    AuthorityStateScaleVerdict { bounded_state, accounting_complete, projection_non_mutating, correctness_anomalies: anomalies }
}

} // verus!
