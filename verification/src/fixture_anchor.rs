//! The fixture anchor: one empty transaction committed through a lost
//! response and recovered by exact retry on a fresh authority, and the rules
//! that judge a run of anchors.

use crate::transaction::{RequestIdentity, RetainedTransactionRecord, TransactionApplyResponse, TransactionCommand, TransactionStatus};
use crate::transaction_log::TransactionLogStorageStats;
use vstd::prelude::*;

verus! {

#[derive(Clone, Copy, Debug, PartialEq, Eq, Structural)]
pub enum FixtureAnchorMode {
    Candidate,
    SecondIdentityBypassPoison,
}

pub open spec fn anchor_mode_id(mode: FixtureAnchorMode) -> Seq<char> {
    match mode {
        FixtureAnchorMode::Candidate => "candidate"@,
        FixtureAnchorMode::SecondIdentityBypassPoison => "second_identity_bypass_poison"@,
    }
}

impl FixtureAnchorMode {
    /// Stable identifier used by receipts.
    pub fn id(self) -> (id: &'static str)
        ensures
            id@ == anchor_mode_id(self),
    {
        match self {
            FixtureAnchorMode::Candidate => "candidate",
            FixtureAnchorMode::SecondIdentityBypassPoison => "second_identity_bypass_poison",
        }
    }
}

/// What one fresh authority showed of its anchor.
#[derive(Clone, Copy, Debug, PartialEq, Eq, Structural)]
pub struct FixtureAnchorObservation {
    pub anchor_version: u64,
    pub anchor_records: u64,
    pub anchor_mutations: u64,
    pub live_keys: u64,
    pub lost_response_observed: bool,
    pub exact_retry_returned_original: bool,
    pub second_identity_guard_rejected: bool,
}

/// The run-level judgement of the anchors.
#[derive(Clone, Copy, Debug, PartialEq, Eq, Structural)]
pub struct FixtureAnchorReport {
    pub anchor_version_stable: bool,
    pub second_identity_bypass_detected: bool,
    pub correctness_anomalies: u64,
}

/// An established anchor.
#[derive(Clone, Copy, Debug, PartialEq, Eq, Structural)]
pub struct FixtureAnchor {
    pub version: u64,
    pub records: u64,
    pub mutations: u64,
    pub live_keys: u64,
    pub lost_response_observed: bool,
    pub exact_retry_returned_original: bool,
}

/// The anchor command: no reads, no conflicts and no mutations, from version
/// zero.
pub open spec fn is_empty_anchor(command: TransactionCommand) -> bool {
    command.read_version == 0 && command.read_conflicts@.len() == 0 && command.write_conflicts@.len() == 0
        && command.mutations@.len() == 0
}

/// The canonical, empty anchor command.
pub fn empty_anchor_command() -> (command: TransactionCommand)
    ensures
        is_empty_anchor(command),
{
    TransactionCommand { read_version: 0, read_conflicts: Vec::new(), write_conflicts: Vec::new(), mutations: Vec::new() }
}

/// Largest number of fresh authorities a run may request.
pub const MAX_FRESH_AUTHORITIES: usize = 32;

/// A run requests 2 to 32 fresh authorities.
pub fn check_fresh_authorities(fresh_authorities: usize) -> (result: Result<(), String>)
    ensures
        result is Ok <==> 2 <= fresh_authorities <= MAX_FRESH_AUTHORITIES,
        result matches Err(e) ==> e@ == "fixture anchor requires 2..=32 fresh authorities"@,
{
    if fresh_authorities < 2 || fresh_authorities > MAX_FRESH_AUTHORITIES {
        return Err("fixture anchor requires 2..=32 fresh authorities".to_owned());
    }
    Ok(())
}

/// The anchor needs an authority that has committed nothing.
pub fn check_fresh(before: &TransactionLogStorageStats) -> (result: Result<(), String>)
    ensures
        result is Ok <==> before.high_watermark == 0 && before.live_keys == 0 && before.retained_records == 0,
        result matches Err(e) ==> e@ == "fixture anchor requires a fresh transaction authority"@,
{
    if before.high_watermark != 0 || before.live_keys != 0 || before.retained_records != 0 {
        return Err("fixture anchor requires a fresh transaction authority".to_owned());
    }
    Ok(())
}

/// After the lost response the authority must hold exactly the one empty
/// record the anchor committed.
pub fn check_committed_without_reply(stats: &TransactionLogStorageStats) -> (result: Result<(), String>)
    ensures
        result is Ok <==> stats.high_watermark != 0 && stats.live_keys == 0 && stats.retained_records == 1,
        result matches Err(e) ==> e@ == "lost-response probe did not observe the committed empty anchor before retry"@,
{
    if stats.high_watermark == 0 || stats.live_keys != 0 || stats.retained_records != 1 {
        return Err("lost-response probe did not observe the committed empty anchor before retry".to_owned());
    }
    Ok(())
}

/// Two answers agree in every field, a rejection's reason by its text.
pub open spec fn same_response(a: TransactionApplyResponse, b: TransactionApplyResponse) -> bool {
    &&& match (a.status, b.status) {
        (TransactionStatus::Committed { commit_version: x }, TransactionStatus::Committed { commit_version: y }) => x == y,
        (TransactionStatus::Conflict { conflicting_version: x }, TransactionStatus::Conflict { conflicting_version: y }) => x == y,
        (TransactionStatus::Rejected { reason: x }, TransactionStatus::Rejected { reason: y }) => x@ == y@,
        _ => false,
    }
    &&& a.applied_mutation_count == b.applied_mutation_count
    &&& a.applied_log_index == b.applied_log_index
    &&& a.batch_order == b.batch_order
}

/// Whether two answers are equal.
pub fn responses_equal(a: &TransactionApplyResponse, b: &TransactionApplyResponse) -> (equal: bool)
    ensures
        equal == same_response(*a, *b),
{
    let same_status = match (&a.status, &b.status) {
        (TransactionStatus::Committed { commit_version: x }, TransactionStatus::Committed { commit_version: y }) => x == y,
        (TransactionStatus::Conflict { conflicting_version: x }, TransactionStatus::Conflict { conflicting_version: y }) => x == y,
        (TransactionStatus::Rejected { reason: x }, TransactionStatus::Rejected { reason: y }) => x.eq(y),
        _ => false,
    };
    same_status && a.applied_mutation_count == b.applied_mutation_count && a.applied_log_index == b.applied_log_index
        && a.batch_order == b.batch_order
}

/// The retry must recover a committed outcome, the exact retry must return it
/// unchanged, and its version must be the one committed before the retry;
/// the recovered commit version is returned.
pub fn check_recovery(
    recovered: &TransactionApplyResponse,
    replay: &TransactionApplyResponse,
    pre_retry_high_watermark: u64,
) -> (result: Result<u64, String>)
    ensures
        !(recovered.status is Committed) ==> (result matches Err(e)
            && e@ == "fixture anchor retry did not recover a committed outcome"@),
        recovered.status matches TransactionStatus::Committed { commit_version } ==> {
            &&& !same_response(*replay, *recovered) ==> (result matches Err(e) && e@ == "fixture anchor exact retry changed its outcome"@)
            &&& same_response(*replay, *recovered) && commit_version != pre_retry_high_watermark ==> (result matches Err(e)
                && e@ == "fixture anchor retry did not recover the pre-retry commit version"@)
            &&& same_response(*replay, *recovered) && commit_version == pre_retry_high_watermark ==> result == Ok::<u64, String>(
                commit_version,
            )
        },
{
    let commit_version = match recovered.status {
        TransactionStatus::Committed { commit_version } => commit_version,
        _ => {
            return Err("fixture anchor retry did not recover a committed outcome".to_owned());
        },
    };
    if !responses_equal(replay, recovered) {
        return Err("fixture anchor exact retry changed its outcome".to_owned());
    }
    if commit_version != pre_retry_high_watermark {
        return Err("fixture anchor retry did not recover the pre-retry commit version".to_owned());
    }
    Ok(commit_version)
}

/// The mutations of the records, summed.
pub open spec fn mutation_total(records: Seq<RetainedTransactionRecord>) -> int
    decreases records.len(),
{
    if records.len() == 0 {
        0
    } else {
        mutation_total(records.drop_last()) + records.last().command.mutations@.len()
    }
}

/// The anchor left one complete, empty retained record at its version, and
/// nothing else.
pub open spec fn retained_exact(
    records: Seq<RetainedTransactionRecord>,
    complete: bool,
    commit_version: u64,
    after: TransactionLogStorageStats,
) -> bool {
    &&& records.len() == 1
    &&& complete
    &&& records[0].commit_version == commit_version
    &&& records[0].batch_order == 0
    &&& is_empty_anchor(records[0].command)
    &&& after.high_watermark == commit_version
    &&& after.live_keys == 0
    &&& after.retained_records == 1
}

/// Accept the retained read of the anchor, producing the established anchor.
pub fn check_retained(
    records: &[RetainedTransactionRecord],
    complete: bool,
    commit_version: u64,
    after: &TransactionLogStorageStats,
) -> (result: Result<FixtureAnchor, String>)
    ensures
        result is Ok <==> retained_exact(records@, complete, commit_version, *after),
        result matches Ok(anchor) ==> anchor == (FixtureAnchor {
            version: commit_version,
            records: 1,
            mutations: 0,
            live_keys: 0,
            lost_response_observed: true,
            exact_retry_returned_original: true,
        }),
        result matches Err(e) ==> e@ == "fixture anchor did not produce one empty retained record"@,
{
    let exact = records.len() == 1 && complete && records[0].commit_version == commit_version
        && records[0].batch_order == 0 && records[0].command.read_version == 0
        && records[0].command.read_conflicts.len() == 0 && records[0].command.write_conflicts.len() == 0
        && records[0].command.mutations.len() == 0 && after.high_watermark == commit_version && after.live_keys == 0
        && after.retained_records == 1;
    if !exact {
        return Err("fixture anchor did not produce one empty retained record".to_owned());
    }
    Ok(FixtureAnchor {
        version: commit_version,
        records: 1,
        mutations: 0,
        live_keys: 0,
        lost_response_observed: true,
        exact_retry_returned_original: true,
    })
}

/// The second identity of a run: the same client, the next request.
pub fn second_identity(identity: RequestIdentity) -> (second: RequestIdentity)
    ensures
        second.client_id == identity.client_id,
        second.request_id == (if identity.request_id == u64::MAX { u64::MAX } else { (identity.request_id + 1) as u64 }),
{
    RequestIdentity { client_id: identity.client_id, request_id: identity.request_id.saturating_add(1) }
}

/// The bypass poison is detected when a second identity committed above the
/// anchor, leaving two records and no live key.
pub fn bypass_detected(second: &TransactionApplyResponse, anchor_version: u64, after: &TransactionLogStorageStats) -> (detected: bool)
    ensures
        detected == (second.status matches TransactionStatus::Committed { commit_version } && commit_version
            > anchor_version && after.retained_records == 2 && after.live_keys == 0),
{
    match second.status {
        TransactionStatus::Committed { commit_version } => commit_version > anchor_version && after.retained_records == 2
            && after.live_keys == 0,
        _ => false,
    }
}

/// Every anchor is positive, single and empty, went through the lost
/// response and exact retry, and the second identity was refused.
pub open spec fn anchor_exact(o: FixtureAnchorObservation) -> bool {
    o.anchor_version > 0 && o.anchor_records == 1 && o.anchor_mutations == 0 && o.live_keys == 0
        && o.lost_response_observed && o.exact_retry_returned_original && o.second_identity_guard_rejected
}

/// Every fresh authority anchored at the same version.
pub open spec fn versions_stable(observations: Seq<FixtureAnchorObservation>) -> bool {
    observations.len() > 0 && forall|i: int| 0 <= i < observations.len() ==> (#[trigger] observations[i]).anchor_version
        == observations[0].anchor_version
}

/// Judge a run: the candidate must anchor every requested authority at one
/// version, each exactly; the poison must anchor once, refuse the second
/// identity by its guard, and detect the bypass.
pub fn judge_anchors(
    mode: FixtureAnchorMode,
    fresh_authorities: usize,
    observations: &[FixtureAnchorObservation],
    second_identity_bypass_detected: bool,
) -> (report: FixtureAnchorReport)
    ensures
        report.anchor_version_stable == versions_stable(observations@),
        report.second_identity_bypass_detected == second_identity_bypass_detected,
        report.correctness_anomalies == (if mode is Candidate {
            if observations@.len() == fresh_authorities && versions_stable(observations@) && forall|i: int|
                0 <= i < observations@.len() ==> anchor_exact(#[trigger] observations@[i]) {
                0u64
            } else {
                1u64
            }
        } else {
            if observations@.len() == 1 && observations@[0].second_identity_guard_rejected
                && second_identity_bypass_detected {
                0u64
            } else {
                1u64
            }
        }),
{
    let mut stable = observations.len() > 0;
    let mut all_exact = true;
    let mut index: usize = 0;
    while index < observations.len()
        invariant
            index <= observations@.len(),
            stable == (observations@.len() > 0 && forall|i: int| 0 <= i < index ==> (#[trigger] observations@[i]).anchor_version
                == observations@[0].anchor_version),
            all_exact == forall|i: int| 0 <= i < index ==> anchor_exact(#[trigger] observations@[i]),
        decreases observations@.len() - index,
    {
        let o = observations[index];
        stable = stable && o.anchor_version == observations[0].anchor_version;
        all_exact = all_exact && o.anchor_version > 0 && o.anchor_records == 1 && o.anchor_mutations == 0
            && o.live_keys == 0 && o.lost_response_observed && o.exact_retry_returned_original
            && o.second_identity_guard_rejected;
        index = index + 1;
    }
    let exact = match mode {
        FixtureAnchorMode::Candidate => observations.len() == fresh_authorities && stable && all_exact,
        FixtureAnchorMode::SecondIdentityBypassPoison => observations.len() == 1
            && observations[0].second_identity_guard_rejected && second_identity_bypass_detected,
    };
    FixtureAnchorReport {
        anchor_version_stable: stable,
        second_identity_bypass_detected,
        correctness_anomalies: if exact { 0 } else { 1 },
    }
}

} // verus!
