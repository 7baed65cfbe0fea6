//! Frontier-aligned bounded process snapshots: the integer bounds of the
//! frozen profile, the cycle workloads, the per-cycle state shape and
//! physical accounting, the lookups over batch answers, and the judgement of
//! a run (controls detected and correctness anomalies).

use crate::process_snapshot_compaction::{
    batch_versions, lcg_value, lemma_total_prefix, total, CompactionCounter, CompactionObservation,
};
use crate::transaction::{
    single_set_command, set_command, GenerationCredential, RequestIdentity, TransactionApplyResponse,
    TransactionBatchApplyResponse, TransactionBatchItem,
};
use crate::provider_incarnation::text_equal;
use crate::mvcc_gc_authority::PublicationObjectKind;
use crate::transaction_log::{
    ObjectFrontierRecord, TransactionFrontierAdvance, TransactionFrontierApplyResponse, TransactionLogStorageStats, TransactionRetryFloor,
};
use crate::comparison::decimal_chars;
use crate::workload::ascii_bytes;
use crate::codec::{
    append_text, count_if, decimal_text, decimal, extend_bytes, flag, push_decimal, push_zero_padded, sat_add, sat_mul, saturating_mul_u64,
    zero_padded,
};
use vstd::prelude::*;

verus! {

/// Frozen candidate, omitted-frontier control, or accounting poison.
#[derive(Clone, Copy, Debug, PartialEq, Eq, Structural)]
pub enum FrontieredProcessSnapshotMode {
    AlignedRqoCandidate,
    NoRetryFrontierControl,
    AccountingPoison,
}

pub open spec fn frontiered_mode_id(mode: FrontieredProcessSnapshotMode) -> Seq<char> {
    match mode {
        FrontieredProcessSnapshotMode::AlignedRqoCandidate => "aligned_r_q_o_candidate"@,
        FrontieredProcessSnapshotMode::NoRetryFrontierControl => "no_retry_frontier_control"@,
        FrontieredProcessSnapshotMode::AccountingPoison => "accounting_poison"@,
    }
}

impl FrontieredProcessSnapshotMode {
    /// Stable identifier used by receipts.
    pub fn id(self) -> (id: &'static str)
        ensures
            id@ == frontiered_mode_id(self),
    {
        match self {
            FrontieredProcessSnapshotMode::AlignedRqoCandidate => "aligned_r_q_o_candidate",
            FrontieredProcessSnapshotMode::NoRetryFrontierControl => "no_retry_frontier_control",
            FrontieredProcessSnapshotMode::AccountingPoison => "accounting_poison",
        }
    }
}

/// The integer bounds of the frozen repeated-frontier profile; the two
/// floating-point ceilings stay with the caller.
#[derive(Clone, Copy, Debug, PartialEq, Eq, Structural)]
pub struct FrontieredSnapshotBounds {
    pub frontier_cycles: u64,
    pub transactions_per_cycle: u64,
    pub transactions_per_batch: usize,
    pub live_keys: u64,
    pub value_bytes: usize,
    pub retry_window: u64,
}

/// Number of frontier cycles every run performs.
pub const FRONTIER_CYCLES: u64 = 4;

impl FrontieredSnapshotBounds {
    /// Four cycles, each a whole number of batches of 1 to 32 transactions,
    /// positive keys and values, and a retry window shorter than a cycle.
    pub open spec fn valid(&self) -> bool {
        &&& self.frontier_cycles == FRONTIER_CYCLES
        &&& self.transactions_per_cycle != 0
        &&& 1 <= self.transactions_per_batch <= 32
        &&& (self.transactions_per_cycle as int) % (self.transactions_per_batch as int) == 0
        &&& self.live_keys != 0
        &&& self.value_bytes != 0
        &&& 1 <= self.retry_window < self.transactions_per_cycle
    }
}

/// Accept exactly the profiles whose integer bounds are valid.
pub fn validate_profile(bounds: &FrontieredSnapshotBounds) -> (result: Result<(), String>)
    ensures
        result is Ok <==> bounds.valid(),
        result matches Err(e) ==> e@ == "invalid frontiered process-snapshot profile"@,
{
    if bounds.frontier_cycles != FRONTIER_CYCLES || bounds.transactions_per_cycle == 0
        || bounds.transactions_per_batch == 0 || bounds.transactions_per_batch > 32
        || bounds.transactions_per_cycle % (bounds.transactions_per_batch as u64) != 0 || bounds.live_keys == 0
        || bounds.value_bytes == 0 || bounds.retry_window == 0 || bounds.retry_window >= bounds.transactions_per_cycle
    {
        return Err("invalid frontiered process-snapshot profile".to_owned());
    }
    Ok(())
}

/// The key of slot `index`: `frontiered-snapshot/`, the seed, `/key/`, and the
/// slot in four or more digits.
pub open spec fn workload_key_spec(seed: u64, index: u64) -> Seq<u8> {
    ascii_bytes("frontiered-snapshot/"@) + decimal(seed as nat) + ascii_bytes("/key/"@) + zero_padded(index as nat, 4)
}

fn key_with(seed: u64, infix: &str, index: u64) -> (key: Vec<u8>)
    requires
        infix.is_ascii(),
    ensures
        key@ == ascii_bytes("frontiered-snapshot/"@) + decimal(seed as nat) + ascii_bytes(infix@) + zero_padded(
            index as nat,
            4,
        ),
{
    let prefix = "frontiered-snapshot/";
    proof {
        reveal_strlit("frontiered-snapshot/");
        vstd::string::is_ascii_spec_bytes(prefix);
        vstd::string::is_ascii_spec_bytes(infix);
    }
    assert(prefix.is_ascii());
    let mut key: Vec<u8> = Vec::new();
    extend_bytes(&mut key, prefix.as_bytes());
    push_decimal(&mut key, seed);
    extend_bytes(&mut key, infix.as_bytes());
    push_zero_padded(&mut key, index, 4);
    assert(key@ =~= ascii_bytes("frontiered-snapshot/"@) + decimal(seed as nat) + ascii_bytes(infix@) + zero_padded(
        index as nat,
        4,
    ));
    key
}

/// The key of slot `index`.
pub fn workload_key(seed: u64, index: u64) -> (key: Vec<u8>)
    ensures
        key@ == workload_key_spec(seed, index),
{
    let infix = "/key/";
    proof {
        reveal_strlit("/key/");
    }
    assert(infix.is_ascii());
    key_with(seed, infix, index)
}

/// The request index of offset `offset` in a cycle starting at `start`,
/// saturating.
pub open spec fn request_index(start: u64, offset: u64) -> u64 {
    if start + offset > u64::MAX { u64::MAX } else { (start + offset) as u64 }
}

pub open spec fn successor(n: u64) -> u64 {
    if n == u64::MAX { u64::MAX } else { (n + 1) as u64 }
}

/// The item carries the credential and blindly sets the key to the value.
pub open spec fn fenced_write(
    item: TransactionBatchItem,
    identity: RequestIdentity,
    credential: GenerationCredential,
    read_version: u64,
    key: Seq<u8>,
    value: Seq<u8>,
) -> bool {
    &&& item.identity == identity
    &&& item.credential matches Some(c) && c.generation == credential.generation
        && c.transaction_system_id@ == credential.transaction_system_id@
    &&& single_set_command(item.command, read_version, Seq::empty(), key, value)
}

fn copy_credential(credential: &GenerationCredential) -> (copy: GenerationCredential)
    ensures
        copy.generation == credential.generation,
        copy.transaction_system_id@ == credential.transaction_system_id@,
{
    GenerationCredential { generation: credential.generation, transaction_system_id: credential.transaction_system_id.clone() }
}

/// One cycle's items: offsets `0..transactions_per_cycle` from `start`, each
/// writing its slot's key with its value as request `index + 1`.
pub fn workload_items(
    seed: u64,
    client_id: u64,
    start: u64,
    read_version: u64,
    bounds: &FrontieredSnapshotBounds,
    credential: &GenerationCredential,
) -> (items: Vec<TransactionBatchItem>)
    requires
        bounds.live_keys != 0,
    ensures
        items@.len() == bounds.transactions_per_cycle,
        forall|i: int| 0 <= i < items@.len() ==> fenced_write(
            #[trigger] items@[i],
            RequestIdentity { client_id, request_id: successor(request_index(start, i as u64)) },
            *credential,
            read_version,
            workload_key_spec(seed, (request_index(start, i as u64) % bounds.live_keys) as u64),
            lcg_value(seed, request_index(start, i as u64), bounds.value_bytes as nat),
        ),
{
    let mut items: Vec<TransactionBatchItem> = Vec::new();
    let mut offset: u64 = 0;
    while offset < bounds.transactions_per_cycle
        invariant
            bounds.live_keys != 0,
            offset <= bounds.transactions_per_cycle,
            items@.len() == offset,
            forall|i: int| 0 <= i < items@.len() ==> fenced_write(
                #[trigger] items@[i],
                RequestIdentity { client_id, request_id: successor(request_index(start, i as u64)) },
                *credential,
                read_version,
                workload_key_spec(seed, (request_index(start, i as u64) % bounds.live_keys) as u64),
                lcg_value(seed, request_index(start, i as u64), bounds.value_bytes as nat),
            ),
        decreases bounds.transactions_per_cycle - offset,
    {
        let index = start.saturating_add(offset);
        let key = workload_key(seed, index % bounds.live_keys);
        let value = crate::process_snapshot_compaction::deterministic_value(seed, index, bounds.value_bytes);
        let command = set_command(read_version, false, key, value);
        items.push(TransactionBatchItem {
            identity: RequestIdentity { client_id, request_id: index.saturating_add(1) },
            credential: Some(copy_credential(credential)),
            command,
        });
        offset = offset + 1;
    }
    items
}

/// The suffix key of offset `offset`.
pub open spec fn suffix_key_spec(seed: u64, offset: u64) -> Seq<u8> {
    ascii_bytes("frontiered-snapshot/"@) + decimal(seed as nat) + ascii_bytes("/suffix/"@) + zero_padded(offset as nat, 4)
}

/// Client of the final suffix: the seed (1 for seed zero) plus 200000,
/// saturating.
pub open spec fn suffix_client(seed: u64) -> u64 {
    let base = if seed >= 1 { seed } else { 1u64 };
    if base + 200_000 > u64::MAX { u64::MAX } else { (base + 200_000) as u64 }
}

/// The final suffix batch: one write per offset `0..transactions_per_batch`
/// under its own suffix key, read at the last object version.
pub fn suffix_items(
    seed: u64,
    read_version: u64,
    bounds: &FrontieredSnapshotBounds,
    credential: &GenerationCredential,
) -> (items: Vec<TransactionBatchItem>)
    ensures
        items@.len() == bounds.transactions_per_batch,
        forall|i: int| 0 <= i < items@.len() ==> fenced_write(
            #[trigger] items@[i],
            RequestIdentity { client_id: suffix_client(seed), request_id: (i + 1) as u64 },
            *credential,
            read_version,
            suffix_key_spec(seed, i as u64),
            lcg_value(seed, i as u64, bounds.value_bytes as nat),
        ),
{
    let infix = "/suffix/";
    proof {
        reveal_strlit("/suffix/");
    }
    assert(infix.is_ascii());
    let client = (if seed >= 1 { seed } else { 1 }).saturating_add(200_000);
    let mut items: Vec<TransactionBatchItem> = Vec::new();
    let mut offset: usize = 0;
    while offset < bounds.transactions_per_batch
        invariant
            offset <= bounds.transactions_per_batch,
            infix@ == "/suffix/"@,
            infix.is_ascii(),
            client == suffix_client(seed),
            items@.len() == offset,
            forall|i: int| 0 <= i < items@.len() ==> fenced_write(
                #[trigger] items@[i],
                RequestIdentity { client_id: suffix_client(seed), request_id: (i + 1) as u64 },
                *credential,
                read_version,
                suffix_key_spec(seed, i as u64),
                lcg_value(seed, i as u64, bounds.value_bytes as nat),
            ),
        decreases bounds.transactions_per_batch - offset,
    {
        let index = offset as u64;
        let key = key_with(seed, infix, index);
        let value = crate::process_snapshot_compaction::deterministic_value(seed, index, bounds.value_bytes);
        let command = set_command(read_version, false, key, value);
        items.push(TransactionBatchItem {
            identity: RequestIdentity { client_id: client, request_id: index + 1 },
            credential: Some(copy_credential(credential)),
            command,
        });
        offset = offset + 1;
    }
    items
}

/// The number of committed answers across the batches.
pub fn count_committed(responses: &[TransactionBatchApplyResponse]) -> (count: u64)
    ensures
        count == batch_versions(responses@).len(),
{
    crate::process_snapshot_compaction::count_committed(responses)
}

/// The item answers of the batches, in order.
pub open spec fn all_items(responses: Seq<TransactionBatchApplyResponse>) -> Seq<crate::transaction::TransactionBatchItemResponse>
    decreases responses.len(),
{
    if responses.len() == 0 {
        Seq::empty()
    } else {
        all_items(responses.drop_last()) + responses.last().items@
    }
}

/// The answer carried by the first item with `identity`.
pub open spec fn response_of(
    items: Seq<crate::transaction::TransactionBatchItemResponse>,
    identity: RequestIdentity,
) -> Option<TransactionApplyResponse>
    decreases items.len(),
{
    if items.len() == 0 {
        None
    } else if items[0].identity == identity {
        items[0].transaction
    } else {
        response_of(items.drop_first(), identity)
    }
}

/// The answer for the first item with `identity`, if that item carries one.
pub fn response_for_identity(responses: &[TransactionBatchApplyResponse], identity: RequestIdentity) -> (found: Option<TransactionApplyResponse>)
    ensures
        found == response_of(all_items(responses@), identity),
{
    let ghost items = all_items(responses@);
    let ghost mut k: int = 0;
    let mut r: usize = 0;
    proof {
        assert(items.skip(0) =~= items);
    }
    while r < responses.len()
        invariant
            r <= responses@.len(),
            items == all_items(responses@),
            k == all_items(responses@.take(r as int)).len(),
            k <= items.len(),
            response_of(items, identity) == response_of(items.skip(k), identity),
        decreases responses@.len() - r,
    {
        let ghost prefix = all_items(responses@.take(r as int));
        assert(responses@.take(r + 1).drop_last() =~= responses@.take(r as int));
        proof {
            lemma_all_items_prefix(responses@, r + 1);
        }
        let batch = &responses[r].items;
        let mut i: usize = 0;
        while i < batch.len()
            invariant
                i <= batch@.len(),
                batch@ == responses@[r as int].items@,
                r < responses@.len(),
                prefix == all_items(responses@.take(r as int)),
                all_items(responses@.take(r + 1)) == prefix + batch@,
                items == all_items(responses@),
                prefix.len() + batch@.len() <= items.len(),
                forall|j: int| 0 <= j < prefix.len() + batch@.len() ==> items[j] == (prefix + batch@)[j],
                k == prefix.len() + i,
                response_of(items, identity) == response_of(items.skip(k), identity),
            decreases batch@.len() - i,
        {
            assert(items.skip(k)[0] == batch@[i as int]) by {
                assert(items[k] == (prefix + batch@)[k]);
            }
            if batch[i].identity == identity {
                return match &batch[i].transaction {
                    Some(response) => Some(copy_response(response)),
                    None => None,
                };
            }
            assert(items.skip(k).drop_first() =~= items.skip(k + 1));
            proof {
                k = k + 1;
            }
            i = i + 1;
        }
        r = r + 1;
    }
    assert(responses@.take(responses@.len() as int) =~= responses@);
    assert(items.skip(k) =~= Seq::<crate::transaction::TransactionBatchItemResponse>::empty());
    None
}

proof fn lemma_all_items_prefix(responses: Seq<TransactionBatchApplyResponse>, n: int)
    requires
        0 <= n <= responses.len(),
    ensures
        all_items(responses.take(n)).len() <= all_items(responses).len(),
        forall|j: int| 0 <= j < all_items(responses.take(n)).len() ==> all_items(responses)[j] == all_items(responses.take(n))[j],
    decreases responses.len() - n,
{
    if n < responses.len() {
        lemma_all_items_prefix(responses, n + 1);
        assert(responses.take(n + 1).drop_last() =~= responses.take(n));
    } else {
        assert(responses.take(n) =~= responses);
    }
}

fn copy_response(response: &TransactionApplyResponse) -> (copy: TransactionApplyResponse)
    ensures
        copy == *response,
{
    let status = match &response.status {
        crate::transaction::TransactionStatus::Committed { commit_version } => crate::transaction::TransactionStatus::Committed {
            commit_version: *commit_version,
        },
        crate::transaction::TransactionStatus::Conflict { conflicting_version } => crate::transaction::TransactionStatus::Conflict {
            conflicting_version: *conflicting_version,
        },
        crate::transaction::TransactionStatus::Rejected { reason } => crate::transaction::TransactionStatus::Rejected {
            reason: reason.clone(),
        },
    };
    let copy = TransactionApplyResponse {
        status,
        applied_mutation_count: response.applied_mutation_count,
        applied_log_index: response.applied_log_index,
        batch_order: response.batch_order,
    };
    copy
}

/// After a cycle the resolver floor reached the object version, retries are
/// retained for the retry window once a retry frontier exists (for every
/// request otherwise), and nothing else is retained.
pub open spec fn cycle_state_shape(
    storage: TransactionLogStorageStats,
    object_version: u64,
    retry_floor: Option<u64>,
    total_requests: u64,
    retry_window: u64,
) -> bool {
    let expected_retries = if retry_floor is Some { retry_window } else { total_requests };
    &&& storage.conflict_retention_floor == object_version
    &&& storage.transaction_retry_outcomes == expected_retries
    &&& storage.transaction_retry_fingerprints == expected_retries
    &&& storage.retained_records == 0
    &&& storage.retained_conflict_versions == 0
}

/// Whether a cycle left exactly the expected retained state.
pub fn expected_state_shape(
    storage: &TransactionLogStorageStats,
    object_version: u64,
    retry_floor: Option<u64>,
    total_requests: u64,
    retry_window: u64,
) -> (holds: bool)
    ensures
        holds == cycle_state_shape(*storage, object_version, retry_floor, total_requests, retry_window),
{
    let expected_retries = match retry_floor {
        Some(_) => retry_window,
        None => total_requests,
    };
    storage.conflict_retention_floor == object_version && storage.transaction_retry_outcomes == expected_retries
        && storage.transaction_retry_fingerprints == expected_retries && storage.retained_records == 0
        && storage.retained_conflict_versions == 0
}

/// A voter's snapshot covers its purge: it reaches the purged index, which
/// is not zero, and compaction ran.
pub open spec fn frontier_covers_purge(o: CompactionObservation) -> bool {
    o.snapshot_index >= o.purged_index && o.purged_index != 0 && o.compaction_calls > 0
}

/// A voter's journal shrank and compaction reclaimed bytes.
pub open spec fn frontier_reclaimed(o: CompactionObservation) -> bool {
    o.journal_bytes_after < o.journal_bytes_before && o.compaction_reclaimed_bytes > 0
}

/// The physical accounting of one frontier cycle's maintenance, over the
/// compactions of the data and publication voters.
#[derive(Clone, Copy, Debug, PartialEq, Eq, Structural)]
pub struct FrontieredCycleAccounting {
    pub snapshot_covers_purge: bool,
    pub journals_reclaimed: bool,
    pub journal_bytes_before: u64,
    pub journal_bytes_after: u64,
    pub snapshot_bytes: u64,
    pub actual_physical_bytes: u64,
    pub reported_physical_bytes: u64,
}

/// Account one cycle's maintenance: every snapshot covers its purge, every
/// journal reclaimed bytes, the byte counters summed over the voters, the
/// actual physical bytes are the snapshots plus the journals after
/// (saturating), and the accounting poison reports the journals alone.
pub fn frontiered_cycle_accounting(
    mode: FrontieredProcessSnapshotMode,
    compaction: &[CompactionObservation],
) -> (c: FrontieredCycleAccounting)
    requires
        total(compaction@, CompactionCounter::JournalBefore) <= u64::MAX,
        total(compaction@, CompactionCounter::JournalAfter) <= u64::MAX,
        total(compaction@, CompactionCounter::Snapshot) <= u64::MAX,
    ensures
        c.snapshot_covers_purge == forall|i: int|
            0 <= i < compaction@.len() ==> frontier_covers_purge(#[trigger] compaction@[i]),
        c.journals_reclaimed == forall|i: int| 0 <= i < compaction@.len() ==> frontier_reclaimed(#[trigger] compaction@[i]),
        c.journal_bytes_before == total(compaction@, CompactionCounter::JournalBefore),
        c.journal_bytes_after == total(compaction@, CompactionCounter::JournalAfter),
        c.snapshot_bytes == total(compaction@, CompactionCounter::Snapshot),
        c.actual_physical_bytes == sat_add(c.snapshot_bytes, c.journal_bytes_after),
        c.reported_physical_bytes == (if mode is AccountingPoison {
            c.journal_bytes_after
        } else {
            c.actual_physical_bytes
        }),
{
    let mut cover = true;
    let mut reclaim = true;
    let mut before: u64 = 0;
    let mut after: u64 = 0;
    let mut snapshot: u64 = 0;
    let mut index: usize = 0;
    while index < compaction.len()
        invariant
            index <= compaction@.len(),
            total(compaction@, CompactionCounter::JournalBefore) <= u64::MAX,
            total(compaction@, CompactionCounter::JournalAfter) <= u64::MAX,
            total(compaction@, CompactionCounter::Snapshot) <= u64::MAX,
            cover == forall|i: int| 0 <= i < index ==> frontier_covers_purge(#[trigger] compaction@[i]),
            reclaim == forall|i: int| 0 <= i < index ==> frontier_reclaimed(#[trigger] compaction@[i]),
            before == total(compaction@.take(index as int), CompactionCounter::JournalBefore),
            after == total(compaction@.take(index as int), CompactionCounter::JournalAfter),
            snapshot == total(compaction@.take(index as int), CompactionCounter::Snapshot),
        decreases compaction@.len() - index,
    {
        let o = compaction[index];
        proof {
            assert(compaction@.take(index + 1).drop_last() =~= compaction@.take(index as int));
            lemma_total_prefix(compaction@, CompactionCounter::JournalBefore, index + 1);
            lemma_total_prefix(compaction@, CompactionCounter::JournalAfter, index + 1);
            lemma_total_prefix(compaction@, CompactionCounter::Snapshot, index + 1);
        }
        cover = cover && o.snapshot_index >= o.purged_index && o.purged_index != 0 && o.compaction_calls > 0;
        reclaim = reclaim && o.journal_bytes_after < o.journal_bytes_before && o.compaction_reclaimed_bytes > 0;
        before = before + o.journal_bytes_before;
        after = after + o.journal_bytes_after;
        snapshot = snapshot + o.snapshot_bytes;
        index = index + 1;
    }
    assert(compaction@.take(compaction@.len() as int) =~= compaction@);
    let actual = snapshot.saturating_add(after);
    let reported = match mode {
        FrontieredProcessSnapshotMode::AccountingPoison => after,
        _ => actual,
    };
    FrontieredCycleAccounting {
        snapshot_covers_purge: cover,
        journals_reclaimed: reclaim,
        journal_bytes_before: before,
        journal_bytes_after: after,
        snapshot_bytes: snapshot,
        actual_physical_bytes: actual,
        reported_physical_bytes: reported,
    }
}

/// What the judgement of a run reads of one completed frontier cycle.
#[derive(Clone, Copy, Debug, PartialEq, Eq, Structural)]
pub struct FrontieredCycleOutcome {
    pub retained_retry_outcomes: u64,
    pub actual_physical_bytes: u64,
    pub reported_physical_bytes: u64,
    pub snapshot_covers_purge: bool,
    pub journals_reclaimed: bool,
    pub expired_retry_rejected_without_mutation: bool,
    pub retained_retry_exact: bool,
    pub full_quorum_restart_exact: bool,
    pub publication_retry_after_restart_exact: bool,
    pub frontier_attestation_after_restart_exact: bool,
    pub object_state_after_restart_exact: bool,
    pub object_plus_suffix_after_restart_exact: bool,
}

/// Every semantic check of a cycle passed.
pub open spec fn cycle_exact(c: FrontieredCycleOutcome) -> bool {
    &&& c.snapshot_covers_purge
    &&& c.journals_reclaimed
    &&& c.expired_retry_rejected_without_mutation
    &&& c.retained_retry_exact
    &&& c.full_quorum_restart_exact
    &&& c.publication_retry_after_restart_exact
    &&& c.frontier_attestation_after_restart_exact
    &&& c.object_state_after_restart_exact
    &&& c.object_plus_suffix_after_restart_exact
}

/// The omitted-retry-frontier control is detected when, under that control,
/// the retained retry outcomes grew from the first cycle to the last and the
/// last holds every request of the run.
pub open spec fn no_retry_control_detected(
    mode: FrontieredProcessSnapshotMode,
    profile: FrontieredSnapshotBounds,
    cycles: Seq<FrontieredCycleOutcome>,
) -> bool {
    !(mode is NoRetryFrontierControl) || (cycles.len() > 0 && cycles.last().retained_retry_outcomes
        > cycles[0].retained_retry_outcomes && cycles.last().retained_retry_outcomes == sat_mul(
        profile.frontier_cycles,
        profile.transactions_per_cycle,
    ))
}

/// The accounting poison is detected when, under that poison, every cycle
/// reported fewer physical bytes than it holds.
pub open spec fn accounting_poison_caught(mode: FrontieredProcessSnapshotMode, cycles: Seq<FrontieredCycleOutcome>) -> bool {
    !(mode is AccountingPoison) || forall|i: int|
        0 <= i < cycles.len() ==> (#[trigger] cycles[i]).reported_physical_bytes < cycles[i].actual_physical_bytes
}

/// The judgement of one frontiered run.
#[derive(Clone, Copy, Debug, PartialEq, Eq, Structural)]
pub struct FrontieredJudgement {
    pub semantic_exact: bool,
    pub no_retry_frontier_control_detected: bool,
    pub accounting_poison_detected: bool,
    pub correctness_anomalies: u64,
}

/// Judge a run: one anomaly for each of three data processes not running,
/// three publication processes not running, a committed count other than
/// every request, a cycle count other than the profile's, a cycle whose
/// semantic checks failed, an undetected control or poison, a suffix that did
/// not commit after the final restart, and an inexact final state.
pub fn frontiered_judgement(
    mode: FrontieredProcessSnapshotMode,
    profile: &FrontieredSnapshotBounds,
    data_processes: u64,
    publication_processes: u64,
    committed_count: u64,
    cycles: &[FrontieredCycleOutcome],
    suffix_commit_after_final_restart: bool,
    final_object_plus_suffix_exact: bool,
) -> (j: FrontieredJudgement)
    requires
        profile.valid(),
        profile.frontier_cycles * profile.transactions_per_cycle <= u64::MAX,
    ensures
        j.semantic_exact == forall|i: int| 0 <= i < cycles@.len() ==> cycle_exact(#[trigger] cycles@[i]),
        j.no_retry_frontier_control_detected == no_retry_control_detected(mode, *profile, cycles@),
        j.accounting_poison_detected == accounting_poison_caught(mode, cycles@),
        j.correctness_anomalies == flag(data_processes != 3) + flag(publication_processes != 3) + flag(
            committed_count != profile.frontier_cycles * profile.transactions_per_cycle,
        ) + flag(cycles@.len() != profile.frontier_cycles) + flag(!j.semantic_exact) + flag(
            !j.no_retry_frontier_control_detected,
        ) + flag(!j.accounting_poison_detected) + flag(!suffix_commit_after_final_restart) + flag(
            !final_object_plus_suffix_exact,
        ),
{
    let mut exact = true;
    let mut under_reported = true;
    let mut index: usize = 0;
    while index < cycles.len()
        invariant
            index <= cycles@.len(),
            exact == forall|i: int| 0 <= i < index ==> cycle_exact(#[trigger] cycles@[i]),
            under_reported == forall|i: int|
                0 <= i < index ==> (#[trigger] cycles@[i]).reported_physical_bytes < cycles@[i].actual_physical_bytes,
        decreases cycles@.len() - index,
    {
        let c = cycles[index];
        exact = exact && c.snapshot_covers_purge && c.journals_reclaimed && c.expired_retry_rejected_without_mutation
            && c.retained_retry_exact && c.full_quorum_restart_exact && c.publication_retry_after_restart_exact
            && c.frontier_attestation_after_restart_exact && c.object_state_after_restart_exact
            && c.object_plus_suffix_after_restart_exact;
        under_reported = under_reported && c.reported_physical_bytes < c.actual_physical_bytes;
        index = index + 1;
    }
    let every_request = saturating_mul_u64(profile.frontier_cycles, profile.transactions_per_cycle);
    let retry_detected = match mode {
        FrontieredProcessSnapshotMode::NoRetryFrontierControl => cycles.len() > 0
            && cycles[cycles.len() - 1].retained_retry_outcomes > cycles[0].retained_retry_outcomes
            && cycles[cycles.len() - 1].retained_retry_outcomes == every_request,
        _ => true,
    };
    let poison_detected = match mode {
        FrontieredProcessSnapshotMode::AccountingPoison => under_reported,
        _ => true,
    };
    let transaction_count = profile.frontier_cycles * profile.transactions_per_cycle;
    let anomalies = count_if(data_processes != 3) + count_if(publication_processes != 3) + count_if(
        committed_count != transaction_count,
    ) + count_if(cycles.len() as u64 != profile.frontier_cycles) + count_if(!exact) + count_if(!retry_detected)
        + count_if(!poison_detected) + count_if(!suffix_commit_after_final_restart) + count_if(
        !final_object_plus_suffix_exact,
    );
    FrontieredJudgement {
        semantic_exact: exact,
        no_retry_frontier_control_detected: retry_detected,
        accounting_poison_detected: poison_detected,
        correctness_anomalies: anomalies,
    }
}

/// A cycle refuses the run unless it committed every transaction of the
/// cycle: `G4.11a.1 cycle <c> committed <k> of <m> transactions`.
pub open spec fn uncommitted_cycle_refusal(cycle: u64, committed: u64, transactions_per_cycle: u64) -> Seq<char> {
    "G4.11a.1 cycle "@ + decimal_chars(cycle) + " committed "@ + decimal_chars(committed) + " of "@
        + decimal_chars(transactions_per_cycle) + " transactions"@
}

/// Refuse a cycle that committed other than every one of its transactions.
pub fn check_cycle_committed(cycle: u64, committed_this_cycle: u64, transactions_per_cycle: u64) -> (result: Result<
    (),
    String,
>)
    ensures
        result is Ok <==> committed_this_cycle == transactions_per_cycle,
        result matches Err(e) ==> e@ == uncommitted_cycle_refusal(cycle, committed_this_cycle, transactions_per_cycle),
{
    if committed_this_cycle == transactions_per_cycle {
        return Ok(());
    }
    let mut message = "G4.11a.1 cycle ".to_owned();
    let digits = decimal_text(cycle);
    append_text(&mut message, digits.as_str());
    append_text(&mut message, " committed ");
    let digits = decimal_text(committed_this_cycle);
    append_text(&mut message, digits.as_str());
    append_text(&mut message, " of ");
    let digits = decimal_text(transactions_per_cycle);
    append_text(&mut message, digits.as_str());
    append_text(&mut message, " transactions");
    Err(message)
}

/// `G4.11a.1 cycle <c> ` followed by `tail`.
pub open spec fn cycle_refusal(cycle: u64, tail: Seq<char>) -> Seq<char> {
    "G4.11a.1 cycle "@ + decimal_chars(cycle) + tail
}

fn cycle_message(cycle: u64, tail: &str) -> (message: String)
    ensures
        message@ == cycle_refusal(cycle, tail@),
{
    let mut message = "G4.11a.1 cycle ".to_owned();
    let digits = decimal_text(cycle);
    append_text(&mut message, digits.as_str());
    append_text(&mut message, tail);
    message
}

/// Refuse a cycle after which the authority's transaction version did not
/// pass the version the cycle started from.
pub fn check_version_advanced(cycle: u64, object_version: u64, prior_version: u64) -> (result: Result<(), String>)
    ensures
        result is Ok <==> object_version > prior_version,
        result matches Err(e) ==> e@ == cycle_refusal(cycle, " did not advance the transaction version"@),
{
    if object_version > prior_version {
        Ok(())
    } else {
        Err(cycle_message(cycle, " did not advance the transaction version"))
    }
}

/// The retry floors a cycle asks for: none under the omitted-frontier
/// control; otherwise one for the workload client, through every request of
/// the cycles so far (saturating) less the retry window (saturating at zero).
pub open spec fn cycle_retry_floors_spec(
    mode: FrontieredProcessSnapshotMode,
    profile: FrontieredSnapshotBounds,
    workload_client_id: u64,
    cycle: u64,
) -> Seq<TransactionRetryFloor> {
    if mode is NoRetryFrontierControl {
        Seq::empty()
    } else {
        let total_requests = sat_mul(cycle, profile.transactions_per_cycle);
        let through = if total_requests > profile.retry_window {
            (total_requests - profile.retry_window) as u64
        } else {
            0u64
        };
        seq![TransactionRetryFloor { client_id: workload_client_id, through_request_id: through }]
    }
}

/// The frontier advance of a cycle: its sequence is the cycle, its conflict
/// floor the version the cycle reached, and its retry floors those above.
pub fn cycle_frontier_advance(
    mode: FrontieredProcessSnapshotMode,
    profile: &FrontieredSnapshotBounds,
    workload_client_id: u64,
    cycle: u64,
    object_version: u64,
) -> (advance: TransactionFrontierAdvance)
    ensures
        advance.sequence == cycle,
        advance.conflict_retention_floor == object_version,
        advance.retry_floors@ == cycle_retry_floors_spec(mode, *profile, workload_client_id, cycle),
{
    let mut retry_floors: Vec<TransactionRetryFloor> = Vec::new();
    match mode {
        FrontieredProcessSnapshotMode::NoRetryFrontierControl => {},
        _ => {
            let total_requests = saturating_mul_u64(cycle, profile.transactions_per_cycle);
            let through = if total_requests > profile.retry_window {
                total_requests - profile.retry_window
            } else {
                0
            };
            retry_floors.push(TransactionRetryFloor { client_id: workload_client_id, through_request_id: through });
        },
    }
    proof {
        assert(retry_floors@ =~= cycle_retry_floors_spec(mode, *profile, workload_client_id, cycle));
    }
    TransactionFrontierAdvance { sequence: cycle, conflict_retention_floor: object_version, retry_floors }
}

/// Refuse a cycle whose frontier answer applied a conflict floor other than
/// the version the cycle reached, or retry floors other than those asked for.
pub fn check_frontier_applied(
    cycle: u64,
    response: &TransactionFrontierApplyResponse,
    advance: &TransactionFrontierAdvance,
) -> (result: Result<(), String>)
    ensures
        result is Ok <==> (response.conflict_retention_floor == advance.conflict_retention_floor
            && response.retry_floors@ == advance.retry_floors@),
        result matches Err(e) ==> e@ == cycle_refusal(cycle, " applied different transaction frontiers"@),
{
    let mut same = response.conflict_retention_floor == advance.conflict_retention_floor
        && response.retry_floors.len() == advance.retry_floors.len();
    if same {
        let mut index: usize = 0;
        while index < advance.retry_floors.len()
            invariant
                index <= advance.retry_floors@.len(),
                response.retry_floors@.len() == advance.retry_floors@.len(),
                same == forall|i: int| 0 <= i < index ==> response.retry_floors@[i] == advance.retry_floors@[i],
            decreases advance.retry_floors@.len() - index,
        {
            let left = response.retry_floors[index];
            let right = advance.retry_floors[index];
            same = same && left.client_id == right.client_id && left.through_request_id == right.through_request_id;
            index = index + 1;
        }
        proof {
            if same {
                assert(response.retry_floors@ =~= advance.retry_floors@);
            }
        }
    }
    if same {
        Ok(())
    } else {
        Err(cycle_message(cycle, " applied different transaction frontiers"))
    }
}

/// Two object frontiers name the same closure: the same generation, root,
/// manifest, covered version and preparing position, texts compared by their
/// characters.
pub open spec fn same_object_frontier(a: ObjectFrontierRecord, b: ObjectFrontierRecord) -> bool {
    &&& a.owner_generation == b.owner_generation
    &&& a.source_root@ == b.source_root@
    &&& a.manifest.kind == b.manifest.kind
    &&& a.manifest.key@ == b.manifest.key@
    &&& a.manifest.length == b.manifest.length
    &&& a.manifest.sha256@ == b.manifest.sha256@
    &&& a.covered_through == b.covered_through
    &&& a.prepared_at == b.prepared_at
}

fn object_frontiers_equal(a: &ObjectFrontierRecord, b: &ObjectFrontierRecord) -> (same: bool)
    ensures
        same == same_object_frontier(*a, *b),
{
    let same_kind = match (a.manifest.kind, b.manifest.kind) {
        (PublicationObjectKind::Manifest, PublicationObjectKind::Manifest) => true,
    };
    a.owner_generation == b.owner_generation && text_equal(a.source_root.as_str(), b.source_root.as_str())
        && same_kind && text_equal(a.manifest.key.as_str(), b.manifest.key.as_str())
        && a.manifest.length == b.manifest.length && text_equal(a.manifest.sha256.as_str(), b.manifest.sha256.as_str())
        && a.covered_through == b.covered_through && a.prepared_at.term == b.prepared_at.term
        && a.prepared_at.index == b.prepared_at.index
}

/// Refuse a cycle whose activation command was not accepted, or after which
/// the active object frontier is not the one the cycle prepared.
pub fn check_frontier_activated(
    cycle: u64,
    activation_accepted: bool,
    active: &Option<ObjectFrontierRecord>,
    pending: &ObjectFrontierRecord,
) -> (result: Result<(), String>)
    ensures
        result is Ok <==> (activation_accepted && match *active {
            Some(record) => same_object_frontier(record, *pending),
            None => false,
        }),
        result matches Err(e) ==> e@ == cycle_refusal(cycle, " did not activate the exact object frontier"@),
{
    let exact = match active {
        Some(record) => object_frontiers_equal(record, pending),
        None => false,
    };
    if activation_accepted && exact {
        Ok(())
    } else {
        Err(cycle_message(cycle, " did not activate the exact object frontier"))
    }
}

} // verus!
