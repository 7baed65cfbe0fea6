//! Durable process snapshots and physical journal compaction: the frozen
//! profile, the batched workload and its suffix, the commit summaries, and
//! the judgement of a compaction.

use crate::codec::{count_if, flag, decimal, extend_bytes, push_decimal, rotate_left_17, rotl};
use crate::transaction::{
    single_set_command, set_command, RequestIdentity, TransactionApplyResponse, TransactionBatchApplyResponse,
    TransactionBatchItem, TransactionStatus,
};
use crate::workload::ascii_bytes;
use vstd::prelude::*;
use vstd::string::StringSliceAdditionalSpecFns;

verus! {

/// Frozen subject or fail-closed control.
#[derive(Clone, Copy, Debug, PartialEq, Eq, Structural)]
pub enum ProcessSnapshotCompactionMode {
    Candidate,
    PurgeBeforeSnapshotPoison,
}

pub open spec fn snapshot_mode_id(mode: ProcessSnapshotCompactionMode) -> Seq<char> {
    match mode {
        ProcessSnapshotCompactionMode::Candidate => "candidate"@,
        ProcessSnapshotCompactionMode::PurgeBeforeSnapshotPoison => "purge_before_snapshot_poison"@,
    }
}

impl ProcessSnapshotCompactionMode {
    /// Stable identifier used by receipts.
    pub fn id(self) -> (id: &'static str)
        ensures
            id@ == snapshot_mode_id(self),
    {
        match self {
            ProcessSnapshotCompactionMode::Candidate => "candidate",
            ProcessSnapshotCompactionMode::PurgeBeforeSnapshotPoison => "purge_before_snapshot_poison",
        }
    }
}

/// Stable identifier of a mode, as receipts record it.
pub fn mode_id(mode: ProcessSnapshotCompactionMode) -> (id: &'static str)
    ensures
        id@ == snapshot_mode_id(mode),
{
    mode.id()
}

/// Frozen transaction and batch bounds.
#[derive(Clone, Copy, Debug, PartialEq, Eq, Structural)]
pub struct ProcessSnapshotCompactionProfile {
    pub transaction_count: u64,
    pub transactions_per_batch: usize,
    pub live_keys: u64,
    pub value_bytes: usize,
}

/// Largest value one transaction writes.
pub const MAX_VALUE_BYTES: usize = 65_536;

impl ProcessSnapshotCompactionProfile {
    pub open spec fn valid(&self) -> bool {
        &&& self.transaction_count != 0
        &&& 1 <= self.transactions_per_batch <= 32
        &&& self.live_keys != 0
        &&& 1 <= self.value_bytes <= MAX_VALUE_BYTES
    }
}

/// Accept exactly the valid profiles.
pub fn validate_profile(profile: &ProcessSnapshotCompactionProfile) -> (result: Result<(), String>)
    ensures
        result is Ok <==> profile.valid(),
        result matches Err(e) ==> e@ == "invalid process snapshot-compaction profile"@,
{
    if profile.transaction_count == 0 || profile.transactions_per_batch == 0 || profile.transactions_per_batch > 32
        || profile.live_keys == 0 || profile.value_bytes == 0 || profile.value_bytes > MAX_VALUE_BYTES
    {
        return Err("invalid process snapshot-compaction profile".to_owned());
    }
    Ok(())
}

/// One step of the linear congruential generator.
pub open spec fn lcg_step(state: u64) -> u64 {
    state.wrapping_mul(6_364_136_223_846_793_005).wrapping_add(1_442_695_040_888_963_407)
}

/// The generator state after `steps` steps from `seed ^ rotl(index, 17)`.
pub open spec fn lcg_state(seed: u64, index: u64, steps: nat) -> u64
    decreases steps,
{
    if steps == 0 {
        seed ^ rotl(index, 17)
    } else {
        lcg_step(lcg_state(seed, index, (steps - 1) as nat))
    }
}

/// The value of item `index`: byte `i` is the top byte of the state after
/// `i + 1` steps.
pub open spec fn lcg_value(seed: u64, index: u64, length: nat) -> Seq<u8> {
    Seq::new(length, |i: int| (lcg_state(seed, index, (i + 1) as nat) >> 56u64) as u8)
}

/// The deterministic value of item `index`.
pub fn deterministic_value(seed: u64, index: u64, bytes: usize) -> (value: Vec<u8>)
    ensures
        value@ == lcg_value(seed, index, bytes as nat),
{
    let mut value: Vec<u8> = Vec::new();
    let mut state = seed ^ rotate_left_17(index);
    let mut produced: usize = 0;
    while produced < bytes
        invariant
            produced <= bytes,
            state == lcg_state(seed, index, produced as nat),
            value@ == lcg_value(seed, index, produced as nat),
        decreases bytes - produced,
    {
        state = state.wrapping_mul(6_364_136_223_846_793_005).wrapping_add(1_442_695_040_888_963_407);
        value.push((state >> 56u64) as u8);
        produced = produced + 1;
        assert(value@ =~= lcg_value(seed, index, produced as nat));
    }
    value
}

/// The key of workload item `index`: `snapshot/`, the namespace, `/`, the
/// seed, `/`, and the item's slot `index % live_keys`, in decimal.
pub open spec fn snapshot_key(namespace: Seq<char>, seed: u64, slot: u64) -> Seq<u8> {
    ascii_bytes("snapshot/"@) + ascii_bytes(namespace) + seq![47u8] + decimal(seed as nat) + seq![47u8]
        + decimal(slot as nat)
}

fn key_for(namespace: &str, seed: u64, slot: u64) -> (key: Vec<u8>)
    requires
        namespace.is_ascii(),
    ensures
        key@ == snapshot_key(namespace@, seed, slot),
{
    let prefix = "snapshot/";
    proof {
        reveal_strlit("snapshot/");
        vstd::string::is_ascii_spec_bytes(prefix);
        vstd::string::is_ascii_spec_bytes(namespace);
    }
    assert(prefix.is_ascii());
    let mut key: Vec<u8> = Vec::new();
    extend_bytes(&mut key, prefix.as_bytes());
    extend_bytes(&mut key, namespace.as_bytes());
    key.push(47u8);
    push_decimal(&mut key, seed);
    key.push(47u8);
    push_decimal(&mut key, slot);
    assert(key@ =~= snapshot_key(namespace@, seed, slot));
    key
}

/// The workload client: the seed, or 1 for seed zero.
pub open spec fn workload_client(seed: u64) -> u64 {
    if seed >= 1 { seed } else { 1 }
}

/// Workload item `index` writes its slot's key with its value, blindly,
/// without a credential, as request `index + 1`.
pub open spec fn workload_item(
    item: TransactionBatchItem,
    seed: u64,
    profile: ProcessSnapshotCompactionProfile,
    namespace: Seq<char>,
    index: u64,
) -> bool {
    &&& item.identity == (RequestIdentity { client_id: workload_client(seed), request_id: (index + 1) as u64 })
    &&& item.credential is None
    &&& single_set_command(
        item.command,
        0,
        Seq::empty(),
        snapshot_key(namespace, seed, (index % profile.live_keys) as u64),
        lcg_value(seed, index, profile.value_bytes as nat),
    )
}

/// The items of the batches, in order.
pub open spec fn concat_batches(batches: Seq<Vec<TransactionBatchItem>>) -> Seq<TransactionBatchItem>
    decreases batches.len(),
{
    if batches.len() == 0 {
        Seq::empty()
    } else {
        concat_batches(batches.drop_last()) + batches.last()@
    }
}

/// The workload in batches: items `0..transaction_count` in order, cut into
/// consecutive batches of `transactions_per_batch` items, the last batch
/// holding the remainder.
pub fn workload_batches(seed: u64, profile: &ProcessSnapshotCompactionProfile, namespace: &str) -> (batches: Vec<Vec<TransactionBatchItem>>)
    requires
        profile.live_keys != 0,
        profile.transactions_per_batch != 0,
        namespace.is_ascii(),
    ensures
        forall|b: int| 0 <= b < batches@.len() ==> 1 <= (#[trigger] batches@[b])@.len() <= profile.transactions_per_batch,
        forall|b: int| 0 <= b < batches@.len() - 1 ==> (#[trigger] batches@[b])@.len() == profile.transactions_per_batch,
        concat_batches(batches@).len() == profile.transaction_count,
        forall|i: int| 0 <= i < profile.transaction_count ==> workload_item(
            #[trigger] concat_batches(batches@)[i],
            seed,
            *profile,
            namespace@,
            i as u64,
        ),
{
    let client = if seed >= 1 { seed } else { 1 };
    let per = profile.transactions_per_batch;
    let mut batches: Vec<Vec<TransactionBatchItem>> = Vec::new();
    let mut current: Vec<TransactionBatchItem> = Vec::new();
    let mut index: u64 = 0;
    while index < profile.transaction_count
        invariant
            profile.live_keys != 0,
            per == profile.transactions_per_batch,
            per != 0,
            namespace.is_ascii(),
            client == workload_client(seed),
            index <= profile.transaction_count,
            current@.len() < per,
            concat_batches(batches@).len() + current@.len() == index,
            forall|b: int| 0 <= b < batches@.len() ==> (#[trigger] batches@[b])@.len() == per,
            forall|i: int| 0 <= i < index ==> workload_item(
                #[trigger] (concat_batches(batches@) + current@)[i],
                seed,
                *profile,
                namespace@,
                i as u64,
            ),
        decreases profile.transaction_count - index,
    {
        let key = key_for(namespace, seed, index % profile.live_keys);
        let value = deterministic_value(seed, index, profile.value_bytes);
        let command = set_command(0, false, key, value);
        let ghost prior = concat_batches(batches@) + current@;
        current.push(TransactionBatchItem {
            identity: RequestIdentity { client_id: client, request_id: index + 1 },
            credential: None,
            command,
        });
        assert(concat_batches(batches@) + current@ =~= prior.push(current@.last()));
        index = index + 1;
        if current.len() == per {
            let ghost joined = concat_batches(batches@) + current@;
            let ghost old_batches = batches@;
            let full = current;
            current = Vec::new();
            batches.push(full);
            assert(batches@.drop_last() =~= old_batches);
            assert(concat_batches(batches@) == concat_batches(batches@.drop_last()) + batches@.last()@);
            assert(concat_batches(batches@) + current@ =~= joined);
        }
    }
    if current.len() > 0 {
        let ghost joined = concat_batches(batches@) + current@;
        let ghost old_batches = batches@;
        batches.push(current);
        assert(batches@.drop_last() =~= old_batches);
        assert(concat_batches(batches@) == concat_batches(batches@.drop_last()) + batches@.last()@);
        assert(concat_batches(batches@) =~= joined);
    } else {
        assert(concat_batches(batches@) + current@ =~= concat_batches(batches@));
    }
    batches
}

/// Client of the suffix written after the restart: the workload client plus
/// one million, saturating.
pub open spec fn suffix_client(seed: u64) -> u64 {
    if workload_client(seed) + 1_000_000 > u64::MAX { u64::MAX } else { (workload_client(seed) + 1_000_000) as u64 }
}

/// The suffix batch committed after the restart: one blind write per index
/// `0..transactions_per_batch`, each under its own suffix key, read at the
/// high watermark.
pub fn suffix_batch(seed: u64, profile: &ProcessSnapshotCompactionProfile, read_version: u64) -> (batch: Vec<TransactionBatchItem>)
    ensures
        batch@.len() == profile.transactions_per_batch,
        forall|i: int| 0 <= i < batch@.len() ==> {
            let item = #[trigger] batch@[i];
            &&& item.identity == (RequestIdentity { client_id: suffix_client(seed), request_id: (i + 1) as u64 })
            &&& item.credential is None
            &&& single_set_command(
                item.command,
                read_version,
                Seq::empty(),
                snapshot_key("suffix"@, seed, i as u64),
                lcg_value(seed, i as u64, profile.value_bytes as nat),
            )
        },
{
    let namespace = "suffix";
    proof {
        reveal_strlit("suffix");
    }
    assert(namespace.is_ascii());
    let client = (if seed >= 1 { seed } else { 1 }).saturating_add(1_000_000);
    let mut batch: Vec<TransactionBatchItem> = Vec::new();
    let mut index: usize = 0;
    while index < profile.transactions_per_batch
        invariant
            index <= profile.transactions_per_batch,
            namespace@ == "suffix"@,
            namespace.is_ascii(),
            client == suffix_client(seed),
            batch@.len() == index,
            forall|i: int| 0 <= i < batch@.len() ==> {
                let item = #[trigger] batch@[i];
                &&& item.identity == (RequestIdentity { client_id: suffix_client(seed), request_id: (i + 1) as u64 })
                &&& item.credential is None
                &&& single_set_command(
                    item.command,
                    read_version,
                    Seq::empty(),
                    snapshot_key("suffix"@, seed, i as u64),
                    lcg_value(seed, i as u64, profile.value_bytes as nat),
                )
            },
        decreases profile.transactions_per_batch - index,
    {
        let ordinal = index as u64;
        let key = key_for(namespace, seed, ordinal);
        let value = deterministic_value(seed, ordinal, profile.value_bytes);
        let command = set_command(read_version, false, key, value);
        batch.push(TransactionBatchItem {
            identity: RequestIdentity { client_id: client, request_id: ordinal + 1 },
            credential: None,
            command,
        });
        index = index + 1;
    }
    batch
}

/// The commit version of a committed answer.
pub open spec fn commit_version_of(response: TransactionApplyResponse) -> Option<u64> {
    match response.status {
        TransactionStatus::Committed { commit_version } => Some(commit_version),
        _ => None,
    }
}

/// The commit version of a committed answer, if it committed.
pub fn committed_version(response: &TransactionApplyResponse) -> (version: Option<u64>)
    ensures
        version == commit_version_of(*response),
{
    match response.status {
        TransactionStatus::Committed { commit_version } => Some(commit_version),
        _ => None,
    }
}

/// The commit versions of the items' committed answers, batch by batch.
pub open spec fn batch_versions(responses: Seq<TransactionBatchApplyResponse>) -> Seq<u64>
    decreases responses.len(),
{
    if responses.len() == 0 {
        Seq::empty()
    } else {
        batch_versions(responses.drop_last()) + item_versions(responses.last().items@)
    }
}

pub open spec fn item_versions(items: Seq<crate::transaction::TransactionBatchItemResponse>) -> Seq<u64>
    decreases items.len(),
{
    if items.len() == 0 {
        Seq::empty()
    } else {
        let prior = item_versions(items.drop_last());
        match items.last().transaction {
            Some(response) => match commit_version_of(response) {
                Some(v) => prior.push(v),
                None => prior,
            },
            None => prior,
        }
    }
}

/// The commit versions of every committed answer of the batches, in order.
pub fn committed_versions(responses: &[TransactionBatchApplyResponse]) -> (versions: Vec<u64>)
    ensures
        versions@ == batch_versions(responses@),
{
    let mut versions: Vec<u64> = Vec::new();
    let mut r: usize = 0;
    while r < responses.len()
        invariant
            r <= responses@.len(),
            versions@ == batch_versions(responses@.take(r as int)),
        decreases responses@.len() - r,
    {
        let items = &responses[r].items;
        let ghost start = versions@;
        let mut i: usize = 0;
        while i < items.len()
            invariant
                i <= items@.len(),
                versions@ == start + item_versions(items@.take(i as int)),
            decreases items@.len() - i,
        {
            assert(items@.take(i + 1).drop_last() =~= items@.take(i as int));
            if let Some(response) = &items[i].transaction {
                if let Some(version) = committed_version(response) {
                    versions.push(version);
                }
            }
            i = i + 1;
            assert(versions@ =~= start + item_versions(items@.take(i as int)));
        }
        assert(items@.take(items@.len() as int) =~= items@);
        assert(responses@.take(r + 1).drop_last() =~= responses@.take(r as int));
        r = r + 1;
    }
    assert(responses@.take(responses@.len() as int) =~= responses@);
    versions
}

/// The number of committed answers across the batches.
pub fn count_committed(responses: &[TransactionBatchApplyResponse]) -> (count: u64)
    ensures
        count == batch_versions(responses@).len(),
{
    let versions = committed_versions(responses);
    versions.len() as u64
}

/// The largest commit version, if any item committed.
pub fn maximum_commit_version(responses: &[TransactionBatchApplyResponse]) -> (maximum: Option<u64>)
    ensures
        maximum is None <==> batch_versions(responses@).len() == 0,
        maximum matches Some(m) ==> batch_versions(responses@).contains(m) && forall|i: int|
            0 <= i < batch_versions(responses@).len() ==> batch_versions(responses@)[i] <= m,
{
    let versions = committed_versions(responses);
    if versions.len() == 0 {
        return None;
    }
    let mut maximum = versions[0];
    let mut index: usize = 1;
    while index < versions.len()
        invariant
            1 <= index <= versions@.len(),
            versions@.contains(maximum),
            forall|i: int| 0 <= i < index ==> versions@[i] <= maximum,
        decreases versions@.len() - index,
    {
        if versions[index] > maximum {
            maximum = versions[index];
        }
        index = index + 1;
    }
    Some(maximum)
}

/// The item committed at a version above the high watermark.
pub open spec fn committed_above(item: crate::transaction::TransactionBatchItemResponse, high_watermark: u64) -> bool {
    item.transaction matches Some(r) && r.status matches TransactionStatus::Committed { commit_version }
        && commit_version > high_watermark
}

/// Whether every item of the suffix batch committed above the high watermark.
pub fn suffix_committed_after(response: &TransactionBatchApplyResponse, high_watermark: u64) -> (all: bool)
    ensures
        all == forall|i: int| 0 <= i < response.items@.len() ==> committed_above(#[trigger] response.items@[i], high_watermark),
{
    let mut index: usize = 0;
    while index < response.items.len()
        invariant
            index <= response.items@.len(),
            forall|i: int| 0 <= i < index ==> committed_above(#[trigger] response.items@[i], high_watermark),
        decreases response.items@.len() - index,
    {
        let holds = match &response.items[index].transaction {
            Some(r) => match r.status {
                TransactionStatus::Committed { commit_version } => commit_version > high_watermark,
                _ => false,
            },
            None => false,
        };
        if !holds {
            return false;
        }
        index = index + 1;
    }
    true
}

/// What one voter reports of its snapshot and journal compaction.
#[derive(Clone, Copy, Debug, PartialEq, Eq, Structural)]
pub struct CompactionObservation {
    pub snapshot_index: u64,
    pub purged_index: u64,
    pub compaction_calls: u64,
    pub compaction_reclaimed_bytes: u64,
    pub journal_bytes_before: u64,
    pub journal_bytes_after: u64,
    pub snapshot_bytes: u64,
}

/// The run-level judgement of a compaction.
#[derive(Clone, Copy, Debug, PartialEq, Eq, Structural)]
pub struct CompactionSummary {
    pub all_snapshots_cover_purge: bool,
    pub all_journals_reclaimed_bytes: bool,
    pub journal_bytes_before: u64,
    pub journal_bytes_after: u64,
    pub journal_reclaimed_bytes: u64,
    pub snapshot_bytes: u64,
    pub durable_bytes_after: u64,
}

/// The byte counters of a compaction observation.
pub enum CompactionCounter {
    JournalBefore,
    JournalAfter,
    Reclaimed,
    Snapshot,
}

pub open spec fn counter(o: CompactionObservation, which: CompactionCounter) -> u64 {
    match which {
        CompactionCounter::JournalBefore => o.journal_bytes_before,
        CompactionCounter::JournalAfter => o.journal_bytes_after,
        CompactionCounter::Reclaimed => o.compaction_reclaimed_bytes,
        CompactionCounter::Snapshot => o.snapshot_bytes,
    }
}

/// The sum of one counter over the voters.
pub open spec fn total(observations: Seq<CompactionObservation>, field: CompactionCounter) -> int
    decreases observations.len(),
{
    if observations.len() == 0 {
        0
    } else {
        total(observations.drop_last(), field) + counter(observations.last(), field)
    }
}

pub(crate) proof fn lemma_total_prefix(observations: Seq<CompactionObservation>, field: CompactionCounter, n: int)
    requires
        0 <= n <= observations.len(),
    ensures
        0 <= total(observations.take(n), field) <= total(observations, field),
    decreases observations.len() - n,
{
    lemma_total_nonnegative(observations.take(n), field);
    if n < observations.len() {
        lemma_total_prefix(observations, field, n + 1);
        assert(observations.take(n + 1).drop_last() =~= observations.take(n));
        assert(total(observations.take(n + 1), field) == total(observations.take(n), field) + counter(
            observations[n],
            field,
        ));
    } else {
        assert(observations.take(n) =~= observations);
    }
}

/// Shrinking journals shrink the sum: when every voter's journal is smaller
/// after compaction than before, and there is at least one voter, the summed
/// journal bytes after are below the summed bytes before.
pub proof fn lemma_shrinking_journals_shrink_total(observations: Seq<CompactionObservation>)
    requires
        observations.len() > 0,
        forall|i: int|
            0 <= i < observations.len() ==> (#[trigger] observations[i]).journal_bytes_after
                < observations[i].journal_bytes_before,
    ensures
        total(observations, CompactionCounter::JournalAfter) < total(observations, CompactionCounter::JournalBefore),
    decreases observations.len(),
{
    let earlier = observations.drop_last();
    assert(observations.last() == observations[observations.len() - 1]);
    if earlier.len() > 0 {
        assert forall|i: int| 0 <= i < earlier.len() implies (#[trigger] earlier[i]).journal_bytes_after
            < earlier[i].journal_bytes_before by {
            assert(earlier[i] == observations[i]);
        }
        lemma_shrinking_journals_shrink_total(earlier);
    }
    assert(total(observations, CompactionCounter::JournalAfter) == total(earlier, CompactionCounter::JournalAfter)
        + observations.last().journal_bytes_after);
    assert(total(observations, CompactionCounter::JournalBefore) == total(earlier, CompactionCounter::JournalBefore)
        + observations.last().journal_bytes_before);
}

proof fn lemma_total_nonnegative(observations: Seq<CompactionObservation>, field: CompactionCounter)
    ensures
        total(observations, field) >= 0,
    decreases observations.len(),
{
    if observations.len() > 0 {
        lemma_total_nonnegative(observations.drop_last(), field);
    }
}

/// Every snapshot covers the purge at the high watermark and compaction ran.
pub open spec fn covers_purge(o: CompactionObservation, high_watermark: u64) -> bool {
    o.snapshot_index >= high_watermark && o.purged_index >= high_watermark && o.compaction_calls > 0
}

/// The journal shrank and compaction reclaimed bytes.
pub open spec fn reclaimed(o: CompactionObservation) -> bool {
    o.compaction_reclaimed_bytes > 0 && o.journal_bytes_after < o.journal_bytes_before
}

/// Judge a compaction: every voter's snapshot covers the purge, every journal
/// reclaimed bytes, and the byte counters summed over the voters; the durable
/// bytes after add the snapshots to the journals, saturating.
pub fn summarize_compaction(observations: &[CompactionObservation], high_watermark: u64) -> (summary: CompactionSummary)
    requires
        total(observations@, CompactionCounter::JournalBefore) <= u64::MAX,
        total(observations@, CompactionCounter::JournalAfter) <= u64::MAX,
        total(observations@, CompactionCounter::Reclaimed) <= u64::MAX,
        total(observations@, CompactionCounter::Snapshot) <= u64::MAX,
    ensures
        summary.all_snapshots_cover_purge == forall|i: int| 0 <= i < observations@.len() ==> covers_purge(
            #[trigger] observations@[i],
            high_watermark,
        ),
        summary.all_journals_reclaimed_bytes == forall|i: int| 0 <= i < observations@.len() ==> reclaimed(
            #[trigger] observations@[i],
        ),
        summary.journal_bytes_before == total(observations@, CompactionCounter::JournalBefore),
        summary.journal_bytes_after == total(observations@, CompactionCounter::JournalAfter),
        summary.journal_reclaimed_bytes == total(observations@, CompactionCounter::Reclaimed),
        summary.snapshot_bytes == total(observations@, CompactionCounter::Snapshot),
        summary.durable_bytes_after == crate::codec::sat_add(summary.journal_bytes_after, summary.snapshot_bytes),
        summary.all_journals_reclaimed_bytes <==> forall|i: int|
            0 <= i < observations@.len() ==> (#[trigger] observations@[i]).journal_bytes_after
                < observations@[i].journal_bytes_before && observations@[i].compaction_reclaimed_bytes > 0,
        summary.all_journals_reclaimed_bytes && observations@.len() > 0 ==> summary.journal_bytes_after
            < summary.journal_bytes_before,
{
    let mut cover = true;
    let mut reclaim = true;
    let mut before: u64 = 0;
    let mut after: u64 = 0;
    let mut reclaimed_bytes: u64 = 0;
    let mut snapshot: u64 = 0;
    let mut index: usize = 0;
    while index < observations.len()
        invariant
            index <= observations@.len(),
            total(observations@, CompactionCounter::JournalBefore) <= u64::MAX,
            total(observations@, CompactionCounter::JournalAfter) <= u64::MAX,
            total(observations@, CompactionCounter::Reclaimed) <= u64::MAX,
            total(observations@, CompactionCounter::Snapshot) <= u64::MAX,
            cover == forall|i: int| 0 <= i < index ==> covers_purge(#[trigger] observations@[i], high_watermark),
            reclaim == forall|i: int| 0 <= i < index ==> reclaimed(#[trigger] observations@[i]),
            before == total(observations@.take(index as int), CompactionCounter::JournalBefore),
            after == total(observations@.take(index as int), CompactionCounter::JournalAfter),
            reclaimed_bytes == total(observations@.take(index as int), CompactionCounter::Reclaimed),
            snapshot == total(observations@.take(index as int), CompactionCounter::Snapshot),
        decreases observations@.len() - index,
    {
        let o = observations[index];
        proof {
            assert(observations@.take(index + 1).drop_last() =~= observations@.take(index as int));
            lemma_total_prefix(observations@, CompactionCounter::JournalBefore, index + 1);
            lemma_total_prefix(observations@, CompactionCounter::JournalAfter, index + 1);
            lemma_total_prefix(observations@, CompactionCounter::Reclaimed, index + 1);
            lemma_total_prefix(observations@, CompactionCounter::Snapshot, index + 1);
            let o_spec = observations@[index as int];
            assert(total(observations@.take(index + 1), CompactionCounter::JournalBefore) == before + o_spec.journal_bytes_before);
            assert(total(observations@.take(index + 1), CompactionCounter::JournalAfter) == after + o_spec.journal_bytes_after);
            assert(total(observations@.take(index + 1), CompactionCounter::Reclaimed) == reclaimed_bytes + o_spec.compaction_reclaimed_bytes);
            assert(total(observations@.take(index + 1), CompactionCounter::Snapshot) == snapshot + o_spec.snapshot_bytes);
        }
        cover = cover && o.snapshot_index >= high_watermark && o.purged_index >= high_watermark && o.compaction_calls > 0;
        reclaim = reclaim && o.compaction_reclaimed_bytes > 0 && o.journal_bytes_after < o.journal_bytes_before;
        before = before + o.journal_bytes_before;
        after = after + o.journal_bytes_after;
        reclaimed_bytes = reclaimed_bytes + o.compaction_reclaimed_bytes;
        snapshot = snapshot + o.snapshot_bytes;
        index = index + 1;
    }
    assert(observations@.take(observations@.len() as int) =~= observations@);
    proof {
        if reclaim && observations@.len() > 0 {
            lemma_shrinking_journals_shrink_total(observations@);
        }
    }
    CompactionSummary {
        all_snapshots_cover_purge: cover,
        all_journals_reclaimed_bytes: reclaim,
        journal_bytes_before: before,
        journal_bytes_after: after,
        journal_reclaimed_bytes: reclaimed_bytes,
        snapshot_bytes: snapshot,
        durable_bytes_after: after.saturating_add(snapshot),
    }
}

/// The observations of a candidate run.
#[derive(Clone, Copy, Debug, PartialEq, Eq, Structural)]
pub struct SnapshotCandidateObservations {
    pub authority_processes: u64,
    pub committed_count: u64,
    pub retained_before: u64,
    pub all_snapshots_cover_purge: bool,
    pub all_journals_reclaimed_bytes: bool,
    pub full_quorum_restart_exact: bool,
    pub retained_stream_restart_exact: bool,
    pub exact_retry_after_restart: bool,
    pub suffix_commit_after_restart: bool,
}


/// The anomalies of a candidate run: one each for three processes not
/// running, a committed or retained count other than the profile's, and each
/// failed compaction or restart check.
pub fn candidate_anomalies(o: &SnapshotCandidateObservations, transaction_count: u64) -> (anomalies: u64)
    ensures
        anomalies == flag(o.authority_processes != 3) + flag(o.committed_count != transaction_count) + flag(
            o.retained_before != transaction_count,
        ) + flag(!o.all_snapshots_cover_purge) + flag(!o.all_journals_reclaimed_bytes) + flag(
            !o.full_quorum_restart_exact,
        ) + flag(!o.retained_stream_restart_exact) + flag(!o.exact_retry_after_restart) + flag(
            !o.suffix_commit_after_restart,
        ),
{
    let mut anomalies: u64 = 0;
    let ghost mut sum: int = 0;
    let step = count_if(o.authority_processes != 3);
    proof { sum = sum + step; }
    assert(anomalies + step == sum && sum <= 1);
    anomalies = anomalies + step;
    let step = count_if(o.committed_count != transaction_count);
    proof { sum = sum + step; }
    assert(anomalies + step == sum && sum <= 2);
    anomalies = anomalies + step;
    let step = count_if(o.retained_before != transaction_count);
    proof { sum = sum + step; }
    assert(anomalies + step == sum && sum <= 3);
    anomalies = anomalies + step;
    let step = count_if(!o.all_snapshots_cover_purge);
    proof { sum = sum + step; }
    assert(anomalies + step == sum && sum <= 4);
    anomalies = anomalies + step;
    let step = count_if(!o.all_journals_reclaimed_bytes);
    proof { sum = sum + step; }
    assert(anomalies + step == sum && sum <= 5);
    anomalies = anomalies + step;
    let step = count_if(!o.full_quorum_restart_exact);
    proof { sum = sum + step; }
    assert(anomalies + step == sum && sum <= 6);
    anomalies = anomalies + step;
    let step = count_if(!o.retained_stream_restart_exact);
    proof { sum = sum + step; }
    assert(anomalies + step == sum && sum <= 7);
    anomalies = anomalies + step;
    let step = count_if(!o.exact_retry_after_restart);
    proof { sum = sum + step; }
    assert(anomalies + step == sum && sum <= 8);
    anomalies = anomalies + step;
    let step = count_if(!o.suffix_commit_after_restart);
    proof { sum = sum + step; }
    assert(anomalies + step == sum && sum <= 9);
    anomalies = anomalies + step;
    anomalies
}

/// The purge-before-snapshot poison is detected when the purge was refused
/// because the snapshot does not cover it, the journals are unchanged, and a
/// restart recovers the exact state.
pub fn poison_detected(rejection: &str, journal_unchanged: bool, restart_exact: bool) -> (detected: bool)
    ensures
        detected == (crate::codec::contains_bytes(
            rejection.spec_bytes(),
            ascii_bytes("does not cover purge index"@),
        ) && journal_unchanged && restart_exact),
{
    let needle = "does not cover purge index";
    proof {
        reveal_strlit("does not cover purge index");
        vstd::string::is_ascii_spec_bytes(needle);
    }
    assert(needle.is_ascii());
    assert(needle.spec_bytes() =~= ascii_bytes("does not cover purge index"@));
    crate::codec::find_bytes(rejection.as_bytes(), needle.as_bytes()) && journal_unchanged && restart_exact
}

} // verus!

verus! {

/// The evidence of one snapshot and journal-reclamation run.
#[derive(Clone, Debug, PartialEq, Eq)]
pub struct ProcessSnapshotCompactionReport {
    pub format_version: u32,
    pub seed: u64,
    pub mode: ProcessSnapshotCompactionMode,
    pub authority_processes: u64,
    pub release_build: bool,
    pub transaction_count: u64,
    pub committed_count: u64,
    pub high_watermark: u64,
    pub retained_records_before: u64,
    pub compaction: Vec<CompactionObservation>,
    pub all_snapshots_cover_purge: bool,
    pub all_journals_reclaimed_bytes: bool,
    pub journal_bytes_before: u64,
    pub journal_bytes_after: u64,
    pub journal_reclaimed_bytes: u64,
    pub snapshot_bytes: u64,
    pub durable_bytes_after: u64,
    pub full_quorum_restart_exact: bool,
    pub retained_stream_restart_exact: bool,
    pub exact_retry_after_restart: bool,
    pub suffix_commit_after_restart: bool,
    pub purge_before_snapshot_rejected: bool,
    pub poison_journal_unchanged: bool,
    pub poison_restart_exact: bool,
    pub correctness_anomalies: u64,
    pub semantic_sha256: String,
}

} // verus!
