//! Concurrent commit proxy beside an authenticated object frontier: the
//! frozen profile, the prefix and suffix workloads with their planned
//! conflicts, and the conflict oracle over the ordered outcomes.

use crate::commit_proxy::{contiguous_batch_orders, orders_contiguous, sort_versionstamps, stamp_le, stamps_sorted, stamps_unique};
use crate::digest::{blocks_for, digest_stream, digest_value};
use crate::transaction::{
    single_set_command, set_command, GenerationCredential, RequestIdentity, TransactionApplyResponse, TransactionBatchItem,
    TransactionStatus,
};
use crate::workload::{seeded_key, seeded_key_spec};
use crate::transaction_log::{delay_from_micros, duration_is_zero, TransactionBatcherConfig};
use vstd::prelude::*;
use vstd::string::StringSliceAdditionalSpecFns;

verus! {

/// Generation that the object frontier serves.
pub const GENERATION: u64 = 7;

/// Frozen subject or negative-control behavior.
#[derive(Clone, Copy, Debug, PartialEq, Eq, Structural)]
pub enum CommitProxyObjectFrontierMode {
    QuarterConflictCandidate,
    NoConflictControl,
    HighConflictControl,
    OneEntrySameDurabilityControl,
    MovingFrontierPoison,
    PrematurePopPoison,
}

pub open spec fn object_frontier_mode_id(mode: CommitProxyObjectFrontierMode) -> Seq<char> {
    match mode {
        CommitProxyObjectFrontierMode::QuarterConflictCandidate => "quarter_conflict_candidate"@,
        CommitProxyObjectFrontierMode::NoConflictControl => "no_conflict_control"@,
        CommitProxyObjectFrontierMode::HighConflictControl => "high_conflict_control"@,
        CommitProxyObjectFrontierMode::OneEntrySameDurabilityControl => "one_entry_same_durability_control"@,
        CommitProxyObjectFrontierMode::MovingFrontierPoison => "moving_frontier_poison"@,
        CommitProxyObjectFrontierMode::PrematurePopPoison => "premature_pop_poison"@,
    }
}

/// The share of the suffix that conflicts, in quarters.
pub open spec fn conflict_quarters(mode: CommitProxyObjectFrontierMode) -> u64 {
    match mode {
        CommitProxyObjectFrontierMode::NoConflictControl => 0,
        CommitProxyObjectFrontierMode::HighConflictControl => 3,
        _ => 1,
    }
}

impl CommitProxyObjectFrontierMode {
    /// Stable identifier used by receipts.
    pub fn id(self) -> (id: &'static str)
        ensures
            id@ == object_frontier_mode_id(self),
    {
        match self {
            CommitProxyObjectFrontierMode::QuarterConflictCandidate => "quarter_conflict_candidate",
            CommitProxyObjectFrontierMode::NoConflictControl => "no_conflict_control",
            CommitProxyObjectFrontierMode::HighConflictControl => "high_conflict_control",
            CommitProxyObjectFrontierMode::OneEntrySameDurabilityControl => "one_entry_same_durability_control",
            CommitProxyObjectFrontierMode::MovingFrontierPoison => "moving_frontier_poison",
            CommitProxyObjectFrontierMode::PrematurePopPoison => "premature_pop_poison",
        }
    }

    /// Numerator of the conflicting share of the suffix.
    pub fn conflict_numerator(self) -> (numerator: u64)
        ensures
            numerator == conflict_quarters(self),
    {
        match self {
            CommitProxyObjectFrontierMode::NoConflictControl => 0,
            CommitProxyObjectFrontierMode::HighConflictControl => 3,
            _ => 1,
        }
    }

    /// Denominator of the conflicting share of the suffix.
    pub fn conflict_denominator(self) -> (denominator: u64)
        ensures
            denominator == 4,
    {
        4
    }

    pub open spec fn poisoned(self) -> bool {
        self is MovingFrontierPoison || self is PrematurePopPoison
    }

    /// Whether this mode is a poison that must be detected.
    pub fn is_poison(self) -> (poison: bool)
        ensures
            poison == self.poisoned(),
    {
        matches!(self, CommitProxyObjectFrontierMode::MovingFrontierPoison | CommitProxyObjectFrontierMode::PrematurePopPoison)
    }
}

/// Frozen request, batching, conflict, and publication bounds.
#[derive(Clone, Copy, Debug, PartialEq, Eq, Structural)]
pub struct CommitProxyObjectFrontierProfile {
    pub prefix_transaction_count: u64,
    pub suffix_transaction_count: u64,
    pub value_bytes: usize,
    pub concurrent_clients: usize,
    pub max_batch_items: usize,
    pub max_entry_bytes: usize,
    pub max_batch_delay_micros: u64,
    pub queue_capacity: usize,
    pub hot_key_count: u64,
}

impl CommitProxyObjectFrontierProfile {
    /// Positive bounded fields, 1 to 32 items per batch, one complete batch
    /// queued, and between one hot key and a quarter of the suffix.
    pub open spec fn valid(&self) -> bool {
        &&& self.prefix_transaction_count != 0
        &&& self.suffix_transaction_count != 0
        &&& self.value_bytes != 0
        &&& self.concurrent_clients != 0
        &&& 1 <= self.max_batch_items <= 32
        &&& self.max_entry_bytes != 0
        &&& self.max_batch_delay_micros != 0
        &&& self.queue_capacity >= self.max_batch_items
        &&& 1 <= self.hot_key_count <= self.suffix_transaction_count / 4
    }
}

/// Accept exactly the valid profiles.
pub fn validate_profile(profile: &CommitProxyObjectFrontierProfile) -> (result: Result<(), String>)
    ensures
        result is Ok <==> profile.valid(),
        result matches Err(e) ==> e@ == "G4.10b profile requires positive bounded fields, at most 32 items per batch, one complete queued batch, and a bounded hot-key set"@,
{
    if profile.prefix_transaction_count == 0 || profile.suffix_transaction_count == 0 || profile.value_bytes == 0
        || profile.concurrent_clients == 0 || profile.max_batch_items == 0 || profile.max_batch_items > 32
        || profile.max_entry_bytes == 0 || profile.max_batch_delay_micros == 0
        || profile.queue_capacity < profile.max_batch_items || profile.hot_key_count == 0
        || profile.hot_key_count > profile.suffix_transaction_count / 4
    {
        return Err("G4.10b profile requires positive bounded fields, at most 32 items per batch, one complete queued batch, and a bounded hot-key set".to_owned());
    }
    Ok(())
}

/// The number of suffix requests that read a hot key: the mode's share of
/// the suffix, the product saturating.
pub open spec fn conflict_attempts(mode: CommitProxyObjectFrontierMode, suffix_transaction_count: u64) -> u64 {
    crate::codec::sat_mul(suffix_transaction_count, conflict_quarters(mode)) / 4
}

/// The conflicts a run must observe: every conflicting attempt except the
/// first write of each hot key.
pub open spec fn expected_conflicts(mode: CommitProxyObjectFrontierMode, profile: CommitProxyObjectFrontierProfile) -> u64 {
    let attempts = conflict_attempts(mode, profile.suffix_transaction_count);
    if attempts <= profile.hot_key_count { 0 } else { (attempts - profile.hot_key_count) as u64 }
}

/// The exact number of conflicts a mode must observe.
pub fn expected_conflict_count(mode: CommitProxyObjectFrontierMode, profile: &CommitProxyObjectFrontierProfile) -> (count: u64)
    ensures
        count == expected_conflicts(mode, *profile),
        count <= profile.suffix_transaction_count,
{
    let attempts = crate::codec::saturating_mul_u64(profile.suffix_transaction_count, mode.conflict_numerator()) / mode.conflict_denominator();
    assert(attempts <= profile.suffix_transaction_count) by (nonlinear_arith)
        requires
            attempts == crate::codec::sat_mul(profile.suffix_transaction_count, conflict_quarters(mode)) / 4,
            conflict_quarters(mode) <= 3,
    ;
    let hot = if attempts <= profile.hot_key_count { attempts } else { profile.hot_key_count };
    attempts - hot
}

/// The client of the prefix, suffix and publication requests: the seed (1
/// for seed zero) raised by an offset, saturating.
pub open spec fn offset_client(seed: u64, offset: u64) -> u64 {
    let base = if seed >= 1 { seed } else { 1u64 };
    if base + offset > u64::MAX { u64::MAX } else { (base + offset) as u64 }
}

/// Client offset of the prefix requests.
pub const PREFIX_CLIENT_OFFSET: u64 = 100_000;

/// Client offset of the suffix requests.
pub const SUFFIX_CLIENT_OFFSET: u64 = 200_000;

/// Client offset of the publication requests.
pub const PUBLICATION_CLIENT_OFFSET: u64 = 300_000;

fn client_for(seed: u64, offset: u64) -> (client: u64)
    ensures
        client == offset_client(seed, offset),
{
    let base = if seed >= 1 { seed } else { 1 };
    base.saturating_add(offset)
}

/// The identity of a publication request.
pub fn publication_identity(seed: u64, request_id: u64) -> (identity: RequestIdentity)
    ensures
        identity == (RequestIdentity { client_id: offset_client(seed, PUBLICATION_CLIENT_OFFSET), request_id }),
{
    RequestIdentity { client_id: client_for(seed, PUBLICATION_CLIENT_OFFSET), request_id }
}

/// The tag of the suffix and prefix value digests.
pub open spec fn value_tag() -> Seq<u8> {
    "OKV-G410B-VALUE-V1\0"@.map_values(|c: char| c as u8)
}

/// The value of one request: digest blocks of the tag, seed and ordinal.
pub fn deterministic_value(seed: u64, ordinal: u64, value_bytes: usize) -> (value: Vec<u8>)
    requires
        value_bytes + 32 <= usize::MAX,
    ensures
        value@ == digest_stream(value_tag(), seed, ordinal, blocks_for(value_bytes as nat)).take(value_bytes as int),
{
    let tag = "OKV-G410B-VALUE-V1\0";
    proof {
        reveal_strlit("OKV-G410B-VALUE-V1\0");
        vstd::string::is_ascii_spec_bytes(tag);
    }
    assert(tag.is_ascii());
    assert(tag.spec_bytes() =~= value_tag());
    digest_value(tag.as_bytes(), seed, ordinal, value_bytes)
}

fn copy_credential(credential: &GenerationCredential) -> (copy: GenerationCredential)
    ensures
        copy.generation == credential.generation,
        copy.transaction_system_id@ == credential.transaction_system_id@,
{
    GenerationCredential { generation: credential.generation, transaction_system_id: credential.transaction_system_id.clone() }
}

/// The item carries the credential and sets `key` to `value` at the read
/// version, reading `key` when it reads a hot key.
pub open spec fn fenced_item(
    item: TransactionBatchItem,
    identity: RequestIdentity,
    credential: GenerationCredential,
    read_version: u64,
    reads_key: bool,
    key: Seq<u8>,
    value: Seq<u8>,
) -> bool {
    &&& item.identity == identity
    &&& item.credential matches Some(c) && c.generation == credential.generation
        && c.transaction_system_id@ == credential.transaction_system_id@
    &&& single_set_command(item.command, read_version, if reads_key { seq![key] } else { Seq::empty() }, key, value)
}

/// One prefix item per ordinal `1..=prefix_transaction_count`: a blind write
/// of its own base key from version zero.
pub fn prefix_items(seed: u64, profile: &CommitProxyObjectFrontierProfile, credential: &GenerationCredential) -> (items: Vec<TransactionBatchItem>)
    requires
        profile.value_bytes + 32 <= usize::MAX,
    ensures
        items@.len() == profile.prefix_transaction_count,
        forall|i: int| 0 <= i < items@.len() ==> fenced_item(
            #[trigger] items@[i],
            RequestIdentity { client_id: offset_client(seed, PREFIX_CLIENT_OFFSET), request_id: (i + 1) as u64 },
            *credential,
            0,
            false,
            seeded_key_spec("g410b/base/"@, seed, (i + 1) as u64),
            digest_stream(value_tag(), seed, (i + 1) as u64, blocks_for(profile.value_bytes as nat)).take(
                profile.value_bytes as int,
            ),
        ),
{
    let prefix = "g410b/base/";
    proof {
        reveal_strlit("g410b/base/");
    }
    assert(prefix.is_ascii());
    let client = client_for(seed, PREFIX_CLIENT_OFFSET);
    let mut items: Vec<TransactionBatchItem> = Vec::new();
    let mut ordinal: u64 = 0;
    while ordinal < profile.prefix_transaction_count
        invariant
            ordinal <= profile.prefix_transaction_count,
            profile.value_bytes + 32 <= usize::MAX,
            prefix@ == "g410b/base/"@,
            prefix.is_ascii(),
            client == offset_client(seed, PREFIX_CLIENT_OFFSET),
            items@.len() == ordinal,
            forall|i: int| 0 <= i < items@.len() ==> fenced_item(
                #[trigger] items@[i],
                RequestIdentity { client_id: offset_client(seed, PREFIX_CLIENT_OFFSET), request_id: (i + 1) as u64 },
                *credential,
                0,
                false,
                seeded_key_spec("g410b/base/"@, seed, (i + 1) as u64),
                digest_stream(value_tag(), seed, (i + 1) as u64, blocks_for(profile.value_bytes as nat)).take(
                    profile.value_bytes as int,
                ),
            ),
        decreases profile.prefix_transaction_count - ordinal,
    {
        ordinal = ordinal + 1;
        let key = seeded_key(prefix, seed, ordinal);
        let value = deterministic_value(seed, ordinal, profile.value_bytes);
        let command = set_command(0, false, key, value);
        items.push(TransactionBatchItem {
            identity: RequestIdentity { client_id: client, request_id: ordinal },
            credential: Some(copy_credential(credential)),
            command,
        });
    }
    items
}

/// Whether suffix ordinal `ordinal` (from 1) is one of the planned conflicts.
pub open spec fn plans_conflict(mode: CommitProxyObjectFrontierMode, profile: CommitProxyObjectFrontierProfile, ordinal: u64) -> bool {
    ordinal <= conflict_attempts(mode, profile.suffix_transaction_count)
}

/// The key of suffix ordinal `ordinal`: a hot key, cycling through the hot
/// set, for a planned conflict; otherwise its own unique key.
pub open spec fn suffix_key(seed: u64, mode: CommitProxyObjectFrontierMode, profile: CommitProxyObjectFrontierProfile, ordinal: u64) -> Seq<u8> {
    if plans_conflict(mode, profile, ordinal) {
        seeded_key_spec("g410b/hot/"@, seed, ((ordinal - 1) % (profile.hot_key_count as int)) as u64)
    } else {
        seeded_key_spec("g410b/unique/"@, seed, ordinal)
    }
}

/// The seed of the suffix values: the run seed plus one, saturating.
pub open spec fn suffix_seed(seed: u64) -> u64 {
    if seed == u64::MAX { u64::MAX } else { (seed + 1) as u64 }
}

/// One suffix item per ordinal `1..=suffix_transaction_count`, read at the
/// object version: the planned conflicts read and write a hot key, the rest
/// write their own unique key blindly.
pub fn suffix_items(
    seed: u64,
    mode: CommitProxyObjectFrontierMode,
    profile: &CommitProxyObjectFrontierProfile,
    read_version: u64,
    credential: &GenerationCredential,
) -> (items: Vec<TransactionBatchItem>)
    requires
        profile.value_bytes + 32 <= usize::MAX,
        profile.hot_key_count != 0,
    ensures
        items@.len() == profile.suffix_transaction_count,
        forall|i: int| 0 <= i < items@.len() ==> fenced_item(
            #[trigger] items@[i],
            RequestIdentity { client_id: offset_client(seed, SUFFIX_CLIENT_OFFSET), request_id: (i + 1) as u64 },
            *credential,
            read_version,
            plans_conflict(mode, *profile, (i + 1) as u64),
            suffix_key(seed, mode, *profile, (i + 1) as u64),
            digest_stream(value_tag(), suffix_seed(seed), (i + 1) as u64, blocks_for(profile.value_bytes as nat)).take(
                profile.value_bytes as int,
            ),
        ),
{
    let hot_prefix = "g410b/hot/";
    let unique_prefix = "g410b/unique/";
    proof {
        reveal_strlit("g410b/hot/");
        reveal_strlit("g410b/unique/");
    }
    assert(hot_prefix.is_ascii() && unique_prefix.is_ascii());
    let conflict_count = crate::codec::saturating_mul_u64(profile.suffix_transaction_count, mode.conflict_numerator()) / mode.conflict_denominator();
    let client = client_for(seed, SUFFIX_CLIENT_OFFSET);
    let value_seed = seed.saturating_add(1);
    let mut items: Vec<TransactionBatchItem> = Vec::new();
    let mut ordinal: u64 = 0;
    while ordinal < profile.suffix_transaction_count
        invariant
            ordinal <= profile.suffix_transaction_count,
            profile.value_bytes + 32 <= usize::MAX,
            profile.hot_key_count != 0,
            hot_prefix@ == "g410b/hot/"@,
            unique_prefix@ == "g410b/unique/"@,
            hot_prefix.is_ascii() && unique_prefix.is_ascii(),
            conflict_count == conflict_attempts(mode, profile.suffix_transaction_count),
            client == offset_client(seed, SUFFIX_CLIENT_OFFSET),
            value_seed == suffix_seed(seed),
            items@.len() == ordinal,
            forall|i: int| 0 <= i < items@.len() ==> fenced_item(
                #[trigger] items@[i],
                RequestIdentity { client_id: offset_client(seed, SUFFIX_CLIENT_OFFSET), request_id: (i + 1) as u64 },
                *credential,
                read_version,
                plans_conflict(mode, *profile, (i + 1) as u64),
                suffix_key(seed, mode, *profile, (i + 1) as u64),
                digest_stream(value_tag(), suffix_seed(seed), (i + 1) as u64, blocks_for(profile.value_bytes as nat)).take(
                    profile.value_bytes as int,
                ),
            ),
        decreases profile.suffix_transaction_count - ordinal,
    {
        ordinal = ordinal + 1;
        let conflict = ordinal <= conflict_count;
        let key = if conflict {
            seeded_key(hot_prefix, seed, (ordinal - 1) % profile.hot_key_count)
        } else {
            seeded_key(unique_prefix, seed, ordinal)
        };
        let value = deterministic_value(value_seed, ordinal, profile.value_bytes);
        let command = set_command(read_version, conflict, key, value);
        items.push(TransactionBatchItem {
            identity: RequestIdentity { client_id: client, request_id: ordinal },
            credential: Some(copy_credential(credential)),
            command,
        });
    }
    items
}

/// The versionstamp of a resolved outcome: its applied log index and batch
/// order.
pub open spec fn outcome_stamp(outcome: Result<TransactionApplyResponse, String>) -> (u64, u16) {
    match outcome {
        Ok(response) => (response.applied_log_index, response.batch_order),
        Err(_) => (0, 0),
    }
}

/// The indices of the resolved outcomes, in outcome order.
pub open spec fn resolved_indices(outcomes: Seq<Result<TransactionApplyResponse, String>>) -> Seq<int>
    decreases outcomes.len(),
{
    if outcomes.len() == 0 {
        Seq::empty()
    } else if outcomes.last() is Ok {
        resolved_indices(outcomes.drop_last()).push(outcomes.len() - 1)
    } else {
        resolved_indices(outcomes.drop_last())
    }
}

/// `order` lists the resolved outcomes sorted by versionstamp, ties kept in
/// outcome order: it is a permutation of the resolved indices along which the
/// versionstamps never decrease, and equal versionstamps keep increasing
/// indices.
pub open spec fn stably_ordered(outcomes: Seq<Result<TransactionApplyResponse, String>>, order: Seq<int>) -> bool {
    &&& order.to_multiset() == resolved_indices(outcomes).to_multiset()
    &&& forall|a: int, b: int| #![trigger order[a], order[b]] 0 <= a < b < order.len() ==> {
        let sa = outcome_stamp(outcomes[order[a]]);
        let sb = outcome_stamp(outcomes[order[b]]);
        stamp_le(sa, sb) && (sa == sb ==> order[a] < order[b])
    }
}

proof fn lemma_resolved_indices_bounds(outcomes: Seq<Result<TransactionApplyResponse, String>>)
    ensures
        forall|k: int| 0 <= k < resolved_indices(outcomes).len() ==> 0 <= #[trigger] resolved_indices(outcomes)[k]
            < outcomes.len() && outcomes[resolved_indices(outcomes)[k]] is Ok,
    decreases outcomes.len(),
{
    if outcomes.len() > 0 {
        lemma_resolved_indices_bounds(outcomes.drop_last());
        let prior = resolved_indices(outcomes.drop_last());
        assert forall|k: int| 0 <= k < prior.len() implies 0 <= #[trigger] prior[k] < outcomes.len()
            && outcomes[prior[k]] is Ok by {
            assert(outcomes.drop_last()[prior[k]] == outcomes[prior[k]]);
        }
    }
}

fn stamp_at_most(outcome: &Result<TransactionApplyResponse, String>, stamp: (u64, u16)) -> (at_most: bool)
    ensures
        at_most == stamp_le(outcome_stamp(*outcome), stamp),
{
    match outcome {
        Ok(other) => other.applied_log_index < stamp.0 || (other.applied_log_index == stamp.0
            && other.batch_order <= stamp.1),
        Err(_) => true,
    }
}

/// Order the resolved outcomes by versionstamp, stably.
pub fn stable_resolution_order(outcomes: &[Result<TransactionApplyResponse, String>]) -> (order: Vec<usize>)
    ensures
        stably_ordered(outcomes@, order@.map_values(|i: usize| i as int)),
        forall|k: int| 0 <= k < order@.len() ==> (#[trigger] order@[k]) < outcomes@.len(),
{
    let mut order: Vec<usize> = Vec::new();
    let mut index: usize = 0;
    proof {
        assert(order@.map_values(|i: usize| i as int) =~= resolved_indices(outcomes@.take(0)));
    }
    while index < outcomes.len()
        invariant
            index <= outcomes@.len(),
            forall|k: int| 0 <= k < order@.len() ==> (#[trigger] order@[k]) < index,
            order@.map_values(|i: usize| i as int).to_multiset() == resolved_indices(outcomes@.take(index as int)).to_multiset(),
            forall|k: int| 0 <= k < order@.len() ==> outcomes@[#[trigger] order@[k] as int] is Ok,
            forall|a: int, b: int| #![trigger order@[a], order@[b]] 0 <= a < b < order@.len() ==> {
                let sa = outcome_stamp(outcomes@[order@[a] as int]);
                let sb = outcome_stamp(outcomes@[order@[b] as int]);
                stamp_le(sa, sb) && (sa == sb ==> order@[a] < order@[b])
            },
        decreases outcomes@.len() - index,
    {
        let ghost prior_take = outcomes@.take(index as int);
        assert(outcomes@.take(index + 1).drop_last() =~= prior_take);
        if let Ok(response) = &outcomes[index] {
            let stamp = (response.applied_log_index, response.batch_order);
            let mut at: usize = 0;
            while at < order.len() && stamp_at_most(&outcomes[order[at]], stamp)
                invariant
                    at <= order@.len(),
                    index < outcomes@.len(),
                    outcomes@[index as int] matches Ok(r) && stamp == (r.applied_log_index, r.batch_order),
                    forall|k: int| 0 <= k < order@.len() ==> (#[trigger] order@[k]) < index,
                    forall|k: int| 0 <= k < order@.len() ==> outcomes@[#[trigger] order@[k] as int] is Ok,
                    forall|k: int| 0 <= k < at ==> stamp_le(outcome_stamp(outcomes@[#[trigger] order@[k] as int]), stamp),
                decreases order@.len() - at,
            {
                at = at + 1;
            }
            let ghost before = order@;
            order.insert(at, index);
            proof {
                let now = order@;
                assert(stamp == outcome_stamp(outcomes@[index as int]));
                assert forall|a: int, b: int| #![trigger now[a], now[b]] 0 <= a < b < now.len() implies ({
                    let sa = outcome_stamp(outcomes@[now[a] as int]);
                    let sb = outcome_stamp(outcomes@[now[b] as int]);
                    stamp_le(sa, sb) && (sa == sb ==> now[a] < now[b])
                }) by {
                    if b < at {
                        assert(now[a] == before[a] && now[b] == before[b]);
                    } else if b == at {
                        assert(now[a] == before[a]);
                    } else if a == at {
                        assert(now[b] == before[b - 1]);
                        if at < before.len() {
                            assert(!stamp_le(outcome_stamp(outcomes@[before[at as int] as int]), stamp));
                            let s0 = outcome_stamp(outcomes@[before[at as int] as int]);
                            let s1 = outcome_stamp(outcomes@[before[b - 1] as int]);
                            if b - 1 > at {
                                assert(stamp_le(s0, s1));
                            }
                        }
                    } else if a < at {
                        assert(now[a] == before[a] && now[b] == before[b - 1]);
                    } else {
                        assert(now[a] == before[a - 1] && now[b] == before[b - 1]);
                    }
                }
                let mapped_before = before.map_values(|i: usize| i as int);
                assert(now.map_values(|i: usize| i as int) =~= mapped_before.insert(at as int, index as int));
                vstd::seq_lib::to_multiset_insert(mapped_before, at as int, index as int);
                mapped_before.to_multiset_ensures();
                resolved_indices(prior_take).to_multiset_ensures();
                assert(resolved_indices(outcomes@.take(index + 1)) == resolved_indices(prior_take).push(index as int));
            }
        } else {
            assert(resolved_indices(outcomes@.take(index + 1)) == resolved_indices(prior_take));
        }
        index = index + 1;
    }
    assert(outcomes@.take(outcomes@.len() as int) =~= outcomes@);
    order
}

/// The hot keys' first committed versions, as a list without repeated keys.
struct FirstWrites {
    entries: Vec<(Vec<u8>, u64)>,
}

impl FirstWrites {
    spec fn view(&self) -> Map<Seq<u8>, u64> {
        Map::new(
            |k: Seq<u8>| exists|i: int| 0 <= i < self.entries@.len() && self.entries@[i].0@ == k,
            |k: Seq<u8>| self.entries@[choose|i: int| 0 <= i < self.entries@.len() && self.entries@[i].0@ == k].1,
        )
    }

    spec fn well_formed(&self) -> bool {
        forall|i: int, j: int| 0 <= i < j < self.entries@.len() ==> self.entries@[i].0@ != self.entries@[j].0@
    }

    proof fn lemma_at(&self, i: int)
        requires
            self.well_formed(),
            0 <= i < self.entries@.len(),
        ensures
            self.view().dom().contains(self.entries@[i].0@),
            self.view()[self.entries@[i].0@] == self.entries@[i].1,
    {
        let k = self.entries@[i].0@;
        let j = choose|j: int| 0 <= j < self.entries@.len() && self.entries@[j].0@ == k;
        if j != i {
            if j < i {
                assert(self.entries@[j].0@ != self.entries@[i].0@);
            } else {
                assert(self.entries@[i].0@ != self.entries@[j].0@);
            }
        }
    }

    fn get(&self, key: &[u8]) -> (found: Option<u64>)
        requires
            self.well_formed(),
        ensures
            found is None <==> !self.view().dom().contains(key@),
            found matches Some(v) ==> self.view()[key@] == v,
    {
        let mut index: usize = 0;
        while index < self.entries.len()
            invariant
                self.well_formed(),
                index <= self.entries@.len(),
                forall|j: int| 0 <= j < index ==> self.entries@[j].0@ != key@,
            decreases self.entries@.len() - index,
        {
            if crate::replay::bytes_equal(self.entries[index].0.as_slice(), key) {
                proof {
                    self.lemma_at(index as int);
                }
                return Some(self.entries[index].1);
            }
            index = index + 1;
        }
        None
    }

    fn insert(&mut self, key: Vec<u8>, version: u64)
        requires
            old(self).well_formed(),
            !old(self).view().dom().contains(key@),
        ensures
            final(self).well_formed(),
            final(self).view() == old(self).view().insert(key@, version),
    {
        let ghost before = *self;
        self.entries.push((key, version));
        proof {
            assert forall|i: int, j: int| 0 <= i < j < self.entries@.len() implies self.entries@[i].0@
                != self.entries@[j].0@ by {
                if j == before.entries@.len() {
                    if self.entries@[i].0@ == key@ {
                        assert(before.view().dom().contains(key@));
                    }
                } else {
                    assert(before.entries@[i].0@ != before.entries@[j].0@);
                }
            }
            let lhs = self.view();
            let rhs = before.view().insert(key@, version);
            assert forall|k: Seq<u8>| lhs.dom().contains(k) <==> rhs.dom().contains(k) by {
                if lhs.dom().contains(k) {
                    let i = choose|i: int| 0 <= i < self.entries@.len() && self.entries@[i].0@ == k;
                    if i < before.entries@.len() {
                        assert(before.entries@[i].0@ == k);
                    }
                }
                if before.view().dom().contains(k) {
                    let i = choose|i: int| 0 <= i < before.entries@.len() && before.entries@[i].0@ == k;
                    assert(self.entries@[i].0@ == k);
                }
                if k == key@ {
                    assert(self.entries@[before.entries@.len() as int].0@ == k);
                }
            }
            assert forall|k: Seq<u8>| lhs.dom().contains(k) implies lhs[k] == rhs[k] by {
                let i = choose|i: int| 0 <= i < self.entries@.len() && self.entries@[i].0@ == k;
                self.lemma_at(i);
                if i < before.entries@.len() {
                    before.lemma_at(i);
                }
            }
            assert(lhs =~= rhs);
        }
    }
}

/// One step of the conflict oracle over the outcomes in versionstamp order.
/// A blind write must commit. A hot-key read must use the object version; the
/// first commit of each hot key records its version, and every later read of
/// that key must conflict at exactly that version.
pub open spec fn oracle_step(
    item: TransactionBatchItem,
    response: TransactionApplyResponse,
    read_version: u64,
    writes: Map<Seq<u8>, u64>,
) -> (bool, Map<Seq<u8>, u64>) {
    if item.command.read_conflicts@.len() == 0 {
        (response.status is Committed, writes)
    } else if item.command.read_version != read_version {
        (false, writes)
    } else {
        let key = item.command.read_conflicts@[0].start@;
        if writes.dom().contains(key) {
            (response.status matches TransactionStatus::Conflict { conflicting_version } && conflicting_version
                == writes[key], writes)
        } else {
            match response.status {
                TransactionStatus::Committed { commit_version } => (true, writes.insert(key, commit_version)),
                _ => (false, writes),
            }
        }
    }
}

/// The oracle run over the first `n` outcomes of the order; it stops at the
/// first failed step.
pub open spec fn oracle_run(
    items: Seq<TransactionBatchItem>,
    outcomes: Seq<Result<TransactionApplyResponse, String>>,
    order: Seq<int>,
    read_version: u64,
    n: nat,
) -> (bool, Map<Seq<u8>, u64>)
    decreases n,
{
    if n == 0 {
        (true, Map::empty())
    } else {
        let (ok, writes) = oracle_run(items, outcomes, order, read_version, (n - 1) as nat);
        if !ok {
            (false, writes)
        } else {
            let i = order[n - 1];
            match outcomes[i] {
                Ok(response) => oracle_step(items[i], response, read_version, writes),
                Err(_) => (false, writes),
            }
        }
    }
}

/// Whether the suffix outcomes agree exactly with the planned conflicts,
/// taken in versionstamp order (ties in outcome order).
pub fn conflict_oracle_exact(
    items: &[TransactionBatchItem],
    outcomes: &[Result<TransactionApplyResponse, String>],
    read_version: u64,
) -> (exact: bool)
    requires
        items@.len() == outcomes@.len(),
    ensures
        exists|order: Seq<int>| stably_ordered(outcomes@, order) && exact == oracle_run(
            items@,
            outcomes@,
            order,
            read_version,
            order.len(),
        ).0,
{
    let order = stable_resolution_order(outcomes);
    let ghost spec_order = order@.map_values(|i: usize| i as int);
    let mut writes = FirstWrites { entries: Vec::new() };
    proof {
        assert(writes.view() =~= Map::<Seq<u8>, u64>::empty());
    }
    let mut k: usize = 0;
    while k < order.len()
        invariant
            k <= order@.len(),
            items@.len() == outcomes@.len(),
            spec_order == order@.map_values(|i: usize| i as int),
            stably_ordered(outcomes@, spec_order),
            forall|j: int| 0 <= j < order@.len() ==> (#[trigger] order@[j]) < outcomes@.len(),
            writes.well_formed(),
            oracle_run(items@, outcomes@, spec_order, read_version, k as nat) == (true, writes.view()),
        decreases order@.len() - k,
    {
        let i = order[k];
        let ghost before = writes.view();
        let ok = match &outcomes[i] {
            Ok(response) => {
                let command = &items[i].command;
                if command.read_conflicts.len() == 0 {
                    matches!(response.status, TransactionStatus::Committed { .. })
                } else if command.read_version != read_version {
                    false
                } else {
                    let key = &command.read_conflicts[0].start;
                    match writes.get(key.as_slice()) {
                        Some(first) => match response.status {
                            TransactionStatus::Conflict { conflicting_version } => conflicting_version == first,
                            _ => false,
                        },
                        None => match response.status {
                            TransactionStatus::Committed { commit_version } => {
                                writes.insert(crate::replay::copy_bytes(key), commit_version);
                                true
                            },
                            _ => false,
                        },
                    }
                }
            },
            Err(_) => false,
        };
        if !ok {
            proof {
                assert(oracle_run(items@, outcomes@, spec_order, read_version, (k + 1) as nat).0 == false);
                lemma_oracle_stops(items@, outcomes@, spec_order, read_version, (k + 1) as nat, spec_order.len());
                assert(stably_ordered(outcomes@, spec_order));
            }
            return false;
        }
        k = k + 1;
    }
    true
}

proof fn lemma_oracle_stops(
    items: Seq<TransactionBatchItem>,
    outcomes: Seq<Result<TransactionApplyResponse, String>>,
    order: Seq<int>,
    read_version: u64,
    failed: nat,
    later: nat,
)
    requires
        failed <= later,
        !oracle_run(items, outcomes, order, read_version, failed).0,
    ensures
        !oracle_run(items, outcomes, order, read_version, later).0,
    decreases later - failed,
{
    if later > failed {
        lemma_oracle_stops(items, outcomes, order, read_version, failed, (later - 1) as nat);
    }
}

/// The versionstamps of the resolved outcomes, in outcome order.
pub open spec fn resolved_stamps(outcomes: Seq<Result<TransactionApplyResponse, String>>) -> Seq<(u64, u16)>
    decreases outcomes.len(),
{
    if outcomes.len() == 0 {
        Seq::empty()
    } else if outcomes.last() is Ok {
        resolved_stamps(outcomes.drop_last()).push(outcome_stamp(outcomes.last()))
    } else {
        resolved_stamps(outcomes.drop_last())
    }
}

/// Whether the resolved versionstamps are unique and their batch orders
/// contiguous within each version, judged on the versionstamps in sorted order.
pub fn ordered_outcomes_exact(outcomes: &[Result<TransactionApplyResponse, String>]) -> (exact: (bool, bool))
    ensures
        exists|sorted: Seq<(u64, u16)>| stamps_sorted(sorted) && sorted.to_multiset() == resolved_stamps(outcomes@).to_multiset() && exact.0 == (forall|i: int|
            0 <= i < sorted.len() - 1 ==> #[trigger] sorted[i] != sorted[i + 1] && stamp_le(sorted[i], sorted[i + 1]))
            && exact.1 == orders_contiguous(sorted),
{
    let mut stamps: Vec<(u64, u16)> = Vec::new();
    let mut index: usize = 0;
    while index < outcomes.len()
        invariant
            index <= outcomes@.len(),
            stamps@ == resolved_stamps(outcomes@.take(index as int)),
        decreases outcomes@.len() - index,
    {
        assert(outcomes@.take(index + 1).drop_last() =~= outcomes@.take(index as int));
        if let Ok(response) = &outcomes[index] {
            stamps.push((response.applied_log_index, response.batch_order));
        }
        index = index + 1;
    }
    assert(outcomes@.take(outcomes@.len() as int) =~= outcomes@);
    let sorted = sort_versionstamps(stamps);
    let unique = stamps_unique(sorted.as_slice());
    let contiguous = contiguous_batch_orders(sorted.as_slice());
    (unique, contiguous)
}

/// The batcher bounds of a run: one item per entry under the one-entry
/// control, the profile's batch size otherwise, with the profile's entry,
/// delay and queue bounds. A valid profile's bounds are accepted by the
/// batcher.
pub fn batcher_config(
    mode: CommitProxyObjectFrontierMode,
    profile: &CommitProxyObjectFrontierProfile,
) -> (config: TransactionBatcherConfig)
    ensures
        config.max_items == (if mode is OneEntrySameDurabilityControl { 1 } else { profile.max_batch_items }),
        config.max_entry_bytes == profile.max_entry_bytes,
        duration_is_zero(config.max_delay) == (profile.max_batch_delay_micros == 0),
        config.queue_capacity == profile.queue_capacity,
        profile.valid() ==> config.accepted(),
{
    let max_items = match mode {
        CommitProxyObjectFrontierMode::OneEntrySameDurabilityControl => 1,
        _ => profile.max_batch_items,
    };
    TransactionBatcherConfig {
        max_items,
        max_entry_bytes: profile.max_entry_bytes,
        max_delay: delay_from_micros(profile.max_batch_delay_micros),
        queue_capacity: profile.queue_capacity,
    }
}

/// The prefix refuses the run unless every prefix transaction committed:
/// `G4.10b prefix committed <k> of <m> transactions`.
pub open spec fn uncommitted_prefix_refusal(committed: u64, expected: u64) -> Seq<char> {
    "G4.10b prefix committed "@ + crate::comparison::decimal_chars(committed) + " of "@
        + crate::comparison::decimal_chars(expected) + " transactions"@
}

/// Refuse a prefix that committed other than every one of its transactions.
pub fn check_prefix_committed(prefix_committed_count: u64, prefix_transaction_count: u64) -> (result: Result<(), String>)
    ensures
        result is Ok <==> prefix_committed_count == prefix_transaction_count,
        result matches Err(e) ==> e@ == uncommitted_prefix_refusal(prefix_committed_count, prefix_transaction_count),
{
    if prefix_committed_count == prefix_transaction_count {
        return Ok(());
    }
    let mut message = "G4.10b prefix committed ".to_owned();
    let digits = crate::codec::decimal_text(prefix_committed_count);
    crate::codec::append_text(&mut message, digits.as_str());
    crate::codec::append_text(&mut message, " of ");
    let digits = crate::codec::decimal_text(prefix_transaction_count);
    crate::codec::append_text(&mut message, digits.as_str());
    crate::codec::append_text(&mut message, " transactions");
    Err(message)
}

} // verus!
