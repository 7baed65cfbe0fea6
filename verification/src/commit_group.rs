//! Bounded concurrent group commit: the frozen profile, the workload commands,
//! the final-value oracle, and the anomaly count of a run.

use crate::replay::{apply_mutation, apply_mutations, distinct_pair_keys, pairs_map, replay_spec, values_only, ReplayState, ReplayedValues};
use crate::transaction::{single_set_command, set_command, Mutation, RetainedTransactionRecord, TransactionCommand};
use crate::workload::{lemma_range_key_injective, range_key, range_key_spec};
use vstd::prelude::*;

verus! {

/// Subject selected for the group-commit falsifier.
#[derive(Clone, Copy, Debug, PartialEq, Eq, Structural)]
pub enum CommitGroupMode {
    Candidate,
    SequentialControl,
    EarlyAckPoison,
}

pub open spec fn commit_group_mode_id(mode: CommitGroupMode) -> Seq<char> {
    match mode {
        CommitGroupMode::Candidate => "candidate"@,
        CommitGroupMode::SequentialControl => "sequential_control"@,
        CommitGroupMode::EarlyAckPoison => "early_ack_poison"@,
    }
}

impl CommitGroupMode {
    /// Stable identifier used by receipts.
    pub fn id(self) -> (id: &'static str)
        ensures
            id@ == commit_group_mode_id(self),
    {
        match self {
            CommitGroupMode::Candidate => "candidate",
            CommitGroupMode::SequentialControl => "sequential_control",
            CommitGroupMode::EarlyAckPoison => "early_ack_poison",
        }
    }
}

/// Frozen workload and admission limits.
#[derive(Clone, Debug, PartialEq, Eq)]
pub struct CommitGroupProfile {
    pub live_keys: u64,
    pub value_bytes: usize,
    pub transaction_count: u64,
    pub candidate_max_in_flight: usize,
    pub control_max_in_flight: usize,
    pub candidate_min_transactions_per_second: u64,
    pub candidate_min_entries_per_append: u64,
    pub candidate_max_commit_p99_micros: u64,
}

/// Largest number of transactions one run commits.
pub const MAX_TRANSACTIONS: u64 = 4_096;

/// Largest number of candidate transactions in flight.
pub const MAX_IN_FLIGHT: usize = 256;

impl CommitGroupProfile {
    /// Every live key is written at least once, within the bounded run.
    pub open spec fn workload_bounded(&self) -> bool {
        &&& self.live_keys != 0
        &&& self.value_bytes != 0
        &&& self.transaction_count >= self.live_keys
        &&& self.transaction_count <= MAX_TRANSACTIONS
    }

    /// The candidate overlaps 2 to 256 commits, the control runs them one at a
    /// time, and every throughput and latency gate is positive.
    pub open spec fn admission_bounded(&self) -> bool {
        &&& 2 <= self.candidate_max_in_flight <= MAX_IN_FLIGHT
        &&& self.control_max_in_flight == 1
        &&& self.candidate_min_transactions_per_second != 0
        &&& self.candidate_min_entries_per_append != 0
        &&& self.candidate_max_commit_p99_micros != 0
    }
}

/// Accept exactly the bounded profiles; workload bounds are checked first.
pub fn validate_profile(profile: &CommitGroupProfile) -> (result: Result<(), String>)
    ensures
        result is Ok <==> profile.workload_bounded() && profile.admission_bounded(),
        !profile.workload_bounded() ==> (result matches Err(e)
            && e@ == "commit-group profile has invalid workload bounds"@),
        profile.workload_bounded() && !profile.admission_bounded() ==> (result matches Err(e)
            && e@ == "commit-group profile has invalid admission gates"@),
{
    if profile.live_keys == 0 || profile.value_bytes == 0 || profile.transaction_count < profile.live_keys
        || profile.transaction_count > MAX_TRANSACTIONS
    {
        return Err("commit-group profile has invalid workload bounds".to_owned());
    }
    if profile.candidate_max_in_flight < 2 || profile.control_max_in_flight != 1
        || profile.candidate_max_in_flight > MAX_IN_FLIGHT || profile.candidate_min_transactions_per_second == 0
        || profile.candidate_min_entries_per_append == 0 || profile.candidate_max_commit_p99_micros == 0
    {
        return Err("commit-group profile has invalid admission gates".to_owned());
    }
    Ok(())
}

/// The fill byte of key slot `key_index`: a capital letter cycling with the
/// seed and the slot.
pub open spec fn fill_spec(seed: u64, key_index: nat) -> u8 {
    (65 + (seed + key_index) % 26) as u8
}

/// The value written to key slot `key_index`.
pub open spec fn slot_value(seed: u64, key_index: nat, value_bytes: nat) -> Seq<u8> {
    Seq::new(value_bytes, |i: int| fill_spec(seed, key_index))
}

/// The fill byte of key slot `key_index`.
pub fn value_fill(seed: u64, key_index: u64) -> (fill: u8)
    requires
        seed + key_index <= u64::MAX,
    ensures
        fill == fill_spec(seed, key_index as nat),
        65 <= fill <= 90,
{
    (65 + (seed + key_index) % 26) as u8
}

/// The key slot that request `request_id` writes.
pub open spec fn slot_of(request_id: u64, live_keys: u64) -> nat {
    ((request_id - 1) % (live_keys as int)) as nat
}

/// The command writes the slot's value, from read version zero, conflicting
/// only on writes to the slot's key.
pub open spec fn writes_slot(command: TransactionCommand, seed: u64, profile: CommitGroupProfile, key_index: nat) -> bool {
    single_set_command(
        command,
        0,
        Seq::empty(),
        range_key_spec(key_index),
        slot_value(seed, key_index, profile.value_bytes as nat),
    )
}

fn filled(fill: u8, length: usize) -> (value: Vec<u8>)
    ensures
        value@ == Seq::new(length as nat, |i: int| fill),
{
    let mut value: Vec<u8> = Vec::new();
    let mut index: usize = 0;
    while index < length
        invariant
            index <= length,
            value@ == Seq::new(index as nat, |i: int| fill),
        decreases length - index,
    {
        value.push(fill);
        index = index + 1;
        assert(value@ =~= Seq::new(index as nat, |i: int| fill));
    }
    value
}

/// The command of request `request_id`: it writes the slot `(request_id - 1)
/// % live_keys`, so it depends on the request only through that slot.
pub fn command(seed: u64, request_id: u64, profile: &CommitGroupProfile) -> (command: TransactionCommand)
    requires
        request_id >= 1,
        profile.live_keys != 0,
        seed + profile.live_keys <= u64::MAX + 1,
    ensures
        writes_slot(command, seed, *profile, slot_of(request_id, profile.live_keys)),
{
    let key_index = (request_id - 1) % profile.live_keys;
    let key = range_key(key_index);
    let fill = value_fill(seed, key_index);
    let value = filled(fill, profile.value_bytes);
    assert(value@ =~= slot_value(seed, key_index as nat, profile.value_bytes as nat));
    set_command(0, false, key, value)
}

/// The final values every run must leave: each live slot's key holds that
/// slot's value.
pub open spec fn expected_map(seed: u64, profile: CommitGroupProfile) -> Map<Seq<u8>, Seq<u8>> {
    Map::new(
        |k: Seq<u8>| exists|i: nat| i < profile.live_keys && range_key_spec(i) == k,
        |k: Seq<u8>| slot_value(
            seed,
            choose|i: nat| i < profile.live_keys && range_key_spec(i) == k,
            profile.value_bytes as nat,
        ),
    )
}

proof fn lemma_expected_map_at(seed: u64, profile: CommitGroupProfile, i: nat)
    requires
        i < profile.live_keys,
    ensures
        expected_map(seed, profile).dom().contains(range_key_spec(i)),
        expected_map(seed, profile)[range_key_spec(i)] == slot_value(seed, i, profile.value_bytes as nat),
{
    let k = range_key_spec(i);
    assert(exists|j: nat| j < profile.live_keys && range_key_spec(j) == k);
    let j = choose|j: nat| j < profile.live_keys && range_key_spec(j) == k;
    lemma_range_key_injective(i, j);
}

/// The expected final values, one pair per live slot in slot order.
pub fn expected_values(seed: u64, profile: &CommitGroupProfile) -> (pairs: Vec<(Vec<u8>, Vec<u8>)>)
    requires
        seed + profile.live_keys <= u64::MAX + 1,
    ensures
        pairs@.len() == profile.live_keys,
        forall|i: int| 0 <= i < pairs@.len() ==> (#[trigger] pairs@[i]).0@ == range_key_spec(i as nat)
            && pairs@[i].1@ == slot_value(seed, i as nat, profile.value_bytes as nat),
        distinct_pair_keys(pairs@),
        pairs_map(pairs@) == expected_map(seed, *profile),
{
    let mut pairs: Vec<(Vec<u8>, Vec<u8>)> = Vec::new();
    let mut key_index: u64 = 0;
    while key_index < profile.live_keys
        invariant
            key_index <= profile.live_keys,
            seed + profile.live_keys <= u64::MAX + 1,
            pairs@.len() == key_index,
            forall|i: int| 0 <= i < pairs@.len() ==> (#[trigger] pairs@[i]).0@ == range_key_spec(i as nat)
                && pairs@[i].1@ == slot_value(seed, i as nat, profile.value_bytes as nat),
        decreases profile.live_keys - key_index,
    {
        let key = range_key(key_index);
        let value = filled(value_fill(seed, key_index), profile.value_bytes);
        assert(value@ =~= slot_value(seed, key_index as nat, profile.value_bytes as nat));
        pairs.push((key, value));
        key_index = key_index + 1;
    }
    proof {
        assert forall|i: int, j: int| 0 <= i < j < pairs@.len() implies pairs@[i].0@ != pairs@[j].0@ by {
            if pairs@[i].0@ == pairs@[j].0@ {
                lemma_range_key_injective(i as nat, j as nat);
            }
        }
        let lhs = pairs_map(pairs@);
        let rhs = expected_map(seed, *profile);
        assert forall|k: Seq<u8>| lhs.dom().contains(k) <==> rhs.dom().contains(k) by {
            if lhs.dom().contains(k) {
                let i = choose|i: int| 0 <= i < pairs@.len() && pairs@[i].0@ == k;
                assert(range_key_spec(i as nat) == k);
            }
            if rhs.dom().contains(k) {
                let i = choose|i: nat| i < profile.live_keys && range_key_spec(i) == k;
                assert(pairs@[i as int].0@ == k);
            }
        }
        assert forall|k: Seq<u8>| lhs.dom().contains(k) implies lhs[k] == rhs[k] by {
            let i = choose|i: int| 0 <= i < pairs@.len() && pairs@[i].0@ == k;
            let j = choose|j: int| 0 <= j < pairs@.len() && pairs@[j].0@ == k;
            assert(range_key_spec(i as nat) == k);
            assert(range_key_spec(j as nat) == k);
            lemma_range_key_injective(i as nat, j as nat);
            lemma_expected_map_at(seed, *profile, i as nat);
        }
        assert(lhs =~= rhs);
    }
    pairs
}

/// Whether the replayed values are exactly the expected final values.
pub fn exact_final_values(values: &ReplayedValues, seed: u64, profile: &CommitGroupProfile) -> (exact: bool)
    requires
        values.well_formed(),
        seed + profile.live_keys <= u64::MAX + 1,
    ensures
        exact == (values_only(values.view()) == expected_map(seed, *profile)),
{
    let expected = expected_values(seed, profile);
    values.values_equal(expected.as_slice())
}

/// The record's command writes one live slot's value.
pub open spec fn writes_some_slot(record: RetainedTransactionRecord, seed: u64, profile: CommitGroupProfile) -> bool {
    exists|i: nat| i < profile.live_keys && writes_slot(record.command, seed, profile, i)
}

/// Some record writes slot `key_index`.
pub open spec fn slot_written_by(records: Seq<RetainedTransactionRecord>, seed: u64, profile: CommitGroupProfile, key_index: nat) -> bool {
    exists|r: int| 0 <= r < records.len() && writes_slot(records[r].command, seed, profile, key_index)
}

/// Every key of the state holds a live slot's value, and the state holds the
/// key of every slot in `written`.
spec fn slots_written(state: ReplayState, seed: u64, profile: CommitGroupProfile, written: Set<nat>) -> bool {
    &&& forall|k: Seq<u8>| #[trigger] state.dom().contains(k) ==> exists|i: nat|
        i < profile.live_keys && range_key_spec(i) == k && state[k].1 == slot_value(seed, i, profile.value_bytes as nat)
    &&& forall|i: nat| #[trigger] written.contains(i) ==> state.dom().contains(range_key_spec(i))
}

/// The slot that a record's command writes.
spec fn slot_of_record(record: RetainedTransactionRecord, seed: u64, profile: CommitGroupProfile) -> nat {
    choose|i: nat| i < profile.live_keys && writes_slot(record.command, seed, profile, i)
}

spec fn written_slots(records: Seq<RetainedTransactionRecord>, seed: u64, profile: CommitGroupProfile) -> Set<nat> {
    Set::new(|i: nat| exists|r: int| 0 <= r < records.len() && slot_of_record(records[r], seed, profile) == i)
}

proof fn lemma_replay_writes_slots(records: Seq<RetainedTransactionRecord>, seed: u64, profile: CommitGroupProfile)
    requires
        forall|r: int| 0 <= r < records.len() ==> #[trigger] writes_some_slot(records[r], seed, profile),
    ensures
        slots_written(replay_spec(records), seed, profile, written_slots(records, seed, profile)),
    decreases records.len(),
{
    if records.len() > 0 {
        let prior = records.drop_last();
        assert forall|r: int| 0 <= r < prior.len() implies #[trigger] writes_some_slot(prior[r], seed, profile) by {
            assert(prior[r] == records[r]);
            assert(writes_some_slot(records[r], seed, profile));
        }
        lemma_replay_writes_slots(prior, seed, profile);
        let last = records.last();
        assert(writes_some_slot(records[records.len() - 1], seed, profile));
        let slot = slot_of_record(last, seed, profile);
        let before = replay_spec(prior);
        let mutations = last.command.mutations@;
        assert(mutations.drop_last() =~= Seq::<Mutation>::empty());
        assert(apply_mutations(before, last.commit_version, mutations.drop_last()) == before);
        let after = replay_spec(records);
        assert(after == apply_mutation(before, last.commit_version, mutations[0]));
        assert(after == before.insert(range_key_spec(slot), (last.commit_version, slot_value(seed, slot, profile.value_bytes as nat))));
        let written = written_slots(records, seed, profile);
        let prior_written = written_slots(prior, seed, profile);
        assert forall|i: nat| #[trigger] written.contains(i) implies after.dom().contains(range_key_spec(i)) by {
            let r = choose|r: int| 0 <= r < records.len() && slot_of_record(records[r], seed, profile) == i;
            if r < prior.len() {
                assert(prior[r] == records[r]);
                assert(prior_written.contains(i));
            }
        }
        assert forall|k: Seq<u8>| #[trigger] after.dom().contains(k) implies exists|i: nat|
            i < profile.live_keys && range_key_spec(i) == k && after[k].1 == slot_value(seed, i, profile.value_bytes as nat) by {
            if k != range_key_spec(slot) {
                assert(before.dom().contains(k));
            }
        }
    }
}

/// The final-value oracle ignores the order in which overwrites commit: for
/// every sequence of committed records in which each record writes one live
/// slot's value and every live slot is written at least once, the replayed
/// values, versions aside, are exactly the expected final values.
pub proof fn lemma_final_values_ignore_commit_order(
    seed: u64,
    profile: CommitGroupProfile,
    records: Seq<RetainedTransactionRecord>,
)
    requires
        forall|r: int| 0 <= r < records.len() ==> #[trigger] writes_some_slot(records[r], seed, profile),
        forall|i: nat| i < profile.live_keys ==> #[trigger] slot_written_by(records, seed, profile, i),
    ensures
        values_only(replay_spec(records)) == expected_map(seed, profile),
{
    lemma_replay_writes_slots(records, seed, profile);
    let state = replay_spec(records);
    let written = written_slots(records, seed, profile);
    let lhs = values_only(state);
    let rhs = expected_map(seed, profile);
    assert forall|k: Seq<u8>| lhs.dom().contains(k) <==> rhs.dom().contains(k) by {
        if rhs.dom().contains(k) {
            let i = choose|i: nat| i < profile.live_keys && range_key_spec(i) == k;
            assert(slot_written_by(records, seed, profile, i));
            let r = choose|r: int| 0 <= r < records.len() && writes_slot(records[r].command, seed, profile, i);
            let s = slot_of_record(records[r], seed, profile);
            assert(writes_some_slot(records[r], seed, profile));
            assert(writes_slot(records[r].command, seed, profile, s));
            assert(range_key_spec(s) == range_key_spec(i));
            lemma_range_key_injective(s, i);
            assert(written.contains(i));
        }
        if lhs.dom().contains(k) {
            assert(state.dom().contains(k));
        }
    }
    assert forall|k: Seq<u8>| lhs.dom().contains(k) implies lhs[k] == rhs[k] by {
        assert(state.dom().contains(k));
        let i = choose|i: nat| i < profile.live_keys && range_key_spec(i) == k
            && state[k].1 == slot_value(seed, i, profile.value_bytes as nat);
        lemma_expected_map_at(seed, profile, i);
    }
    assert(lhs =~= rhs);
}

/// Whether the versions are unique and increasing.
pub fn versions_increasing(versions: &[u64]) -> (increasing: bool)
    ensures
        increasing == forall|i: int, j: int| 0 <= i < j < versions@.len() ==> versions@[i] < versions@[j],
{
    if versions.len() < 2 {
        return true;
    }
    let mut index: usize = 1;
    while index < versions.len()
        invariant
            1 <= index <= versions@.len(),
            forall|i: int, j: int| 0 <= i < j < index ==> versions@[i] < versions@[j],
        decreases versions@.len() - index,
    {
        if versions[index - 1] >= versions[index] {
            return false;
        }
        assert forall|i: int, j: int| 0 <= i < j < index + 1 implies versions@[i] < versions@[j] by {
            if j == index && i < index - 1 {
                assert(versions@[i] < versions@[index - 1]);
            }
        }
        index = index + 1;
    }
    true
}

/// The observations of one normal group-commit run.
#[derive(Clone, Copy, Debug, PartialEq, Eq, Structural)]
pub struct CommitGroupObservations {
    pub authority_processes: u64,
    pub committed_count: u64,
    pub commit_versions_unique_and_increasing: bool,
    pub retained_stream_complete: bool,
    pub exact_final_values: bool,
    pub exact_retry: bool,
    pub leader_failover_exact: bool,
    pub restarted_voter_exact: bool,
}

/// The anomalies of a normal run: one for each of three processes not
/// running, a committed count other than the profile's, and each failed
/// exactness check.
pub fn normal_anomalies(observed: &CommitGroupObservations, transaction_count: u64) -> (anomalies: u64)
    ensures
        anomalies == (if observed.authority_processes != 3 { 1int } else { 0 })
            + (if observed.committed_count != transaction_count { 1int } else { 0 })
            + (if !observed.commit_versions_unique_and_increasing { 1int } else { 0 })
            + (if !observed.retained_stream_complete { 1int } else { 0 })
            + (if !observed.exact_final_values { 1int } else { 0 })
            + (if !observed.exact_retry { 1int } else { 0 })
            + (if !observed.leader_failover_exact { 1int } else { 0 })
            + (if !observed.restarted_voter_exact { 1int } else { 0 }),
{
    let mut anomalies: u64 = 0;
    if observed.authority_processes != 3 {
        anomalies = anomalies + 1;
    }
    if observed.committed_count != transaction_count {
        anomalies = anomalies + 1;
    }
    if !observed.commit_versions_unique_and_increasing {
        anomalies = anomalies + 1;
    }
    if !observed.retained_stream_complete {
        anomalies = anomalies + 1;
    }
    if !observed.exact_final_values {
        anomalies = anomalies + 1;
    }
    if !observed.exact_retry {
        anomalies = anomalies + 1;
    }
    if !observed.leader_failover_exact {
        anomalies = anomalies + 1;
    }
    if !observed.restarted_voter_exact {
        anomalies = anomalies + 1;
    }
    anomalies
}

/// Whether the retained stream is complete: the read is complete, returns one
/// record per transaction, and its commit versions strictly increase.
pub fn retained_stream_complete(page_complete: bool, records: &[RetainedTransactionRecord], transaction_count: u64) -> (complete: bool)
    ensures
        complete == (page_complete && records@.len() == transaction_count && forall|i: int, j: int|
            0 <= i < j < records@.len() ==> records@[i].commit_version < records@[j].commit_version),
{
    if !page_complete || records.len() as u64 != transaction_count {
        return false;
    }
    let mut versions: Vec<u64> = Vec::new();
    let mut index: usize = 0;
    while index < records.len()
        invariant
            index <= records@.len(),
            versions@.len() == index,
            forall|i: int| 0 <= i < index ==> versions@[i] == records@[i].commit_version,
        decreases records@.len() - index,
    {
        versions.push(records[index].commit_version);
        index = index + 1;
    }
    let increasing = versions_increasing(versions.as_slice());
    proof {
        if increasing {
            assert forall|i: int, j: int| 0 <= i < j < records@.len() implies records@[i].commit_version
                < records@[j].commit_version by {
                assert(versions@[i] < versions@[j]);
            }
        } else {
            let (i, j) = choose|i: int, j: int| 0 <= i < j < versions@.len() && !(versions@[i] < versions@[j]);
            assert(!(records@[i].commit_version < records@[j].commit_version));
        }
    }
    increasing
}

/// The early-acknowledgement poison is one anomaly exactly when an early
/// acknowledgement was observed and the write was then lost after the quorum
/// recovered.
pub fn early_ack_anomalies(early_ack_observed: bool, missing_after_recovery: bool) -> (anomalies: u64)
    ensures
        anomalies == (if early_ack_observed && missing_after_recovery { 1u64 } else { 0u64 }),
{
    if early_ack_observed && missing_after_recovery { 1 } else { 0 }
}

} // verus!
