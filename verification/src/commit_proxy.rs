//! Independent-request commit-proxy batching: the frozen profile, the bounds
//! of each subject, the workload items, the versionstamp checks, and the
//! anomaly count of a run.

use crate::codec::{count_if, flag, contains_bytes, decimal, extend_bytes, find_bytes, push_decimal, push_zero_padded, zero_padded};
use crate::transaction::{single_set_command, set_command, RequestIdentity, TransactionApplyResponse, TransactionBatchItem, TransactionStatus};
use crate::transaction_log::{delay_from_micros, duration_is_zero, TransactionBatcherConfig};
use vstd::prelude::*;
use vstd::string::StringSliceAdditionalSpecFns;

verus! {

/// Subject selected for the commit-proxy falsifier.
#[derive(Clone, Copy, Debug, PartialEq, Eq, Structural)]
pub enum CommitProxyMode {
    SaturatedCandidate,
    AdmissionKneeControl,
    SparseArrivalControl,
    ByteBoundControl,
    OverloadControl,
    OversizedItemPoison,
}

pub open spec fn commit_proxy_mode_id(mode: CommitProxyMode) -> Seq<char> {
    match mode {
        CommitProxyMode::SaturatedCandidate => "saturated_candidate"@,
        CommitProxyMode::AdmissionKneeControl => "admission_knee_control"@,
        CommitProxyMode::SparseArrivalControl => "sparse_arrival_control"@,
        CommitProxyMode::ByteBoundControl => "byte_bound_control"@,
        CommitProxyMode::OverloadControl => "overload_control"@,
        CommitProxyMode::OversizedItemPoison => "oversized_item_poison"@,
    }
}

impl CommitProxyMode {
    /// Stable identifier used by receipts.
    pub fn id(self) -> (id: &'static str)
        ensures
            id@ == commit_proxy_mode_id(self),
    {
        match self {
            CommitProxyMode::SaturatedCandidate => "saturated_candidate",
            CommitProxyMode::AdmissionKneeControl => "admission_knee_control",
            CommitProxyMode::SparseArrivalControl => "sparse_arrival_control",
            CommitProxyMode::ByteBoundControl => "byte_bound_control",
            CommitProxyMode::OverloadControl => "overload_control",
            CommitProxyMode::OversizedItemPoison => "oversized_item_poison",
        }
    }
}

/// Frozen request and commit-proxy bounds.
#[derive(Clone, Copy, Debug, PartialEq, Eq, Structural)]
pub struct CommitProxyProfile {
    pub transaction_count: u64,
    pub value_bytes: usize,
    pub concurrent_clients: usize,
    pub admission_knee_clients: usize,
    pub max_batch_items: usize,
    pub max_entry_bytes: usize,
    pub max_batch_delay_micros: u64,
    pub queue_capacity: usize,
    pub sparse_transaction_count: u64,
    pub byte_control_transaction_count: u64,
    pub byte_control_value_bytes: usize,
    pub byte_control_max_entry_bytes: usize,
    pub overload_transaction_count: u64,
    pub overload_queue_capacity: usize,
}

impl CommitProxyProfile {
    /// Every count and size is positive, a batch holds 1 to 32 items, and both
    /// queues hold at least one complete batch.
    pub open spec fn valid(&self) -> bool {
        &&& self.transaction_count != 0
        &&& self.value_bytes != 0
        &&& self.concurrent_clients != 0
        &&& self.admission_knee_clients != 0
        &&& 1 <= self.max_batch_items <= 32
        &&& self.max_entry_bytes != 0
        &&& self.max_batch_delay_micros != 0
        &&& self.queue_capacity >= self.max_batch_items
        &&& self.sparse_transaction_count != 0
        &&& self.byte_control_transaction_count != 0
        &&& self.byte_control_value_bytes != 0
        &&& self.byte_control_max_entry_bytes != 0
        &&& self.overload_transaction_count != 0
        &&& self.overload_queue_capacity >= self.max_batch_items
    }
}

/// Accept exactly the valid profiles.
pub fn validate_profile(profile: &CommitProxyProfile) -> (result: Result<(), String>)
    ensures
        result is Ok <==> profile.valid(),
        result matches Err(e) ==> e@ == "commit-proxy profile requires positive bounded fields, max batch items at most 32, and queues at least one complete batch"@,
{
    if profile.transaction_count == 0 || profile.value_bytes == 0 || profile.concurrent_clients == 0
        || profile.admission_knee_clients == 0 || profile.max_batch_items == 0 || profile.max_batch_items > 32
        || profile.max_entry_bytes == 0 || profile.max_batch_delay_micros == 0
        || profile.queue_capacity < profile.max_batch_items || profile.sparse_transaction_count == 0
        || profile.byte_control_transaction_count == 0 || profile.byte_control_value_bytes == 0
        || profile.byte_control_max_entry_bytes == 0 || profile.overload_transaction_count == 0
        || profile.overload_queue_capacity < profile.max_batch_items
    {
        return Err("commit-proxy profile requires positive bounded fields, max batch items at most 32, and queues at least one complete batch".to_owned());
    }
    Ok(())
}

/// The request load and batcher bounds of one subject.
#[derive(Clone, Copy, Debug, PartialEq, Eq, Structural)]
pub struct SubjectBounds {
    pub transaction_count: u64,
    pub value_bytes: usize,
    pub concurrent_requests: usize,
    pub max_entry_bytes: usize,
    pub queue_capacity: usize,
}

/// The bounds each mode runs with.
pub open spec fn subject_bounds_spec(mode: CommitProxyMode, profile: CommitProxyProfile) -> SubjectBounds {
    match mode {
        CommitProxyMode::SaturatedCandidate => SubjectBounds {
            transaction_count: profile.transaction_count,
            value_bytes: profile.value_bytes,
            concurrent_requests: profile.concurrent_clients,
            max_entry_bytes: profile.max_entry_bytes,
            queue_capacity: profile.queue_capacity,
        },
        CommitProxyMode::AdmissionKneeControl => SubjectBounds {
            transaction_count: profile.transaction_count,
            value_bytes: profile.value_bytes,
            concurrent_requests: profile.admission_knee_clients,
            max_entry_bytes: profile.max_entry_bytes,
            queue_capacity: profile.queue_capacity,
        },
        CommitProxyMode::SparseArrivalControl => SubjectBounds {
            transaction_count: profile.sparse_transaction_count,
            value_bytes: profile.value_bytes,
            concurrent_requests: 1,
            max_entry_bytes: profile.max_entry_bytes,
            queue_capacity: profile.queue_capacity,
        },
        CommitProxyMode::ByteBoundControl => SubjectBounds {
            transaction_count: profile.byte_control_transaction_count,
            value_bytes: profile.byte_control_value_bytes,
            concurrent_requests: profile.concurrent_clients,
            max_entry_bytes: profile.byte_control_max_entry_bytes,
            queue_capacity: profile.queue_capacity,
        },
        CommitProxyMode::OverloadControl => SubjectBounds {
            transaction_count: profile.overload_transaction_count,
            value_bytes: profile.value_bytes,
            concurrent_requests: if profile.overload_transaction_count <= usize::MAX {
                profile.overload_transaction_count as usize
            } else {
                usize::MAX
            },
            max_entry_bytes: profile.max_entry_bytes,
            queue_capacity: profile.overload_queue_capacity,
        },
        CommitProxyMode::OversizedItemPoison => SubjectBounds {
            transaction_count: 1,
            value_bytes: profile.max_entry_bytes,
            concurrent_requests: 1,
            max_entry_bytes: profile.max_entry_bytes,
            queue_capacity: profile.queue_capacity,
        },
    }
}

/// The bounds a mode runs with: the saturated candidate and the admission
/// knee share the workload and differ in concurrency; the sparse control
/// sends one request at a time; the byte control uses its own sizes; the
/// overload control sends every request at once into its small queue; the
/// oversized poison sends one value as large as an entry.
pub fn subject_bounds(mode: CommitProxyMode, profile: &CommitProxyProfile) -> (bounds: SubjectBounds)
    ensures
        bounds == subject_bounds_spec(mode, *profile),
{
    match mode {
        CommitProxyMode::SaturatedCandidate => SubjectBounds {
            transaction_count: profile.transaction_count,
            value_bytes: profile.value_bytes,
            concurrent_requests: profile.concurrent_clients,
            max_entry_bytes: profile.max_entry_bytes,
            queue_capacity: profile.queue_capacity,
        },
        CommitProxyMode::AdmissionKneeControl => SubjectBounds {
            transaction_count: profile.transaction_count,
            value_bytes: profile.value_bytes,
            concurrent_requests: profile.admission_knee_clients,
            max_entry_bytes: profile.max_entry_bytes,
            queue_capacity: profile.queue_capacity,
        },
        CommitProxyMode::SparseArrivalControl => SubjectBounds {
            transaction_count: profile.sparse_transaction_count,
            value_bytes: profile.value_bytes,
            concurrent_requests: 1,
            max_entry_bytes: profile.max_entry_bytes,
            queue_capacity: profile.queue_capacity,
        },
        CommitProxyMode::ByteBoundControl => SubjectBounds {
            transaction_count: profile.byte_control_transaction_count,
            value_bytes: profile.byte_control_value_bytes,
            concurrent_requests: profile.concurrent_clients,
            max_entry_bytes: profile.byte_control_max_entry_bytes,
            queue_capacity: profile.queue_capacity,
        },
        CommitProxyMode::OverloadControl => SubjectBounds {
            transaction_count: profile.overload_transaction_count,
            value_bytes: profile.value_bytes,
            concurrent_requests: if profile.overload_transaction_count <= usize::MAX as u64 {
                profile.overload_transaction_count as usize
            } else {
                usize::MAX
            },
            max_entry_bytes: profile.max_entry_bytes,
            queue_capacity: profile.overload_queue_capacity,
        },
        CommitProxyMode::OversizedItemPoison => SubjectBounds {
            transaction_count: 1,
            value_bytes: profile.max_entry_bytes,
            concurrent_requests: 1,
            max_entry_bytes: profile.max_entry_bytes,
            queue_capacity: profile.queue_capacity,
        },
    }
}

/// Byte `offset` of the value of request `request_id`: the low byte of
/// `17 * seed + 31 * request_id + 13 * offset`, wrapping.
pub open spec fn value_byte(seed: u64, request_id: u64, offset: u64) -> u8 {
    (seed.wrapping_mul(17).wrapping_add(request_id.wrapping_mul(31)).wrapping_add(offset.wrapping_mul(13))) as u8
}

/// The value of request `request_id`.
pub open spec fn proxy_value(seed: u64, request_id: u64, value_bytes: nat) -> Seq<u8> {
    Seq::new(value_bytes, |i: int| value_byte(seed, request_id, i as u64))
}

/// The deterministic value of one request.
pub fn deterministic_value(seed: u64, request_id: u64, value_bytes: usize) -> (value: Vec<u8>)
    ensures
        value@ == proxy_value(seed, request_id, value_bytes as nat),
{
    let mut value: Vec<u8> = Vec::new();
    let mut offset: usize = 0;
    while offset < value_bytes
        invariant
            offset <= value_bytes,
            value@ == Seq::new(offset as nat, |i: int| value_byte(seed, request_id, i as u64)),
        decreases value_bytes - offset,
    {
        let word = seed.wrapping_mul(17).wrapping_add(request_id.wrapping_mul(31)).wrapping_add((offset as u64).wrapping_mul(13));
        value.push(word as u8);
        offset = offset + 1;
        assert(value@ =~= Seq::new(offset as nat, |i: int| value_byte(seed, request_id, i as u64)));
    }
    value
}

/// The key of request `request_id`: `commit-proxy/`, the seed, `/`, and the
/// request in eight or more digits.
pub open spec fn proxy_key(seed: u64, request_id: u64) -> Seq<u8> {
    "commit-proxy/"@.map_values(|c: char| c as u8) + decimal(seed as nat) + seq![47u8]
        + zero_padded(request_id as nat, 8)
}

fn key_of(seed: u64, request_id: u64) -> (key: Vec<u8>)
    ensures
        key@ == proxy_key(seed, request_id),
{
    let prefix = "commit-proxy/";
    proof {
        reveal_strlit("commit-proxy/");
        vstd::string::is_ascii_spec_bytes(prefix);
    }
    assert(prefix.is_ascii());
    let mut key: Vec<u8> = Vec::new();
    extend_bytes(&mut key, prefix.as_bytes());
    push_decimal(&mut key, seed);
    key.push(47u8);
    push_zero_padded(&mut key, request_id, 8);
    key
}

/// The client of every workload request: the seed, or 1 for seed zero.
pub open spec fn proxy_client(seed: u64) -> u64 {
    if seed >= 1 { seed } else { 1 }
}

/// One item per request `1..=transaction_count`, each writing its own key
/// with its deterministic value, without a credential.
pub fn workload_items(seed: u64, transaction_count: u64, value_bytes: usize) -> (items: Vec<TransactionBatchItem>)
    ensures
        items@.len() == transaction_count,
        forall|i: int| 0 <= i < items@.len() ==> {
            let item = #[trigger] items@[i];
            &&& item.identity == (RequestIdentity { client_id: proxy_client(seed), request_id: (i + 1) as u64 })
            &&& item.credential is None
            &&& single_set_command(
                item.command,
                0,
                Seq::empty(),
                proxy_key(seed, (i + 1) as u64),
                proxy_value(seed, (i + 1) as u64, value_bytes as nat),
            )
        },
{
    let client = if seed >= 1 { seed } else { 1 };
    let mut items: Vec<TransactionBatchItem> = Vec::new();
    let mut request_id: u64 = 0;
    while request_id < transaction_count
        invariant
            request_id <= transaction_count,
            client == proxy_client(seed),
            items@.len() == request_id,
            forall|i: int| 0 <= i < items@.len() ==> {
                let item = #[trigger] items@[i];
                &&& item.identity == (RequestIdentity { client_id: proxy_client(seed), request_id: (i + 1) as u64 })
                &&& item.credential is None
                &&& single_set_command(
                    item.command,
                    0,
                    Seq::empty(),
                    proxy_key(seed, (i + 1) as u64),
                    proxy_value(seed, (i + 1) as u64, value_bytes as nat),
                )
            },
        decreases transaction_count - request_id,
    {
        request_id = request_id + 1;
        let key = key_of(seed, request_id);
        let value = deterministic_value(seed, request_id, value_bytes);
        let command = set_command(0, false, key, value);
        items.push(TransactionBatchItem {
            identity: RequestIdentity { client_id: client, request_id },
            credential: None,
            command,
        });
    }
    items
}

/// Versionstamp order: by commit version, then by batch order.
pub open spec fn stamp_le(a: (u64, u16), b: (u64, u16)) -> bool {
    a.0 < b.0 || (a.0 == b.0 && a.1 <= b.1)
}

pub open spec fn stamps_sorted(s: Seq<(u64, u16)>) -> bool {
    forall|i: int, j: int| 0 <= i < j < s.len() ==> stamp_le(s[i], s[j])
}

/// Sort versionstamps by commit version, then batch order.
pub fn sort_versionstamps(stamps: Vec<(u64, u16)>) -> (sorted: Vec<(u64, u16)>)
    ensures
        stamps_sorted(sorted@),
        sorted@.to_multiset() == stamps@.to_multiset(),
{
    let mut sorted: Vec<(u64, u16)> = Vec::new();
    let mut index: usize = 0;
    proof {
        assert(sorted@ =~= stamps@.take(0));
    }
    while index < stamps.len()
        invariant
            index <= stamps@.len(),
            stamps_sorted(sorted@),
            sorted@.to_multiset() == stamps@.take(index as int).to_multiset(),
        decreases stamps@.len() - index,
    {
        let stamp = stamps[index];
        let mut at: usize = 0;
        while at < sorted.len() && stamp_le_exec(sorted[at], stamp)
            invariant
                at <= sorted@.len(),
                stamps_sorted(sorted@),
                forall|k: int| 0 <= k < at ==> stamp_le(sorted@[k], stamp),
            decreases sorted@.len() - at,
        {
            at = at + 1;
        }
        let ghost before = sorted@;
        sorted.insert(at, stamp);
        proof {
            assert forall|i: int, j: int| 0 <= i < j < sorted@.len() implies stamp_le(sorted@[i], sorted@[j]) by {
                if j < at {
                    assert(sorted@[i] == before[i] && sorted@[j] == before[j]);
                } else if j == at {
                    assert(sorted@[i] == before[i]);
                } else if i == at {
                    assert(sorted@[j] == before[j - 1]);
                    assert(!stamp_le(before[at as int], stamp) || at == before.len());
                    if at < before.len() {
                        assert(stamp_le(before[at as int], before[j - 1]) || at == j - 1);
                    }
                } else if i < at {
                    assert(sorted@[i] == before[i] && sorted@[j] == before[j - 1]);
                } else {
                    assert(sorted@[i] == before[i - 1] && sorted@[j] == before[j - 1]);
                }
            }
            before.to_multiset_ensures();
            sorted@.to_multiset_ensures();
            vstd::seq_lib::to_multiset_insert(before, at as int, stamp);
            assert(stamps@.take(index + 1) =~= stamps@.take(index as int).push(stamp));
            stamps@.take(index as int).to_multiset_ensures();
        }
        index = index + 1;
    }
    assert(stamps@.take(stamps@.len() as int) =~= stamps@);
    sorted
}

fn stamp_le_exec(a: (u64, u16), b: (u64, u16)) -> (le: bool)
    ensures
        le == stamp_le(a, b),
{
    a.0 < b.0 || (a.0 == b.0 && a.1 <= b.1)
}

/// Whether no versionstamp repeats in a sorted sequence: each is strictly
/// below the next.
pub fn stamps_unique(sorted: &[(u64, u16)]) -> (unique: bool)
    ensures
        unique == forall|i: int| 0 <= i < sorted@.len() - 1 ==> #[trigger] sorted@[i] != sorted@[i + 1]
            && stamp_le(sorted@[i], sorted@[i + 1]),
{
    if sorted.len() < 2 {
        return true;
    }
    let mut index: usize = 0;
    while index < sorted.len() - 1
        invariant
            sorted@.len() >= 2,
            forall|i: int| 0 <= i < index && i < sorted@.len() - 1 ==> #[trigger] sorted@[i] != sorted@[i + 1]
                && stamp_le(sorted@[i], sorted@[i + 1]),
        decreases sorted@.len() - index,
    {
        let a = sorted[index];
        let b = sorted[index + 1];
        if !(a.0 < b.0 || (a.0 == b.0 && a.1 < b.1)) {
            return false;
        }
        index = index + 1;
    }
    true
}

/// The number of versionstamps with commit version `version`.
pub open spec fn count_version(stamps: Seq<(u64, u16)>, version: u64) -> nat
    decreases stamps.len(),
{
    if stamps.len() == 0 {
        0
    } else {
        count_version(stamps.drop_last(), version) + if stamps.last().0 == version { 1nat } else { 0nat }
    }
}

/// The number of occurrences of one versionstamp.
pub open spec fn count_stamp(stamps: Seq<(u64, u16)>, stamp: (u64, u16)) -> nat
    decreases stamps.len(),
{
    if stamps.len() == 0 {
        0
    } else {
        count_stamp(stamps.drop_last(), stamp) + if stamps.last() == stamp { 1nat } else { 0nat }
    }
}

/// Within each commit version the batch orders, sorted, are `0, 1, 2, ...`
/// in position, a position at or beyond `u16::MAX` taking `u16::MAX`: an order
/// below `u16::MAX` occurs once and is below the version's count, and
/// `u16::MAX` occurs once for each position from `u16::MAX` on.
pub open spec fn orders_contiguous(stamps: Seq<(u64, u16)>) -> bool {
    forall|i: int| 0 <= i < stamps.len() ==> {
        let count = count_version(stamps, (#[trigger] stamps[i]).0);
        let repeats = count_stamp(stamps, stamps[i]);
        if stamps[i].1 < u16::MAX {
            stamps[i].1 < count && repeats == 1
        } else {
            count > u16::MAX && repeats == count - u16::MAX
        }
    }
}

fn count_version_exec(stamps: &[(u64, u16)], version: u64) -> (count: usize)
    ensures
        count == count_version(stamps@, version),
{
    let mut count: usize = 0;
    let mut index: usize = 0;
    while index < stamps.len()
        invariant
            index <= stamps@.len(),
            count == count_version(stamps@.take(index as int), version),
            count <= index,
        decreases stamps@.len() - index,
    {
        assert(stamps@.take(index + 1).drop_last() =~= stamps@.take(index as int));
        if stamps[index].0 == version {
            count = count + 1;
        }
        index = index + 1;
    }
    assert(stamps@.take(stamps@.len() as int) =~= stamps@);
    count
}

fn count_stamp_exec(stamps: &[(u64, u16)], stamp: (u64, u16)) -> (count: usize)
    ensures
        count == count_stamp(stamps@, stamp),
{
    let mut count: usize = 0;
    let mut index: usize = 0;
    while index < stamps.len()
        invariant
            index <= stamps@.len(),
            count == count_stamp(stamps@.take(index as int), stamp),
            count <= index,
        decreases stamps@.len() - index,
    {
        assert(stamps@.take(index + 1).drop_last() =~= stamps@.take(index as int));
        if stamps[index].0 == stamp.0 && stamps[index].1 == stamp.1 {
            count = count + 1;
        }
        index = index + 1;
    }
    assert(stamps@.take(stamps@.len() as int) =~= stamps@);
    count
}

/// A stamp's batch order is counted among its own version: when the orders
/// are contiguous, every order below `u16::MAX` occurs once and is below the
/// number of stamps that share its commit version (so a version whose only
/// order is 1 is not contiguous, however many stamps other versions hold).
pub proof fn lemma_contiguous_orders_bounded_by_version(stamps: Seq<(u64, u16)>, i: int)
    requires
        orders_contiguous(stamps),
        0 <= i < stamps.len(),
        stamps[i].1 < u16::MAX,
    ensures
        stamps[i].1 < count_version(stamps, stamps[i].0),
        count_stamp(stamps, stamps[i]) == 1,
{
}

proof fn lemma_run_counts(version: u64, m: nat, k: u16)
    requires
        m <= u16::MAX,
    ensures
        count_version(Seq::new(m, |j: int| (version, j as u16)), version) == m,
        count_stamp(Seq::new(m, |j: int| (version, j as u16)), (version, k)) == if (k as nat) < m { 1nat } else { 0nat },
    decreases m,
{
    let run = Seq::new(m, |j: int| (version, j as u16));
    if m > 0 {
        let shorter = Seq::new((m - 1) as nat, |j: int| (version, j as u16));
        assert(run.drop_last() =~= shorter);
        lemma_run_counts(version, (m - 1) as nat, k);
        assert(run.last() == (version, (m - 1) as u16));
    }
}

/// A single commit version whose batch orders are `0, 1, ..., n - 1` (with
/// `n` below `u16::MAX`) is contiguous, in that order.
pub proof fn lemma_run_of_orders_is_contiguous(version: u64, n: nat)
    requires
        n < u16::MAX,
    ensures
        orders_contiguous(Seq::new(n, |j: int| (version, j as u16))),
{
    let run = Seq::new(n, |j: int| (version, j as u16));
    assert forall|i: int| 0 <= i < run.len() implies {
        let count = count_version(run, (#[trigger] run[i]).0);
        let repeats = count_stamp(run, run[i]);
        if run[i].1 < u16::MAX {
            run[i].1 < count && repeats == 1
        } else {
            count > u16::MAX && repeats == count - u16::MAX
        }
    } by {
        lemma_run_counts(version, n, i as u16);
    }
}

/// The positions of the stamps of `version` with an order below `u16::MAX`
/// among the first `n` stamps.
pub open spec fn low_order_positions(stamps: Seq<(u64, u16)>, version: u64, n: int) -> Set<int> {
    Set::new(|i: int| 0 <= i < n && stamps[i].0 == version && stamps[i].1 < u16::MAX)
}

proof fn lemma_low_order_positions(stamps: Seq<(u64, u16)>, version: u64, n: int)
    requires
        0 <= n <= stamps.len(),
    ensures
        low_order_positions(stamps, version, n).finite(),
        low_order_positions(stamps, version, n).len() + count_stamp(stamps.take(n), (version, u16::MAX))
            == count_version(stamps.take(n), version),
    decreases n,
{
    let here = low_order_positions(stamps, version, n);
    if n == 0 {
        assert(here =~= Set::<int>::empty());
    } else {
        lemma_low_order_positions(stamps, version, n - 1);
        let earlier = low_order_positions(stamps, version, n - 1);
        assert(stamps.take(n).drop_last() =~= stamps.take(n - 1));
        assert(stamps.take(n).last() == stamps[n - 1]);
        if stamps[n - 1].0 == version && stamps[n - 1].1 < u16::MAX {
            assert(here =~= earlier.insert(n - 1));
        } else {
            assert(here =~= earlier);
        }
    }
}

proof fn lemma_count_stamp_positions(stamps: Seq<(u64, u16)>, stamp: (u64, u16))
    ensures
        forall|i: int| 0 <= i < stamps.len() && stamps[i] == stamp ==> count_stamp(stamps, stamp) >= 1,
        forall|i: int, j: int|
            0 <= i < j < stamps.len() && stamps[i] == stamp && stamps[j] == stamp ==> count_stamp(stamps, stamp) >= 2,
        count_stamp(stamps, stamp) > 0 ==> exists|i: int| 0 <= i < stamps.len() && stamps[i] == stamp,
    decreases stamps.len(),
{
    if stamps.len() > 0 {
        let earlier = stamps.drop_last();
        lemma_count_stamp_positions(earlier, stamp);
        assert forall|i: int| 0 <= i < stamps.len() && stamps[i] == stamp implies count_stamp(stamps, stamp) >= 1 by {
            if i < earlier.len() {
                assert(earlier[i] == stamps[i]);
            }
        }
        assert forall|i: int, j: int|
            0 <= i < j < stamps.len() && stamps[i] == stamp && stamps[j] == stamp implies count_stamp(stamps, stamp)
            >= 2 by {
            assert(earlier[i] == stamps[i]);
            if j < earlier.len() {
                assert(earlier[j] == stamps[j]);
            }
        }
        if count_stamp(stamps, stamp) > 0 {
            if stamps.last() != stamp {
                let i = choose|i: int| 0 <= i < earlier.len() && earlier[i] == stamp;
                assert(stamps[i] == stamp);
            } else {
                assert(stamps[stamps.len() - 1] == stamp);
            }
        }
    }
}

/// Contiguous batch orders start at zero and have no gaps: when the orders
/// are contiguous, every order below `u16::MAX` that is at most an order some
/// stamp of a version carries is carried by a stamp of that same version.
pub proof fn lemma_contiguous_orders_have_no_gaps(stamps: Seq<(u64, u16)>, i: int, order: u16)
    requires
        orders_contiguous(stamps),
        0 <= i < stamps.len(),
        order <= stamps[i].1,
        order < u16::MAX,
    ensures
        exists|j: int| 0 <= j < stamps.len() && stamps[j] == (stamps[i].0, order),
{
    let version = stamps[i].0;
    let len = stamps.len() as int;
    assert(stamps.take(len) =~= stamps);
    lemma_low_order_positions(stamps, version, len);
    let low = low_order_positions(stamps, version, len);
    let count = count_version(stamps, version);
    let top = count_stamp(stamps, (version, u16::MAX));
    lemma_count_stamp_positions(stamps, (version, u16::MAX));
    // The number of distinct low orders this version must cover.
    let k: int = if count > u16::MAX { u16::MAX as int } else { count as int };
    if top > 0 {
        let t = choose|t: int| 0 <= t < stamps.len() && stamps[t] == (version, u16::MAX);
        assert(count > u16::MAX && top == count - u16::MAX);
    }
    assert(low.len() >= k);
    assert(stamps[i].1 < u16::MAX ==> stamps[i].1 < count);
    assert(order < k);
    let f = |p: int| stamps[p].1 as int;
    let orders = low.map(f);
    assert forall|p: int, q: int| low.contains(p) && low.contains(q) && #[trigger] f(p) == #[trigger] f(q) implies p
        == q by {
        if p != q {
            assert(stamps[p] == stamps[q]);
            lemma_count_stamp_positions(stamps, stamps[p]);
            if p < q {
                assert(count_stamp(stamps, stamps[p]) >= 2);
            } else {
                assert(count_stamp(stamps, stamps[q]) >= 2);
            }
        }
    }
    vstd::set_lib::lemma_map_size(low, orders, f);
    if !orders.contains(order as int) {
        let range = vstd::set_lib::set_int_range(0, k).remove(order as int);
        vstd::set_lib::lemma_int_range(0, k);
        assert(vstd::set_lib::set_int_range(0, k).contains(order as int));
        assert forall|x: int| orders.contains(x) implies range.contains(x) by {
            let p = choose|p: int| low.contains(p) && x == f(p);
            assert(stamps[p].1 < u16::MAX);
            assert(stamps[p].1 < count_version(stamps, stamps[p].0));
        }
        vstd::set_lib::lemma_len_subset(orders, range);
        assert(false);
    }
    let p = choose|p: int| low.contains(p) && order as int == f(p);
    assert(stamps[p] == (version, order));
}

/// Whether the batch orders within each commit version start at zero and
/// have no gaps.
pub fn contiguous_batch_orders(versionstamps: &[(u64, u16)]) -> (contiguous: bool)
    ensures
        contiguous == orders_contiguous(versionstamps@),
        contiguous ==> forall|i: int|
            0 <= i < versionstamps@.len() && (#[trigger] versionstamps@[i]).1 < u16::MAX ==> versionstamps@[i].1
                < count_version(versionstamps@, versionstamps@[i].0),
{
    let mut index: usize = 0;
    while index < versionstamps.len()
        invariant
            index <= versionstamps@.len(),
            forall|i: int| 0 <= i < index ==> {
                let count = count_version(versionstamps@, (#[trigger] versionstamps@[i]).0);
                let repeats = count_stamp(versionstamps@, versionstamps@[i]);
                if versionstamps@[i].1 < u16::MAX {
                    versionstamps@[i].1 < count && repeats == 1
                } else {
                    count > u16::MAX && repeats == count - u16::MAX
                }
            },
        decreases versionstamps@.len() - index,
    {
        let stamp = versionstamps[index];
        let count = count_version_exec(versionstamps, stamp.0);
        let repeats = count_stamp_exec(versionstamps, stamp);
        let holds = if stamp.1 < u16::MAX {
            (stamp.1 as usize) < count && repeats == 1
        } else {
            count > u16::MAX as usize && repeats == count - u16::MAX as usize
        };
        if !holds {
            return false;
        }
        index = index + 1;
    }
    true
}

/// The outcomes of a run's requests, counted by kind.
#[derive(Clone, Copy, Debug, PartialEq, Eq, Structural)]
pub struct OutcomeTally {
    pub resolved: u64,
    pub committed: u64,
    pub conflicts: u64,
    pub backpressure_rejections: u64,
    pub oversized_rejections: u64,
    pub unexpected_errors: u64,
}

pub open spec fn text_bytes(text: Seq<char>) -> Seq<u8> {
    vstd::utf8::encode_utf8(text)
}

pub open spec fn queue_full_text() -> Seq<u8> {
    "queue is full"@.map_values(|c: char| c as u8)
}

pub open spec fn bytes_above_text() -> Seq<u8> {
    "bytes above"@.map_values(|c: char| c as u8)
}

/// The tally of a prefix of the outcomes.
pub open spec fn tally_spec(outcomes: Seq<Result<TransactionApplyResponse, String>>) -> OutcomeTally
    decreases outcomes.len(),
{
    if outcomes.len() == 0 {
        OutcomeTally { resolved: 0, committed: 0, conflicts: 0, backpressure_rejections: 0, oversized_rejections: 0, unexpected_errors: 0 }
    } else {
        let prior = tally_spec(outcomes.drop_last());
        match outcomes.last() {
            Ok(response) => OutcomeTally {
                resolved: (prior.resolved + 1) as u64,
                committed: (prior.committed + if response.status is Committed { 1int } else { 0 }) as u64,
                conflicts: (prior.conflicts + if response.status is Conflict { 1int } else { 0 }) as u64,
                ..prior
            },
            Err(error) => {
                let full = contains_bytes(text_bytes(error@), queue_full_text());
                let above = contains_bytes(text_bytes(error@), bytes_above_text());
                OutcomeTally {
                    backpressure_rejections: (prior.backpressure_rejections + if full { 1int } else { 0 }) as u64,
                    oversized_rejections: (prior.oversized_rejections + if above { 1int } else { 0 }) as u64,
                    unexpected_errors: (prior.unexpected_errors + if !full && !above { 1int } else { 0 }) as u64,
                    ..prior
                }
            },
        }
    }
}

pub open spec fn tally_bounded(t: OutcomeTally, n: nat) -> bool {
    t.resolved <= n && t.committed <= n && t.conflicts <= n && t.backpressure_rejections <= n
        && t.oversized_rejections <= n && t.unexpected_errors <= n
}

proof fn lemma_tally_bounded(outcomes: Seq<Result<TransactionApplyResponse, String>>)
    ensures
        tally_bounded(tally_spec(outcomes), outcomes.len()),
    decreases outcomes.len(),
{
    if outcomes.len() > 0 {
        lemma_tally_bounded(outcomes.drop_last());
    }
}

/// Count the outcomes: resolved answers by status, refusals by whether they
/// report a full queue, an oversized item, or neither.
pub fn tally_outcomes(outcomes: &[Result<TransactionApplyResponse, String>]) -> (tally: OutcomeTally)
    requires
        outcomes@.len() <= u64::MAX,
    ensures
        tally == tally_spec(outcomes@),
{
    let full_text = "queue is full";
    let above_text = "bytes above";
    proof {
        reveal_strlit("queue is full");
        reveal_strlit("bytes above");
        vstd::string::is_ascii_spec_bytes(full_text);
        vstd::string::is_ascii_spec_bytes(above_text);
    }
    assert(full_text.is_ascii() && above_text.is_ascii());
    assert(full_text.spec_bytes() =~= queue_full_text());
    assert(above_text.spec_bytes() =~= bytes_above_text());
    let mut tally = OutcomeTally { resolved: 0, committed: 0, conflicts: 0, backpressure_rejections: 0, oversized_rejections: 0, unexpected_errors: 0 };
    let mut index: usize = 0;
    while index < outcomes.len()
        invariant
            index <= outcomes@.len(),
            outcomes@.len() <= u64::MAX,
            full_text.spec_bytes() == queue_full_text(),
            above_text.spec_bytes() == bytes_above_text(),
            tally == tally_spec(outcomes@.take(index as int)),
        decreases outcomes@.len() - index,
    {
        proof {
            assert(outcomes@.take(index + 1).drop_last() =~= outcomes@.take(index as int));
            lemma_tally_bounded(outcomes@.take(index as int));
        }
        match &outcomes[index] {
            Ok(response) => {
                tally.resolved = tally.resolved + 1;
                if matches!(response.status, TransactionStatus::Committed { .. }) {
                    tally.committed = tally.committed + 1;
                }
                if matches!(response.status, TransactionStatus::Conflict { .. }) {
                    tally.conflicts = tally.conflicts + 1;
                }
            },
            Err(error) => {
                let bytes = error.as_str().as_bytes();
                let full = find_bytes(bytes, full_text.as_bytes());
                let above = find_bytes(bytes, above_text.as_bytes());
                if full {
                    tally.backpressure_rejections = tally.backpressure_rejections + 1;
                }
                if above {
                    tally.oversized_rejections = tally.oversized_rejections + 1;
                }
                if !full && !above {
                    tally.unexpected_errors = tally.unexpected_errors + 1;
                }
            },
        }
        index = index + 1;
    }
    assert(outcomes@.take(outcomes@.len() as int) =~= outcomes@);
    tally
}

/// The versionstamps of the committed answers, in outcome order.
pub open spec fn committed_stamps(outcomes: Seq<Result<TransactionApplyResponse, String>>) -> Seq<(u64, u16)>
    decreases outcomes.len(),
{
    if outcomes.len() == 0 {
        Seq::empty()
    } else {
        let prior = committed_stamps(outcomes.drop_last());
        match outcomes.last() {
            Ok(response) => match response.status {
                TransactionStatus::Committed { commit_version } => prior.push((commit_version, response.batch_order)),
                _ => prior,
            },
            Err(_) => prior,
        }
    }
}

/// The versionstamp of each committed answer, in outcome order.
pub fn committed_versionstamps(outcomes: &[Result<TransactionApplyResponse, String>]) -> (stamps: Vec<(u64, u16)>)
    ensures
        stamps@ == committed_stamps(outcomes@),
{
    let mut stamps: Vec<(u64, u16)> = Vec::new();
    let mut index: usize = 0;
    while index < outcomes.len()
        invariant
            index <= outcomes@.len(),
            stamps@ == committed_stamps(outcomes@.take(index as int)),
        decreases outcomes@.len() - index,
    {
        assert(outcomes@.take(index + 1).drop_last() =~= outcomes@.take(index as int));
        if let Ok(response) = &outcomes[index] {
            if let TransactionStatus::Committed { commit_version } = response.status {
                stamps.push((commit_version, response.batch_order));
            }
        }
        index = index + 1;
    }
    assert(outcomes@.take(outcomes@.len() as int) =~= outcomes@);
    stamps
}

/// The run-level observations of one commit-proxy subject.
#[derive(Clone, Copy, Debug, PartialEq, Eq, Structural)]
pub struct CommitProxyObservations {
    pub authority_processes: u64,
    pub accepted_count: u64,
    pub resolved_count: u64,
    pub unexpected_errors: u64,
    pub backpressure_rejections: u64,
    pub oversized_rejections: u64,
    pub batcher_backpressure_rejections: u64,
    pub batcher_oversized_rejections: u64,
    pub versionstamps_unique: bool,
    pub batch_orders_contiguous: bool,
    pub retained_stream_complete: bool,
    pub replay_matches_authority: bool,
    pub exact_individual_retry: bool,
    pub leader_failover_exact: bool,
    pub restarted_voter_exact: bool,
    pub authority_unchanged: bool,
    pub max_observed_entry_bytes: u64,
    pub max_observed_batch_items: u64,
    pub batches: u64,
    pub delay_bound_closures: u64,
    pub byte_bound_closures: u64,
}

/// Overload is explicit when the overload control saw refusals, the batcher
/// counted the same refusals, and every accepted request was resolved.
pub open spec fn overload_explicit(mode: CommitProxyMode, o: CommitProxyObservations) -> bool {
    !(mode is OverloadControl) || (o.backpressure_rejections > 0
        && o.backpressure_rejections == o.batcher_backpressure_rejections && o.accepted_count == o.resolved_count)
}

/// The oversized item is refused before any mutation: exactly one refusal,
/// counted by the batcher, and the authority state unchanged.
pub open spec fn oversized_refused(mode: CommitProxyMode, o: CommitProxyObservations) -> bool {
    !(mode is OversizedItemPoison) || (o.oversized_rejections == 1 && o.batcher_oversized_rejections == 1
        && o.authority_unchanged)
}

/// What each mode must show of the batcher.
pub open spec fn mode_contract(mode: CommitProxyMode, o: CommitProxyObservations) -> bool {
    match mode {
        CommitProxyMode::SaturatedCandidate | CommitProxyMode::AdmissionKneeControl => o.backpressure_rejections
            == 0 && o.max_observed_batch_items > 1 && o.batches > 0,
        CommitProxyMode::SparseArrivalControl => o.delay_bound_closures > 0 && o.max_observed_batch_items == 1,
        CommitProxyMode::ByteBoundControl => o.byte_bound_closures > 0,
        CommitProxyMode::OverloadControl => overload_explicit(mode, o),
        CommitProxyMode::OversizedItemPoison => oversized_refused(mode, o),
    }
}

/// The judgement of one commit-proxy run.
#[derive(Clone, Copy, Debug, PartialEq, Eq, Structural)]
pub struct CommitProxyVerdict {
    pub overload_was_explicit: bool,
    pub oversized_rejected_before_mutation: bool,
    pub correctness_anomalies: u64,
}


fn overload_was_explicit(mode: CommitProxyMode, o: &CommitProxyObservations) -> (explicit: bool)
    ensures
        explicit == overload_explicit(mode, *o),
{
    !matches!(mode, CommitProxyMode::OverloadControl) || (o.backpressure_rejections > 0
        && o.backpressure_rejections == o.batcher_backpressure_rejections && o.accepted_count == o.resolved_count)
}

fn oversized_rejected_before_mutation(mode: CommitProxyMode, o: &CommitProxyObservations) -> (refused: bool)
    ensures
        refused == oversized_refused(mode, *o),
{
    !matches!(mode, CommitProxyMode::OversizedItemPoison) || (o.oversized_rejections == 1
        && o.batcher_oversized_rejections == 1 && o.authority_unchanged)
}

/// Every request is resolved, except under overload and the oversized poison,
/// where exactly the accepted ones are.
pub open spec fn expected_resolved(mode: CommitProxyMode, bounds: SubjectBounds, o: CommitProxyObservations) -> u64 {
    if mode is OverloadControl || mode is OversizedItemPoison {
        o.accepted_count
    } else {
        bounds.transaction_count
    }
}

fn expected_resolved_count(mode: CommitProxyMode, bounds: &SubjectBounds, o: &CommitProxyObservations) -> (count: u64)
    ensures
        count == expected_resolved(mode, *bounds, *o),
{
    if matches!(mode, CommitProxyMode::OverloadControl | CommitProxyMode::OversizedItemPoison) {
        o.accepted_count
    } else {
        bounds.transaction_count
    }
}

fn mode_contract_holds(mode: CommitProxyMode, o: &CommitProxyObservations) -> (holds: bool)
    ensures
        holds == mode_contract(mode, *o),
{
    match mode {
        CommitProxyMode::SaturatedCandidate | CommitProxyMode::AdmissionKneeControl => o.backpressure_rejections
            == 0 && o.max_observed_batch_items > 1 && o.batches > 0,
        CommitProxyMode::SparseArrivalControl => o.delay_bound_closures > 0 && o.max_observed_batch_items == 1,
        CommitProxyMode::ByteBoundControl => o.byte_bound_closures > 0,
        CommitProxyMode::OverloadControl => overload_was_explicit(mode, o),
        CommitProxyMode::OversizedItemPoison => oversized_rejected_before_mutation(mode, o),
    }
}

/// The failed exactness checks of a run.
pub open spec fn exactness_failures(o: CommitProxyObservations) -> int {
    flag(!o.versionstamps_unique) + flag(!o.batch_orders_contiguous) + flag(!o.retained_stream_complete) + flag(
        !o.replay_matches_authority,
    ) + flag(!o.exact_individual_retry) + flag(!o.leader_failover_exact) + flag(!o.restarted_voter_exact)
}

fn exactness_anomalies(o: &CommitProxyObservations) -> (count: u64)
    ensures
        count == exactness_failures(*o),
{
    count_if(!o.versionstamps_unique) + count_if(!o.batch_orders_contiguous) + count_if(!o.retained_stream_complete)
        + count_if(!o.replay_matches_authority) + count_if(!o.exact_individual_retry) + count_if(
        !o.leader_failover_exact,
    ) + count_if(!o.restarted_voter_exact)
}

/// The anomalies of a run: every unexpected error, plus one for each of
/// three processes not running, a resolved count other than expected (every
/// request, or every accepted one under overload and the oversized poison),
/// each failed exactness check, entries above the subject's byte bound, and
/// a mode contract that does not hold.
pub fn proxy_verdict(mode: CommitProxyMode, bounds: &SubjectBounds, o: &CommitProxyObservations) -> (verdict: CommitProxyVerdict)
    requires
        o.unexpected_errors + 11 <= u64::MAX,
    ensures
        verdict.overload_was_explicit == overload_explicit(mode, *o),
        verdict.oversized_rejected_before_mutation == oversized_refused(mode, *o),
        verdict.correctness_anomalies == o.unexpected_errors + flag(o.authority_processes != 3) + flag(o.resolved_count != expected_resolved(mode, *bounds, *o)) + exactness_failures(*o) + flag(o.max_observed_entry_bytes > bounds.max_entry_bytes as u64)
            + flag(!mode_contract(mode, *o)),
{
    let overload_was_explicit = overload_was_explicit(mode, o);
    let oversized_rejected_before_mutation = oversized_rejected_before_mutation(mode, o);
    let expected_resolved = expected_resolved_count(mode, bounds, o);
    let contract = mode_contract_holds(mode, o);
    let exactness = exactness_anomalies(o);
    let bounded = count_if(o.max_observed_entry_bytes > bounds.max_entry_bytes as u64);
    let anomalies = o.unexpected_errors + count_if(o.authority_processes != 3) + count_if(
        o.resolved_count != expected_resolved,
    ) + exactness + bounded + count_if(!contract);
    CommitProxyVerdict { overload_was_explicit, oversized_rejected_before_mutation, correctness_anomalies: anomalies }
}

/// The batcher bounds of one subject: the profile's batch size and delay,
/// and the subject's entry and queue bounds. A valid profile's bounds are
/// accepted by the batcher.
pub fn batcher_config(mode: CommitProxyMode, profile: &CommitProxyProfile) -> (config: TransactionBatcherConfig)
    ensures
        config.max_items == profile.max_batch_items,
        config.max_entry_bytes == subject_bounds_spec(mode, *profile).max_entry_bytes,
        duration_is_zero(config.max_delay) == (profile.max_batch_delay_micros == 0),
        config.queue_capacity == subject_bounds_spec(mode, *profile).queue_capacity,
        profile.valid() ==> config.accepted(),
{
    let subject = subject_bounds(mode, profile);
    TransactionBatcherConfig {
        max_items: profile.max_batch_items,
        max_entry_bytes: subject.max_entry_bytes,
        max_delay: delay_from_micros(profile.max_batch_delay_micros),
        queue_capacity: subject.queue_capacity,
    }
}

} // verus!
