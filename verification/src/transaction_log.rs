//! Transaction-log client policy: batcher bounds, endpoint rotation, batch
//! admission and closure decisions, and acknowledgement decoding.

use crate::codec::{append_text, ascii_text, decimal, decimal_text};
use crate::comparison::plain_debug_char;
use crate::mvcc_gc_authority::{PublicationAuthorityPosition, PublicationObjectReference};
use crate::transaction::{
    GenerationCredential, TransactionApplyResponse, TransactionBatchApplyResponse, TransactionBatchItem, TransactionStatus,
};
use std::time::Duration;
use vstd::prelude::*;

verus! {

/// Largest page of retained records one read may request.
pub const MAX_RETAINED_TRANSACTION_PAGE_RECORDS: u32 = 4_096;

/// Largest number of items in one transaction-batch entry.
pub const MAX_BATCH_ITEMS: usize = 32;

/// Whether `Duration::is_zero` holds for a delay.
pub uninterp spec fn duration_is_zero(delay: Duration) -> bool;

/// `Duration::is_zero`: whether the duration spans no time. The contract names
/// the result for the given duration.
#[verifier::external_body]
fn delay_is_zero(delay: Duration) -> (zero: bool)
    ensures
        zero == duration_is_zero(delay),
{
    delay.is_zero()
}

/// Bounded commit-proxy policy for forming transaction-batch entries from
/// independent client requests.
#[derive(Clone, Copy, Debug, PartialEq, Eq)]
pub struct TransactionBatcherConfig {
    pub max_items: usize,
    pub max_entry_bytes: usize,
    pub max_delay: Duration,
    pub queue_capacity: usize,
}

/// `Duration::from_micros`: a delay of `micros` microseconds. The contract
/// states that the delay spans no time exactly when `micros` is zero; its
/// length is otherwise not described.
#[verifier::external_body]
pub(crate) fn delay_from_micros(micros: u64) -> (delay: Duration)
    ensures
        duration_is_zero(delay) == (micros == 0),
{
    Duration::from_micros(micros)
}

impl TransactionBatcherConfig {
    /// One batch holds 1 to 32 items, entries may hold bytes, the delay is
    /// positive, and the queue holds a full batch.
    pub open spec fn accepted(self) -> bool {
        &&& 1 <= self.max_items <= 32
        &&& self.max_entry_bytes > 0
        &&& !duration_is_zero(self.max_delay)
        &&& self.queue_capacity >= self.max_items
    }

    /// Accept the bounds exactly when they are `accepted`. The first violated
    /// bound, in that order, names the error.
    pub fn validate(self) -> (result: Result<Self, String>)
        ensures
            result is Ok <==> self.accepted(),
            result matches Ok(config) ==> config == self,
            !(1 <= self.max_items <= 32) ==> (result matches Err(e)
                && e@ == "transaction batcher max_items must be between 1 and 32"@),
            1 <= self.max_items <= 32 && self.max_entry_bytes == 0 ==> (result matches Err(e)
                && e@ == "transaction batcher max_entry_bytes must be positive"@),
            1 <= self.max_items <= 32 && self.max_entry_bytes > 0 && duration_is_zero(self.max_delay) ==> (
            result matches Err(e) && e@ == "transaction batcher max_delay must be positive"@),
            1 <= self.max_items <= 32 && self.max_entry_bytes > 0 && !duration_is_zero(self.max_delay)
                && self.queue_capacity < self.max_items ==> (result matches Err(e)
                && e@ == "transaction batcher queue_capacity must be at least max_items"@),
    {
        if self.max_items == 0 || self.max_items > 32 {
            return Err("transaction batcher max_items must be between 1 and 32".to_owned());
        }
        if self.max_entry_bytes == 0 {
            return Err("transaction batcher max_entry_bytes must be positive".to_owned());
        }
        if delay_is_zero(self.max_delay) {
            return Err("transaction batcher max_delay must be positive".to_owned());
        }
        if self.queue_capacity < self.max_items {
            return Err("transaction batcher queue_capacity must be at least max_items".to_owned());
        }
        Ok(self)
    }
}

/// Cumulative commit-proxy observations. These counters are diagnostic and do
/// not participate in acknowledgement or recovery.
#[derive(Clone, Copy, Debug, Default, PartialEq, Eq, Structural)]
pub struct TransactionBatcherStats {
    pub accepted_items: u64,
    pub backpressure_rejections: u64,
    pub oversized_rejections: u64,
    pub batches: u64,
    pub resolved_items: u64,
    pub failed_batches: u64,
    pub item_bound_closures: u64,
    pub byte_bound_closures: u64,
    pub delay_bound_closures: u64,
    pub credential_bound_closures: u64,
    pub sender_closed_closures: u64,
    pub max_observed_batch_items: u64,
    pub max_observed_entry_bytes: u64,
}

/// One monotonic exact-retry cutoff for a stable transaction client.
#[derive(Clone, Copy, Debug, PartialEq, Eq, PartialOrd, Ord, Structural)]
pub struct TransactionRetryFloor {
    pub client_id: u64,
    pub through_request_id: u64,
}

/// Replicated advancement of the resolver and transaction-retry frontiers.
#[derive(Clone, Debug, PartialEq, Eq)]
pub struct TransactionFrontierAdvance {
    pub sequence: u64,
    pub conflict_retention_floor: u64,
    pub retry_floors: Vec<TransactionRetryFloor>,
}

/// Exact response retained for the latest split-frontier command.
#[derive(Clone, Debug, PartialEq, Eq)]
pub struct TransactionFrontierApplyResponse {
    pub applied_log_index: u64,
    pub sequence: u64,
    pub conflict_retention_floor: u64,
    pub retry_floors: Vec<TransactionRetryFloor>,
    pub pruned_conflict_versions: u64,
    pub pruned_retry_outcomes: u64,
}

/// One frozen, paginated read from the retained transaction stream.
#[derive(Clone, Copy, Debug, PartialEq, Eq, Structural)]
pub struct RetainedTransactionReadRequest {
    pub after_version_exclusive: u64,
    pub after_batch_order_exclusive: Option<u16>,
    pub through_version_inclusive: Option<u64>,
    pub max_records: u32,
}

/// Non-mutating request for exact state-machine storage accounting.
#[derive(Clone, Copy, Debug, Default, PartialEq, Eq, Structural)]
pub struct TransactionLogStorageStatsRequest {
    pub projected_retention_floor: Option<u64>,
}

/// Exact serialized state accounting used by the bounded-state falsifier.
#[derive(Clone, Copy, Debug, PartialEq, Eq, Structural)]
pub struct TransactionLogStorageStats {
    pub format_version: u32,
    pub high_watermark: u64,
    pub retention_floor: u64,
    pub projected_retention_floor: u64,
    pub conflict_retention_floor: u64,
    pub retry_clients: u64,
    pub live_keys: u64,
    pub retained_conflict_versions: u64,
    pub durable_outcomes: u64,
    pub request_fingerprints: u64,
    pub transaction_retry_outcomes: u64,
    pub transaction_retry_fingerprints: u64,
    pub retained_records: u64,
    pub projected_retained_records: u64,
    pub snapshot_bytes: u64,
    pub projected_snapshot_bytes: u64,
    pub transaction_authority_bytes: u64,
    pub serving_state_bytes: u64,
    pub resolver_state_bytes: u64,
    pub transaction_retry_state_bytes: u64,
    pub transaction_frontier_state_bytes: u64,
    pub retained_transactions_bytes: u64,
    pub projected_retained_transactions_bytes: u64,
    pub durable_outcomes_bytes: u64,
    pub request_fingerprints_bytes: u64,
}

/// One `name: value` entry of a derived `Debug` rendering.
pub open spec fn field_text(field: (Seq<char>, u64)) -> Seq<char> {
    field.0 + ": "@ + ascii_text(decimal(field.1 as nat))
}

/// The entries, separated by `, `.
pub open spec fn fields_text(fields: Seq<(Seq<char>, u64)>) -> Seq<char>
    decreases fields.len(),
{
    if fields.len() == 0 {
        Seq::empty()
    } else if fields.len() == 1 {
        field_text(fields[0])
    } else {
        fields_text(fields.drop_last()) + ", "@ + field_text(fields.last())
    }
}

/// The fields of the storage accounting, in declaration order.
pub open spec fn stats_fields(stats: TransactionLogStorageStats) -> Seq<(Seq<char>, u64)> {
    seq![
        ("format_version"@, stats.format_version as u64),
        ("high_watermark"@, stats.high_watermark),
        ("retention_floor"@, stats.retention_floor),
        ("projected_retention_floor"@, stats.projected_retention_floor),
        ("conflict_retention_floor"@, stats.conflict_retention_floor),
        ("retry_clients"@, stats.retry_clients),
        ("live_keys"@, stats.live_keys),
        ("retained_conflict_versions"@, stats.retained_conflict_versions),
        ("durable_outcomes"@, stats.durable_outcomes),
        ("request_fingerprints"@, stats.request_fingerprints),
        ("transaction_retry_outcomes"@, stats.transaction_retry_outcomes),
        ("transaction_retry_fingerprints"@, stats.transaction_retry_fingerprints),
        ("retained_records"@, stats.retained_records),
        ("projected_retained_records"@, stats.projected_retained_records),
        ("snapshot_bytes"@, stats.snapshot_bytes),
        ("projected_snapshot_bytes"@, stats.projected_snapshot_bytes),
        ("transaction_authority_bytes"@, stats.transaction_authority_bytes),
        ("serving_state_bytes"@, stats.serving_state_bytes),
        ("resolver_state_bytes"@, stats.resolver_state_bytes),
        ("transaction_retry_state_bytes"@, stats.transaction_retry_state_bytes),
        ("transaction_frontier_state_bytes"@, stats.transaction_frontier_state_bytes),
        ("retained_transactions_bytes"@, stats.retained_transactions_bytes),
        ("projected_retained_transactions_bytes"@, stats.projected_retained_transactions_bytes),
        ("durable_outcomes_bytes"@, stats.durable_outcomes_bytes),
        ("request_fingerprints_bytes"@, stats.request_fingerprints_bytes),
    ]
}

/// The derived `Debug` rendering of the storage accounting.
pub open spec fn storage_stats_debug(stats: TransactionLogStorageStats) -> Seq<char> {
    "TransactionLogStorageStats { "@ + fields_text(stats_fields(stats)) + " }"@
}

impl TransactionLogStorageStats {
    /// The accounting as `format!("{:?}", ..)` renders it.
    pub fn debug_text(&self) -> (text: String)
        ensures
            text@ == storage_stats_debug(*self),
    {
        let names: [&str; 25] = [
            "format_version",
            "high_watermark",
            "retention_floor",
            "projected_retention_floor",
            "conflict_retention_floor",
            "retry_clients",
            "live_keys",
            "retained_conflict_versions",
            "durable_outcomes",
            "request_fingerprints",
            "transaction_retry_outcomes",
            "transaction_retry_fingerprints",
            "retained_records",
            "projected_retained_records",
            "snapshot_bytes",
            "projected_snapshot_bytes",
            "transaction_authority_bytes",
            "serving_state_bytes",
            "resolver_state_bytes",
            "transaction_retry_state_bytes",
            "transaction_frontier_state_bytes",
            "retained_transactions_bytes",
            "projected_retained_transactions_bytes",
            "durable_outcomes_bytes",
            "request_fingerprints_bytes",
        ];
        let values: [u64; 25] = [
            self.format_version as u64,
            self.high_watermark,
            self.retention_floor,
            self.projected_retention_floor,
            self.conflict_retention_floor,
            self.retry_clients,
            self.live_keys,
            self.retained_conflict_versions,
            self.durable_outcomes,
            self.request_fingerprints,
            self.transaction_retry_outcomes,
            self.transaction_retry_fingerprints,
            self.retained_records,
            self.projected_retained_records,
            self.snapshot_bytes,
            self.projected_snapshot_bytes,
            self.transaction_authority_bytes,
            self.serving_state_bytes,
            self.resolver_state_bytes,
            self.transaction_retry_state_bytes,
            self.transaction_frontier_state_bytes,
            self.retained_transactions_bytes,
            self.projected_retained_transactions_bytes,
            self.durable_outcomes_bytes,
            self.request_fingerprints_bytes,
        ];
        let ghost fields = stats_fields(*self);
        assert(forall|i: int| 0 <= i < 25 ==> names@[i]@ == fields[i].0 && values@[i] == fields[i].1);
        let mut text = "TransactionLogStorageStats { ".to_owned();
        let ghost start = text@;
        let mut index: usize = 0;
        while index < 25
            invariant
                index <= 25,
                fields.len() == 25,
                forall|i: int| 0 <= i < 25 ==> names@[i]@ == fields[i].0 && values@[i] == fields[i].1,
                text@ == start + fields_text(fields.take(index as int)),
            decreases 25 - index,
        {
            assert(fields.take(index + 1).drop_last() =~= fields.take(index as int));
            if index > 0 {
                append_text(&mut text, ", ");
            } else {
                assert(fields.take(0) =~= Seq::<(Seq<char>, u64)>::empty());
            }
            append_text(&mut text, names[index]);
            append_text(&mut text, ": ");
            let number = decimal_text(values[index]);
            append_text(&mut text, number.as_str());
            proof {
                let last = fields.take(index + 1).last();
                assert(last == fields[index as int]);
                if index == 0 {
                    assert(fields_text(fields.take(1)) == field_text(fields.take(1)[0]));
                }
            }
            index = index + 1;
        }
        assert(fields.take(25) =~= fields);
        append_text(&mut text, " }");
        text
    }
}

/// Client for committed transactions and the authority-owned recovery stream.
#[derive(Clone, Debug)]
pub struct TransactionLogClient {
    endpoints: Vec<String>,
}

impl TransactionLogClient {
    /// The endpoints, in rotation order.
    pub closed spec fn endpoints(&self) -> Seq<Seq<char>> {
        self.endpoints@.map_values(|e: String| e@)
    }

    /// Create a client over one bounded data-authority endpoint set: at least
    /// one endpoint, none of them empty.
    pub fn new(endpoints: Vec<String>) -> (result: Result<Self, String>)
        ensures
            result is Ok <==> endpoints@.len() > 0 && forall|i: int|
                0 <= i < endpoints@.len() ==> (#[trigger] endpoints@[i])@.len() > 0,
            result matches Ok(client) ==> client.endpoints() == endpoints@.map_values(|e: String| e@),
            result matches Err(e) ==> e@ == "transaction-log client requires non-empty data endpoints"@,
    {
        let mut any_empty = false;
        let mut index: usize = 0;
        while index < endpoints.len()
            invariant
                index <= endpoints@.len(),
                any_empty == exists|i: int| 0 <= i < index && (#[trigger] endpoints@[i])@.len() == 0,
            decreases endpoints@.len() - index,
        {
            if endpoints[index].as_str().is_empty() {
                any_empty = true;
            }
            index = index + 1;
        }
        if endpoints.len() == 0 || any_empty {
            return Err("transaction-log client requires non-empty data endpoints".to_owned());
        }
        Ok(TransactionLogClient { endpoints })
    }

    /// The endpoint tried on one retry attempt: attempts rotate through the
    /// endpoints in order.
    pub fn endpoint(&self, attempt: usize) -> (endpoint: &str)
        requires
            self.endpoints().len() > 0,
        ensures
            endpoint@ == self.endpoints()[(attempt as nat % self.endpoints().len()) as int],
    {
        let index = attempt % self.endpoints.len();
        self.endpoints[index].as_str()
    }
}

/// The transaction-log client rotates fairly: every endpoint is the target of
/// exactly the attempts congruent to its position, so consecutive attempts
/// never skip an endpoint.
pub proof fn lemma_endpoint_rotation(endpoints: Seq<Seq<char>>, attempt: nat)
    requires
        endpoints.len() > 0,
    ensures
        endpoints[((attempt + endpoints.len()) % endpoints.len()) as int] == endpoints[(attempt
            % endpoints.len()) as int],
        (attempt % endpoints.len() + 1) % endpoints.len() == (attempt + 1) % endpoints.len(),
{
    vstd::arithmetic::div_mod::lemma_mod_add_multiples_vanish(attempt as int, endpoints.len() as int);
    vstd::arithmetic::div_mod::lemma_add_mod_noop(attempt as int, 1, endpoints.len() as int);
    if endpoints.len() > 1 {
        vstd::arithmetic::div_mod::lemma_small_mod(1, endpoints.len());
    } else {
        assert(1nat % 1nat == 0);
        assert(((attempt % 1nat) + 1) % 1nat == 0);
        assert((attempt + 1) % 1nat == 0);
    }
}


/// One object closure made authoritative for a generation: the root it was
/// published under, its manifest, the version it covers, and where the
/// publication authority prepared it.
#[derive(Clone, Debug, PartialEq, Eq)]
pub struct ObjectFrontierRecord {
    pub owner_generation: u64,
    pub source_root: String,
    pub manifest: PublicationObjectReference,
    pub covered_through: u64,
    pub prepared_at: PublicationAuthorityPosition,
}

/// Generation-bound request to make one object closure authoritative through
/// its covered version and pop the recovery stream below it.
#[derive(Clone, Debug, PartialEq, Eq)]
pub struct ObjectFrontierAdvance {
    pub frontier: ObjectFrontierRecord,
}

/// Where in the data log an object-frontier command applied.
#[derive(Clone, Copy, Debug, PartialEq, Eq, Structural)]
pub struct ObjectFrontierLogPosition {
    pub term: u64,
    pub index: u64,
}

/// Exact response retained for the latest physical object-frontier apply.
#[derive(Clone, Debug, PartialEq, Eq)]
pub struct ObjectFrontierApplyResponse {
    pub applied_log_position: ObjectFrontierLogPosition,
    pub frontier: ObjectFrontierRecord,
    pub prior_retention_floor: u64,
    pub retention_floor: u64,
    pub popped_records: u64,
}

/// The state-machine answer carried by one write acknowledgement.
#[derive(Clone, Debug, PartialEq, Eq)]
pub struct ApplyResponse {
    pub transaction: Option<TransactionApplyResponse>,
    pub transaction_batch: Option<TransactionBatchApplyResponse>,
    pub transaction_frontier: Option<TransactionFrontierApplyResponse>,
    pub object_frontier: Option<ObjectFrontierApplyResponse>,
}

/// Acknowledgement of one client write.
#[derive(Clone, Debug, PartialEq, Eq)]
pub struct WriteAck {
    pub committed: bool,
    pub response: Option<ApplyResponse>,
}

/// The `Debug` text of a string, as `format!("{:?}", ..)` writes it.
pub uninterp spec fn text_debug_text(text: Seq<char>) -> Seq<char>;

/// `<str as Debug>::fmt` through `format!`. The contract names the result
/// and states that text made of plain printable ASCII is written between
/// double quotes unchanged; how other characters are escaped is left unsaid.
#[verifier::external_body]
pub(crate) fn text_debug(text: &str) -> (rendered: String)
    ensures
        rendered@ == text_debug_text(text@),
        (forall|i: int| 0 <= i < text@.len() ==> plain_debug_char(#[trigger] text@[i])) ==> rendered@ == "\""@
            + text@ + "\""@,
{
    format!("{:?}", text)
}

/// The error for a rejected transaction: the rejection rendered as its
/// `Debug` text, `Rejected { reason: .. }`.
pub open spec fn rejection_text(reason: Seq<char>) -> Seq<char> {
    "transaction was rejected: Rejected { reason: "@ + text_debug_text(reason) + " }"@
}

/// Decode the transaction answer of a quorum-committed acknowledgement; a
/// rejected transaction is an error.
pub fn transaction_response(ack: WriteAck) -> (result: Result<TransactionApplyResponse, String>)
    ensures
        !ack.committed ==> (result matches Err(e) && e@ == "transaction command was not quorum committed"@),
        ack.committed ==> match ack.response {
            Some(ApplyResponse { transaction: Some(response), .. }) => match response.status {
                TransactionStatus::Rejected { reason } => result matches Err(e) && e@ == rejection_text(reason@),
                _ => result == Ok::<TransactionApplyResponse, String>(response),
            },
            _ => result matches Err(e) && e@ == "transaction response is absent"@,
        },
{
    if !ack.committed {
        return Err("transaction command was not quorum committed".to_owned());
    }
    let response = match ack.response {
        Some(answer) => match answer.transaction {
            Some(response) => response,
            None => {
                return Err("transaction response is absent".to_owned());
            },
        },
        None => {
            return Err("transaction response is absent".to_owned());
        },
    };
    if let TransactionStatus::Rejected { reason } = &response.status {
        let mut message = "transaction was rejected: Rejected { reason: ".to_owned();
        let rendered = text_debug(reason.as_str());
        append_text(&mut message, rendered.as_str());
        append_text(&mut message, " }");
        return Err(message);
    }
    Ok(response)
}

/// Decode the batch answer of a quorum-committed acknowledgement.
pub fn transaction_batch_response(ack: WriteAck) -> (result: Result<TransactionBatchApplyResponse, String>)
    ensures
        !ack.committed ==> (result matches Err(e) && e@ == "transaction batch was not quorum committed"@),
        ack.committed ==> match ack.response {
            Some(ApplyResponse { transaction_batch: Some(batch), .. }) => result == Ok::<
                TransactionBatchApplyResponse,
                String,
            >(batch),
            _ => result matches Err(e) && e@ == "transaction batch response is absent"@,
        },
{
    if !ack.committed {
        return Err("transaction batch was not quorum committed".to_owned());
    }
    match ack.response {
        Some(response) => match response.transaction_batch {
            Some(batch) => Ok(batch),
            None => Err("transaction batch response is absent".to_owned()),
        },
        None => Err("transaction batch response is absent".to_owned()),
    }
}

/// Decode the frontier answer of a quorum-committed acknowledgement.
pub fn frontier_response(ack: WriteAck) -> (result: Result<TransactionFrontierApplyResponse, String>)
    ensures
        !ack.committed ==> (result matches Err(e) && e@ == "transaction frontier command was not quorum committed"@),
        ack.committed ==> match ack.response {
            Some(ApplyResponse { transaction_frontier: Some(frontier), .. }) => result == Ok::<
                TransactionFrontierApplyResponse,
                String,
            >(frontier),
            _ => result matches Err(e) && e@ == "transaction frontier response is absent"@,
        },
{
    if !ack.committed {
        return Err("transaction frontier command was not quorum committed".to_owned());
    }
    match ack.response {
        Some(response) => match response.transaction_frontier {
            Some(frontier) => Ok(frontier),
            None => Err("transaction frontier response is absent".to_owned()),
        },
        None => Err("transaction frontier response is absent".to_owned()),
    }
}

/// Decode the object-frontier answer of a quorum-committed acknowledgement.
pub fn object_frontier_response(ack: WriteAck) -> (result: Result<ObjectFrontierApplyResponse, String>)
    ensures
        !ack.committed ==> (result matches Err(e) && e@ == "object frontier command was not quorum committed"@),
        ack.committed ==> match ack.response {
            Some(ApplyResponse { object_frontier: Some(frontier), .. }) => result == Ok::<
                ObjectFrontierApplyResponse,
                String,
            >(frontier),
            _ => result matches Err(e) && e@ == "object frontier response is absent"@,
        },
{
    if !ack.committed {
        return Err("object frontier command was not quorum committed".to_owned());
    }
    match ack.response {
        Some(response) => match response.object_frontier {
            Some(frontier) => Ok(frontier),
            None => Err("object frontier response is absent".to_owned()),
        },
        None => Err("object frontier response is absent".to_owned()),
    }
}

/// Two optional credentials name the same generation and system.
pub open spec fn same_credential(a: Option<GenerationCredential>, b: Option<GenerationCredential>) -> bool {
    match (a, b) {
        (None, None) => true,
        (Some(x), Some(y)) => x.generation == y.generation && x.transaction_system_id@ == y.transaction_system_id@,
        _ => false,
    }
}

/// Compare two optional credentials.
pub fn credentials_match(a: &Option<GenerationCredential>, b: &Option<GenerationCredential>) -> (same: bool)
    ensures
        same == same_credential(*a, *b),
{
    match (a, b) {
        (None, None) => true,
        (Some(x), Some(y)) => x.generation == y.generation && x.transaction_system_id == y.transaction_system_id,
        _ => false,
    }
}

/// Admission rule of one batch entry: 1 to 32 items, all under one credential.
pub fn check_batch_items(items: &[TransactionBatchItem]) -> (result: Result<(), String>)
    ensures
        items@.len() == 0 || items@.len() > 32 ==> (result matches Err(e)
            && e@ == "transaction batch must contain between 1 and 32 items"@),
        1 <= items@.len() <= 32 ==> (result is Ok <==> forall|i: int|
            0 <= i < items@.len() ==> same_credential(#[trigger] items@[i].credential, items@[0].credential)),
        1 <= items@.len() <= 32 && result is Err ==> (result matches Err(e)
            && e@ == "transaction batch items must use one generation credential"@),
{
    if items.len() == 0 || items.len() > 32 {
        return Err("transaction batch must contain between 1 and 32 items".to_owned());
    }
    let mut index: usize = 0;
    while index < items.len()
        invariant
            1 <= items@.len() <= 32,
            index <= items@.len(),
            forall|i: int| 0 <= i < index ==> same_credential(#[trigger] items@[i].credential, items@[0].credential),
        decreases items@.len() - index,
    {
        if !credentials_match(&items[index].credential, &items[0].credential) {
            return Err("transaction batch items must use one generation credential".to_owned());
        }
        index = index + 1;
    }
    Ok(())
}

/// Why the batcher closed the batch it was forming.
#[derive(Clone, Copy, Debug, PartialEq, Eq, Structural)]
pub enum BatchClosure {
    ItemBound,
    DelayBound,
    SenderClosed,
    CredentialBound,
    ByteBound,
}

/// What the batcher does with its forming batch at one step.
#[derive(Clone, Copy, Debug, PartialEq, Eq, Structural)]
pub enum BatchStep {
    /// Close the batch; with `carry`, the arriving request opens the next one.
    Close { closure: BatchClosure, carry: bool },
    /// Add the arriving request to the batch.
    Admit,
    /// Answer the arriving request with its encoding error and keep forming.
    RejectEncoding,
}

/// What happened while the batcher waited for the next request.
#[derive(Clone, Copy, Debug, PartialEq, Eq, Structural)]
pub enum BatchEvent {
    /// The delay bound expired first.
    DelayExpired,
    /// Every sender is gone.
    SenderClosed,
    /// A request arrived; `same_credential` compares it with the batch's first
    /// request, and `candidate_bytes` is the exact entry size of the batch with
    /// it appended (`None` when the entry cannot be encoded).
    Arrived { same_credential: bool, candidate_bytes: Option<usize> },
}

/// One decision of the batching loop, given the batch size reached so far.
pub open spec fn batch_step_spec(config: TransactionBatcherConfig, pending: usize, event: BatchEvent) -> BatchStep {
    if pending >= config.max_items {
        BatchStep::Close { closure: BatchClosure::ItemBound, carry: false }
    } else {
        match event {
            BatchEvent::DelayExpired => BatchStep::Close { closure: BatchClosure::DelayBound, carry: false },
            BatchEvent::SenderClosed => BatchStep::Close { closure: BatchClosure::SenderClosed, carry: false },
            BatchEvent::Arrived { same_credential, candidate_bytes } => if !same_credential {
                BatchStep::Close { closure: BatchClosure::CredentialBound, carry: true }
            } else {
                match candidate_bytes {
                    Some(bytes) => if bytes <= config.max_entry_bytes {
                        BatchStep::Admit
                    } else {
                        BatchStep::Close { closure: BatchClosure::ByteBound, carry: true }
                    },
                    None => BatchStep::RejectEncoding,
                }
            },
        }
    }
}

/// Decide the batcher's next step: the item bound closes first, then the
/// delay or a closed channel, then a credential change or the byte bound
/// carries the arriving request into the next batch.
pub fn batch_step(config: &TransactionBatcherConfig, pending: usize, event: BatchEvent) -> (step: BatchStep)
    ensures
        step == batch_step_spec(*config, pending, event),
{
    if pending >= config.max_items {
        return BatchStep::Close { closure: BatchClosure::ItemBound, carry: false };
    }
    match event {
        BatchEvent::DelayExpired => BatchStep::Close { closure: BatchClosure::DelayBound, carry: false },
        BatchEvent::SenderClosed => BatchStep::Close { closure: BatchClosure::SenderClosed, carry: false },
        BatchEvent::Arrived { same_credential, candidate_bytes } => {
            if !same_credential {
                BatchStep::Close { closure: BatchClosure::CredentialBound, carry: true }
            } else {
                match candidate_bytes {
                    Some(bytes) => if bytes <= config.max_entry_bytes {
                        BatchStep::Admit
                    } else {
                        BatchStep::Close { closure: BatchClosure::ByteBound, carry: true }
                    },
                    None => BatchStep::RejectEncoding,
                }
            }
        },
    }
}

/// Batch-size law: starting from one request, a batch admitted step by step
/// under `batch_step` never exceeds `max_items`, and every admitted batch fits
/// `max_entry_bytes`.
pub proof fn lemma_batch_step_bounds(config: TransactionBatcherConfig, pending: usize, event: BatchEvent)
    requires
        1 <= pending,
    ensures
        batch_step_spec(config, pending, event) == BatchStep::Admit ==> pending + 1 <= config.max_items,
        batch_step_spec(config, pending, event) == BatchStep::Admit ==> (event matches BatchEvent::Arrived {
            candidate_bytes: Some(bytes),
            same_credential: true,
        } && bytes <= config.max_entry_bytes),
{
}

/// Admission of one request before it is queued: an entry holding only this
/// request must fit `max_entry_bytes`.
pub fn admit_request(config: &TransactionBatcherConfig, one_item_bytes: usize) -> (admitted: bool)
    ensures
        admitted == (one_item_bytes <= config.max_entry_bytes),
{
    one_item_bytes <= config.max_entry_bytes
}


/// The magic bytes `OKVF1` that open an encoded split-frontier command.
pub open spec fn frontier_magic() -> Seq<u8> {
    seq![0x4fu8, 0x4bu8, 0x56u8, 0x46u8, 0x31u8]
}

/// The magic bytes `OKVO1` that open an encoded object-frontier command.
pub open spec fn object_frontier_magic() -> Seq<u8> {
    seq![0x4fu8, 0x4bu8, 0x56u8, 0x4fu8, 0x31u8]
}

/// The body of `bytes` after `magic`, when `bytes` opens with `magic`.
pub open spec fn strip_magic(magic: Seq<u8>, bytes: Seq<u8>) -> Option<Seq<u8>> {
    if magic.len() <= bytes.len() && bytes.subrange(0, magic.len() as int) == magic {
        Some(bytes.subrange(magic.len() as int, bytes.len() as int))
    } else {
        None
    }
}

fn frontier_magic_bytes() -> (magic: Vec<u8>)
    ensures
        magic@ == frontier_magic(),
{
    let magic: Vec<u8> = vec![0x4fu8, 0x4bu8, 0x56u8, 0x46u8, 0x31u8];
    assert(magic@ =~= frontier_magic());
    magic
}

fn object_frontier_magic_bytes() -> (magic: Vec<u8>)
    ensures
        magic@ == object_frontier_magic(),
{
    let magic: Vec<u8> = vec![0x4fu8, 0x4bu8, 0x56u8, 0x4fu8, 0x31u8];
    assert(magic@ =~= object_frontier_magic());
    magic
}

/// Frame the encoded body of a split-frontier command: the magic `OKVF1`,
/// then the body.
pub fn frame_frontier_command(body: &[u8]) -> (framed: Vec<u8>)
    ensures
        framed@ == frontier_magic() + body@,
{
    let mut framed = frontier_magic_bytes();
    crate::codec::extend_bytes(&mut framed, body);
    framed
}

/// Frame the encoded body of an object-frontier command: the magic `OKVO1`,
/// then the body.
pub fn frame_object_frontier_command(body: &[u8]) -> (framed: Vec<u8>)
    ensures
        framed@ == object_frontier_magic() + body@,
{
    let mut framed = object_frontier_magic_bytes();
    crate::codec::extend_bytes(&mut framed, body);
    framed
}

/// The body after `magic`, or `None` when `bytes` does not open with it.
fn strip_command_magic(magic: &Vec<u8>, bytes: &[u8]) -> (body: Option<Vec<u8>>)
    ensures
        body matches Some(b) ==> strip_magic(magic@, bytes@) == Some(b@),
        body is None ==> strip_magic(magic@, bytes@) is None,
{
    if bytes.len() < magic.len() {
        return None;
    }
    let mut i: usize = 0;
    while i < magic.len()
        invariant
            i <= magic@.len() <= bytes@.len(),
            forall|j: int| 0 <= j < i ==> bytes@[j] == magic@[j],
        decreases magic@.len() - i,
    {
        if bytes[i] != magic[i] {
            proof {
                assert(bytes@.subrange(0, magic@.len() as int)[i as int] != magic@[i as int]);
            }
            return None;
        }
        i = i + 1;
    }
    assert(bytes@.subrange(0, magic@.len() as int) =~= magic@);
    let mut body: Vec<u8> = Vec::new();
    let mut k: usize = magic.len();
    while k < bytes.len()
        invariant
            magic@.len() <= k <= bytes@.len(),
            body@ == bytes@.subrange(magic@.len() as int, k as int),
        decreases bytes@.len() - k,
    {
        body.push(bytes[k]);
        k = k + 1;
        assert(body@ =~= bytes@.subrange(magic@.len() as int, k as int));
    }
    Some(body)
}

/// The encoded body of a split-frontier command, or `None` when the bytes
/// carry another command.
pub fn frontier_command_body(bytes: &[u8]) -> (body: Option<Vec<u8>>)
    ensures
        body matches Some(b) ==> strip_magic(frontier_magic(), bytes@) == Some(b@),
        body is None ==> strip_magic(frontier_magic(), bytes@) is None,
{
    let magic = frontier_magic_bytes();
    strip_command_magic(&magic, bytes)
}

/// The encoded body of an object-frontier command, or `None` when the bytes
/// carry another command.
pub fn object_frontier_command_body(bytes: &[u8]) -> (body: Option<Vec<u8>>)
    ensures
        body matches Some(b) ==> strip_magic(object_frontier_magic(), bytes@) == Some(b@),
        body is None ==> strip_magic(object_frontier_magic(), bytes@) is None,
{
    let magic = object_frontier_magic_bytes();
    strip_command_magic(&magic, bytes)
}

/// Framing law: stripping the magic that framed a body gives the body back,
/// and a frame of one command kind is never read as the other kind.
pub proof fn lemma_command_frames_round_trip(body: Seq<u8>)
    ensures
        strip_magic(frontier_magic(), frontier_magic() + body) == Some(body),
        strip_magic(object_frontier_magic(), object_frontier_magic() + body) == Some(body),
        strip_magic(object_frontier_magic(), frontier_magic() + body) is None,
        strip_magic(frontier_magic(), object_frontier_magic() + body) is None,
{
    let f = frontier_magic() + body;
    let o = object_frontier_magic() + body;
    assert(f.subrange(0, 5) =~= frontier_magic());
    assert(f.subrange(5, f.len() as int) =~= body);
    assert(o.subrange(0, 5) =~= object_frontier_magic());
    assert(o.subrange(5, o.len() as int) =~= body);
    assert(f.subrange(0, 5)[3] != object_frontier_magic()[3]);
    assert(o.subrange(0, 5)[3] != frontier_magic()[3]);
}

} // verus!
