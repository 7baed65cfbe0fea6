//! The transaction vocabulary shared by every contract: request identities,
//! generation credentials, key ranges, mutations, commands, statuses, apply
//! responses, and retained log records.

use vstd::prelude::*;

verus! {

/// Stable identity of one client request.
#[derive(Clone, Copy, Debug, PartialEq, Eq, PartialOrd, Ord, Hash, Structural)]
pub struct RequestIdentity {
    pub client_id: u64,
    pub request_id: u64,
}

/// Generation-fenced authority to commit through one transaction system.
#[derive(Clone, Debug, PartialEq, Eq)]
pub struct GenerationCredential {
    pub generation: u64,
    pub transaction_system_id: String,
}

/// Half-open key interval `[start, end)`.
#[derive(Clone, Debug, PartialEq, Eq, PartialOrd, Ord)]
pub struct KeyRange {
    pub start: Vec<u8>,
    pub end: Vec<u8>,
}

impl KeyRange {
    /// The range holding exactly `key`: from `key` up to its immediate
    /// successor `key ++ [0]`.
    pub fn point(key: &[u8]) -> (range: KeyRange)
        ensures
            range.start@ == key@,
            range.end@ == key@.push(0u8),
    {
        let mut start: Vec<u8> = Vec::new();
        crate::codec::extend_bytes(&mut start, key);
        let mut end = start.clone();
        end.push(0u8);
        KeyRange { start, end }
    }
}

/// One mutation of the key space.
#[derive(Clone, Debug, PartialEq, Eq)]
pub enum Mutation {
    SetValue { key: Vec<u8>, value: Vec<u8> },
    Clear { key: Vec<u8> },
    ClearRange { range: KeyRange },
}

/// One deterministic transaction: a read version, conflict ranges, and
/// mutations applied atomically on commit.
#[derive(Clone, Debug, PartialEq, Eq)]
pub struct TransactionCommand {
    pub read_version: u64,
    pub read_conflicts: Vec<KeyRange>,
    pub write_conflicts: Vec<KeyRange>,
    pub mutations: Vec<Mutation>,
}

/// Outcome of one transaction at the authority.
#[derive(Clone, Debug, PartialEq, Eq)]
pub enum TransactionStatus {
    Committed { commit_version: u64 },
    Conflict { conflicting_version: u64 },
    Rejected { reason: String },
}

/// The authority's exact answer for one transaction.
#[derive(Clone, Debug, PartialEq, Eq)]
pub struct TransactionApplyResponse {
    pub status: TransactionStatus,
    pub applied_mutation_count: u64,
    pub applied_log_index: u64,
    pub batch_order: u16,
}

/// One committed transaction retained in the recovery stream.
#[derive(Clone, Debug, PartialEq, Eq)]
pub struct RetainedTransactionRecord {
    pub commit_version: u64,
    pub batch_order: u16,
    pub command: TransactionCommand,
}

/// One independently retryable transaction submitted through a batch entry.
#[derive(Clone, Debug, PartialEq, Eq)]
pub struct TransactionBatchItem {
    pub identity: RequestIdentity,
    pub credential: Option<GenerationCredential>,
    pub command: TransactionCommand,
}

/// The authority's answer for one item of a transaction batch.
#[derive(Clone, Debug, PartialEq, Eq)]
pub struct TransactionBatchItemResponse {
    pub identity: RequestIdentity,
    pub transaction: Option<TransactionApplyResponse>,
    pub error: Option<String>,
}

/// The authority's answer for one transaction-batch entry.
#[derive(Clone, Debug, PartialEq, Eq)]
pub struct TransactionBatchApplyResponse {
    pub items: Vec<TransactionBatchItemResponse>,
}

/// A command whose only write is setting `key` to `value`, read at
/// `read_version` with the given read conflicts.
pub open spec fn single_set_command(
    command: TransactionCommand,
    read_version: u64,
    read_conflicts: Seq<Seq<u8>>,
    key: Seq<u8>,
    value: Seq<u8>,
) -> bool {
    &&& command.read_version == read_version
    &&& command.read_conflicts@.len() == read_conflicts.len()
    &&& forall|i: int|
        0 <= i < read_conflicts.len() ==> (#[trigger] command.read_conflicts@[i]).start@ == read_conflicts[i]
            && command.read_conflicts@[i].end@ == read_conflicts[i].push(0u8)
    &&& command.write_conflicts@.len() == 1
    &&& command.write_conflicts@[0].start@ == key
    &&& command.write_conflicts@[0].end@ == key.push(0u8)
    &&& command.mutations@.len() == 1
    &&& command.mutations@[0] matches Mutation::SetValue { key: k, value: v }
    &&& k@ == key
    &&& v@ == value
}

/// Build a command that sets `key` to `value`, conflicting on writes to the
/// key and, when `read_conflict` holds, on reads of it.
pub fn set_command(read_version: u64, read_conflict: bool, key: Vec<u8>, value: Vec<u8>) -> (command: TransactionCommand)
    ensures
        single_set_command(
            command,
            read_version,
            if read_conflict { seq![key@] } else { Seq::empty() },
            key@,
            value@,
        ),
{
    let mut read_conflicts: Vec<KeyRange> = Vec::new();
    if read_conflict {
        read_conflicts.push(KeyRange::point(key.as_slice()));
    }
    let mut write_conflicts: Vec<KeyRange> = Vec::new();
    write_conflicts.push(KeyRange::point(key.as_slice()));
    let mut mutations: Vec<Mutation> = Vec::new();
    mutations.push(Mutation::SetValue { key, value });
    TransactionCommand { read_version, read_conflicts, write_conflicts, mutations }
}

} // verus!
