//! Verified evaluation logic for the objectKV transaction system: workload
//! generators, profile validators, canonical encodings, receipt summaries and
//! the decision procedures behind each evaluation contract.

pub mod codec;
pub mod cold_read;
pub mod digest;
pub mod transaction;
pub mod workload;
pub mod replay;
pub mod key_set;
pub mod commit_group;
pub mod commit_proxy;
pub mod commit_proxy_object_frontier;
pub mod process_snapshot_compaction;
pub mod frontiered_process_snapshot;
pub mod object_frontier;
pub mod fixture_anchor;
pub mod provider_incarnation;
pub mod mvcc_gc_authority;
pub mod locality_feasibility;
pub mod transaction_process_contract;
pub mod config;
pub mod comparison;
pub mod program;
pub mod object_fixture;
pub mod provider_attempt;
pub mod authority_state_scale;
pub mod transaction_log;
pub mod recovery_curve;
pub mod receipt_signature;
