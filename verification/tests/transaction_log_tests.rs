use okv_eval::transaction::{
    GenerationCredential, RequestIdentity, TransactionApplyResponse, TransactionBatchApplyResponse,
    TransactionBatchItem, TransactionCommand, TransactionStatus,
};
use okv_eval::transaction_log::{
    admit_request, batch_step, check_batch_items, frame_frontier_command,
    frame_object_frontier_command, frontier_command_body, frontier_response,
    object_frontier_command_body, object_frontier_response, transaction_batch_response, transaction_response, ApplyResponse, BatchClosure,
    BatchEvent, BatchStep, TransactionBatcherConfig, TransactionFrontierApplyResponse,
    TransactionLogClient, WriteAck, ObjectFrontierApplyResponse, ObjectFrontierLogPosition, ObjectFrontierRecord,
};
use okv_eval::mvcc_gc_authority::{PublicationAuthorityPosition, PublicationObjectKind, PublicationObjectReference};
use std::time::Duration;

#[test]
fn endpoint_set_must_be_non_empty() {
    assert!(TransactionLogClient::new(Vec::new()).is_err());
    assert!(TransactionLogClient::new(vec![String::new()]).is_err());
    assert!(TransactionLogClient::new(vec!["127.0.0.1:1".to_owned()]).is_ok());
}

#[test]
fn batcher_bounds_are_fail_closed() {
    let valid = TransactionBatcherConfig {
        max_items: 16,
        max_entry_bytes: 256 * 1_024,
        max_delay: Duration::from_millis(2),
        queue_capacity: 2_048,
    };
    assert!(valid.validate().is_ok());
    assert!(TransactionBatcherConfig { max_items: 0, ..valid }.validate().is_err());
    assert!(TransactionBatcherConfig { queue_capacity: 8, ..valid }.validate().is_err());
    assert!(TransactionBatcherConfig { max_delay: Duration::ZERO, ..valid }.validate().is_err());
}

#[test]
fn endpoints_rotate_by_attempt() {
    let client = TransactionLogClient::new(vec!["a:1".to_owned(), "b:2".to_owned(), "c:3".to_owned()]).unwrap();
    assert_eq!(client.endpoint(0), "a:1");
    assert_eq!(client.endpoint(1), "b:2");
    assert_eq!(client.endpoint(5), "c:3");
    assert_eq!(client.endpoint(6), "a:1");
}

#[test]
fn batcher_errors_name_the_first_violated_bound() {
    let valid = TransactionBatcherConfig {
        max_items: 16,
        max_entry_bytes: 1,
        max_delay: Duration::from_millis(2),
        queue_capacity: 16,
    };
    assert_eq!(
        TransactionBatcherConfig { max_items: 33, ..valid }.validate().unwrap_err(),
        "transaction batcher max_items must be between 1 and 32"
    );
    assert_eq!(
        TransactionBatcherConfig { max_entry_bytes: 0, ..valid }.validate().unwrap_err(),
        "transaction batcher max_entry_bytes must be positive"
    );
    assert_eq!(
        TransactionBatcherConfig { max_delay: Duration::ZERO, ..valid }.validate().unwrap_err(),
        "transaction batcher max_delay must be positive"
    );
    assert_eq!(
        TransactionBatcherConfig { queue_capacity: 15, ..valid }.validate().unwrap_err(),
        "transaction batcher queue_capacity must be at least max_items"
    );
}

#[test]
fn frontier_commands_are_framed_by_their_magic() {
    let body = br#"{"sequence":7}"#;
    let framed = frame_frontier_command(body);
    assert_eq!(&framed[..5], b"OKVF1");
    assert_eq!(&framed[5..], &body[..]);
    assert_eq!(frontier_command_body(&framed), Some(body.to_vec()));
    assert_eq!(object_frontier_command_body(&framed), None);

    let object = frame_object_frontier_command(body);
    assert_eq!(&object[..5], b"OKVO1");
    assert_eq!(object_frontier_command_body(&object), Some(body.to_vec()));
    assert_eq!(frontier_command_body(&object), None);
}

#[test]
fn short_or_foreign_commands_carry_no_frontier_body() {
    assert_eq!(frontier_command_body(b""), None);
    assert_eq!(frontier_command_body(b"OKVF"), None);
    assert_eq!(frontier_command_body(b"OKVF1"), Some(Vec::new()));
    assert_eq!(frontier_command_body(b"{\"put\":1}"), None);
}

fn batch_item(request_id: u64, generation: u64) -> TransactionBatchItem {
    TransactionBatchItem {
        identity: RequestIdentity { client_id: 1, request_id },
        credential: Some(GenerationCredential {
            generation,
            transaction_system_id: "system-a".to_owned(),
        }),
        command: TransactionCommand {
            read_version: 0,
            read_conflicts: Vec::new(),
            write_conflicts: Vec::new(),
            mutations: Vec::new(),
        },
    }
}

#[test]
fn batch_items_share_one_credential_and_size_bound() {
    assert_eq!(
        check_batch_items(&[]).unwrap_err(),
        "transaction batch must contain between 1 and 32 items"
    );
    let too_many: Vec<_> = (0..33).map(|id| batch_item(id, 4)).collect();
    assert_eq!(
        check_batch_items(&too_many).unwrap_err(),
        "transaction batch must contain between 1 and 32 items"
    );
    let full: Vec<_> = (0..32).map(|id| batch_item(id, 4)).collect();
    assert!(check_batch_items(&full).is_ok());
    let mixed = vec![batch_item(1, 4), batch_item(2, 5)];
    assert_eq!(
        check_batch_items(&mixed).unwrap_err(),
        "transaction batch items must use one generation credential"
    );
    let mut unfenced = batch_item(3, 4);
    unfenced.credential = None;
    assert!(check_batch_items(&[batch_item(1, 4), unfenced.clone()]).is_err());
    assert!(check_batch_items(&[unfenced.clone(), unfenced]).is_ok());
}

#[test]
fn acknowledgements_yield_their_committed_answer() {
    let batch = TransactionBatchApplyResponse { items: Vec::new() };
    let frontier = TransactionFrontierApplyResponse {
        applied_log_index: 9,
        sequence: 2,
        conflict_retention_floor: 5,
        retry_floors: Vec::new(),
        pruned_conflict_versions: 1,
        pruned_retry_outcomes: 0,
    };
    let ack = WriteAck {
        committed: true,
        response: Some(ApplyResponse {
            transaction: None,
            transaction_batch: Some(batch.clone()),
            transaction_frontier: Some(frontier.clone()),
            object_frontier: None,
        }),
    };
    assert_eq!(transaction_batch_response(ack.clone()), Ok(batch));
    assert_eq!(frontier_response(ack.clone()), Ok(frontier));
    let uncommitted = WriteAck { committed: false, ..ack };
    assert_eq!(
        transaction_batch_response(uncommitted.clone()).unwrap_err(),
        "transaction batch was not quorum committed"
    );
    assert_eq!(
        frontier_response(uncommitted).unwrap_err(),
        "transaction frontier command was not quorum committed"
    );
    let empty = WriteAck { committed: true, response: None };
    assert_eq!(
        transaction_batch_response(empty.clone()).unwrap_err(),
        "transaction batch response is absent"
    );
    assert_eq!(
        frontier_response(empty).unwrap_err(),
        "transaction frontier response is absent"
    );
}

#[test]
fn batcher_steps_close_on_each_bound() {
    let config = TransactionBatcherConfig {
        max_items: 2,
        max_entry_bytes: 100,
        max_delay: Duration::from_millis(2),
        queue_capacity: 8,
    };
    let arrival = |bytes| BatchEvent::Arrived {
        same_credential: true,
        candidate_bytes: bytes,
    };
    assert_eq!(batch_step(&config, 1, arrival(Some(100))), BatchStep::Admit);
    assert_eq!(
        batch_step(&config, 2, arrival(Some(10))),
        BatchStep::Close { closure: BatchClosure::ItemBound, carry: false }
    );
    assert_eq!(
        batch_step(&config, 1, arrival(Some(101))),
        BatchStep::Close { closure: BatchClosure::ByteBound, carry: true }
    );
    assert_eq!(batch_step(&config, 1, arrival(None)), BatchStep::RejectEncoding);
    assert_eq!(
        batch_step(
            &config,
            1,
            BatchEvent::Arrived { same_credential: false, candidate_bytes: Some(10) }
        ),
        BatchStep::Close { closure: BatchClosure::CredentialBound, carry: true }
    );
    assert_eq!(
        batch_step(&config, 1, BatchEvent::DelayExpired),
        BatchStep::Close { closure: BatchClosure::DelayBound, carry: false }
    );
    assert_eq!(
        batch_step(&config, 1, BatchEvent::SenderClosed),
        BatchStep::Close { closure: BatchClosure::SenderClosed, carry: false }
    );
    assert!(admit_request(&config, 100));
    assert!(!admit_request(&config, 101));
}

#[test]
fn transaction_acknowledgements_refuse_rejections() {
    let answer = |status| WriteAck {
        committed: true,
        response: Some(ApplyResponse {
            transaction: Some(TransactionApplyResponse {
                status,
                applied_mutation_count: 1,
                applied_log_index: 8,
                batch_order: 0,
            }),
            transaction_batch: None,
            transaction_frontier: None,
            object_frontier: None,
        }),
    };
    let committed = answer(TransactionStatus::Committed { commit_version: 8 });
    assert_eq!(transaction_response(committed.clone()).unwrap().applied_log_index, 8);
    let conflict = answer(TransactionStatus::Conflict { conflicting_version: 7 });
    assert!(transaction_response(conflict).is_ok());
    let rejected = answer(TransactionStatus::Rejected { reason: "stale generation 3".to_owned() });
    assert_eq!(
        transaction_response(rejected).unwrap_err(),
        "transaction was rejected: Rejected { reason: \"stale generation 3\" }"
    );
    let quoted = answer(TransactionStatus::Rejected { reason: "say \"no\"\n".to_owned() });
    assert_eq!(
        transaction_response(quoted).unwrap_err(),
        "transaction was rejected: Rejected { reason: \"say \\\"no\\\"\\n\" }"
    );
    assert_eq!(
        transaction_response(WriteAck { committed: false, ..committed.clone() }).unwrap_err(),
        "transaction command was not quorum committed"
    );
    assert_eq!(
        transaction_response(WriteAck { committed: true, response: None }).unwrap_err(),
        "transaction response is absent"
    );
}

#[test]
fn object_frontier_acknowledgements_decode_only_committed_answers() {
    let popped = ObjectFrontierApplyResponse {
        applied_log_position: ObjectFrontierLogPosition { term: 2, index: 41 },
        frontier: ObjectFrontierRecord {
            owner_generation: 7,
            source_root: "object-frontier/g411a1/9".to_owned(),
            manifest: PublicationObjectReference {
                kind: PublicationObjectKind::Manifest,
                key: "rows/manifest/sha256/ab".to_owned(),
                length: 512,
                sha256: "ab".to_owned(),
            },
            covered_through: 64,
            prepared_at: PublicationAuthorityPosition { term: 1, index: 1 },
        },
        prior_retention_floor: 0,
        retention_floor: 64,
        popped_records: 64,
    };
    let ack = WriteAck {
        committed: true,
        response: Some(ApplyResponse {
            transaction: None,
            transaction_batch: None,
            transaction_frontier: None,
            object_frontier: Some(popped.clone()),
        }),
    };
    assert_eq!(object_frontier_response(ack.clone()), Ok(popped));
    assert_eq!(
        frontier_response(ack.clone()).unwrap_err(),
        "transaction frontier response is absent"
    );
    let uncommitted = WriteAck { committed: false, ..ack };
    assert_eq!(
        object_frontier_response(uncommitted).unwrap_err(),
        "object frontier command was not quorum committed"
    );
    let empty = WriteAck { committed: true, response: None };
    assert_eq!(object_frontier_response(empty).unwrap_err(), "object frontier response is absent");
    let other = WriteAck {
        committed: true,
        response: Some(ApplyResponse {
            transaction: None,
            transaction_batch: None,
            transaction_frontier: None,
            object_frontier: None,
        }),
    };
    assert_eq!(object_frontier_response(other).unwrap_err(), "object frontier response is absent");
}
