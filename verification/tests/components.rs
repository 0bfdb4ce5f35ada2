//! Tests of the engine's components: configuration clamping, the chunker,
//! the admission gate, the part counter, result ordering, the manual
//! session managers, and the error type.

use minio::ETag;
use minio::chunker::Chunker;
use minio::config::{EngineConfig, UploadObjectAdditionalOptions};
use minio::counter::PartCounter;
use minio::error::Error;
use minio::gate::AdmissionGate;
use minio::manager::{PresignedUploadManager, UploadManager};
use minio::orchestrator::{collect_results, PartFate, PartOutcome};
use minio::parts::sort_by_part_number;

#[test]
fn clamping_applies_documented_floors() {
    // values below the floors come out as exactly the floors
    let options = UploadObjectAdditionalOptions {
        buffer_size: Some(100),
        data_part_size: Some(0),
        semaphore_permits: Some(0),
    };
    let config = EngineConfig::from_options(&options);
    assert_eq!(config.buffer_size, 4_096);
    assert_eq!(config.data_part_size, 5_242_880);
    assert_eq!(config.semaphore_permits, 1);
}

#[test]
fn clamping_is_idempotent() {
    let options = UploadObjectAdditionalOptions {
        buffer_size: Some(100),
        data_part_size: Some(0),
        semaphore_permits: None,
    };
    let once = EngineConfig::from_options(&options);
    let again = EngineConfig::from_options(&UploadObjectAdditionalOptions {
        buffer_size: Some(once.buffer_size),
        data_part_size: Some(once.data_part_size),
        semaphore_permits: Some(once.semaphore_permits),
    });
    assert_eq!(again.buffer_size, once.buffer_size);
    assert_eq!(again.data_part_size, once.data_part_size);
    assert_eq!(again.semaphore_permits, once.semaphore_permits);
}

#[test]
fn default_options_give_documented_defaults() {
    let options = UploadObjectAdditionalOptions::default();
    let config = EngineConfig::from_options(&options);
    assert_eq!(config.buffer_size, 100_000);
    assert_eq!(config.data_part_size, 5_242_880);
    assert_eq!(config.semaphore_permits, 4);
}

#[test]
fn chunker_emits_part_exactly_at_threshold() {
    let mut chunker = Chunker::new(5);
    assert!(chunker.push(&[1, 2, 3]).is_none());
    let part = chunker.push(&[4, 5]).expect("threshold reached, no part emitted");
    assert_eq!(part, vec![1, 2, 3, 4, 5]);
    assert!(chunker.push(&[6]).is_none());
    let rest = chunker.take_remainder();
    assert_eq!(rest, vec![6]);
    assert_eq!(chunker.total_bytes, 6);
}

#[test]
fn chunker_part_can_exceed_threshold() {
    let mut chunker = Chunker::new(4);
    assert!(chunker.push(&[1, 2, 3]).is_none());
    let part = chunker.push(&[4, 5, 6]).expect("threshold crossed, no part emitted");
    assert_eq!(part.len(), 6);
    assert_eq!(chunker.take_remainder().len(), 0);
}

#[test]
fn gate_admits_at_most_the_configured_permits() {
    // five parts through a gate of two permits: a third acquisition is
    // refused until one of the two in flight releases
    let mut gate = AdmissionGate::new(2);
    assert!(gate.try_acquire()); // part 1 starts
    assert!(gate.try_acquire()); // part 2 starts
    assert!(!gate.try_acquire()); // part 3 must wait: two are in flight
    gate.release(); // part 1 finishes
    assert!(gate.try_acquire()); // part 3 starts
    assert!(!gate.try_acquire()); // part 4 must wait
    gate.release(); // part 2 finishes
    assert!(gate.try_acquire()); // part 4 starts
    assert!(!gate.try_acquire()); // part 5 must wait
    gate.release(); // part 3 finishes
    assert!(gate.try_acquire()); // part 5 starts
    gate.release(); // part 4 finishes
    gate.release(); // part 5 finishes
    assert!(gate.try_acquire()); // all permits are free again
}

#[test]
fn counter_hands_out_increasing_numbers_from_one() {
    let mut counter = PartCounter::new();
    assert_eq!(counter.fetch_next(), 1);
    assert_eq!(counter.fetch_next(), 2);
    assert_eq!(counter.fetch_next(), 3);
}

#[test]
fn sort_orders_results_by_part_number() {
    let shuffled = vec![
        ETag { e_tag: "c".to_string(), part_number: 3 },
        ETag { e_tag: "a".to_string(), part_number: 1 },
        ETag { e_tag: "b".to_string(), part_number: 2 },
    ];
    let sorted = sort_by_part_number(shuffled);
    let numbers: Vec<usize> = sorted.iter().map(|e| e.part_number).collect();
    assert_eq!(numbers, vec![1, 2, 3]);
    let tags: Vec<&str> = sorted.iter().map(|e| e.e_tag.as_str()).collect();
    assert_eq!(tags, vec!["a", "b", "c"]);
}

#[test]
fn collect_results_keeps_the_first_failure() {
    let outcomes = vec![
        PartOutcome { part_number: 1, fate: PartFate::Uploaded("t1".to_string()) },
        PartOutcome { part_number: 2, fate: PartFate::Failed(Error::Internal("first".to_string())) },
        PartOutcome { part_number: 3, fate: PartFate::JoinLost },
    ];
    let r = collect_results(outcomes);
    assert!(matches!(r, Err(Error::Internal(m)) if m == "first"));
}

#[test]
fn collect_results_returns_tags_in_join_order() {
    let outcomes = vec![
        PartOutcome { part_number: 2, fate: PartFate::Uploaded("t2".to_string()) },
        PartOutcome { part_number: 1, fate: PartFate::Uploaded("t1".to_string()) },
    ];
    let tags = collect_results(outcomes).expect("all parts uploaded");
    assert_eq!(tags[0].part_number, 2);
    assert_eq!(tags[0].e_tag, "t2");
    assert_eq!(tags[1].part_number, 1);
}

#[test]
fn manager_numbers_and_records_parts() {
    let mut manager = UploadManager::new(
        "session-9".to_string(),
        "sharks".to_string(),
        "shark.jpg".to_string(),
    );
    let first = manager.begin_part(1_000);
    assert_eq!(first, 1);
    manager.record_part("etag-one".to_string(), first);
    let second = manager.begin_part(500);
    assert_eq!(second, 2);
    manager.record_part("etag-two".to_string(), second);
    assert_eq!(manager.total_bytes_uploaded(), 1_500);
    let parts = manager.completed_parts();
    assert_eq!(parts.len(), 2);
    assert_eq!(parts[0].part_number, 1);
    assert_eq!(parts[0].e_tag, "etag-one");
    assert_eq!(parts[1].part_number, 2);
}

#[test]
fn presigned_manager_numbers_from_one() {
    let mut manager = PresignedUploadManager::new(
        "session-7".to_string(),
        "sharks".to_string(),
        "shark.jpg".to_string(),
    );
    assert_eq!(manager.next_part(), 1);
    assert_eq!(manager.next_part(), 2);
    assert_eq!(manager.upload_id, "session-7");
}

#[test]
fn error_constructors_and_messages() {
    let internal = Error::internal("invariant broken");
    assert!(matches!(&internal, Error::Internal(m) if m == "invariant broken"));
    assert_eq!(internal.message(), "invariant broken");
    let sdk = Error::sdk("backend exploded");
    assert!(matches!(sdk, Error::SdkError(_)));
    assert_eq!(Error::JoinError.message(), "JoinError");
    assert_eq!(Error::AcquireError.message(), "AcquireError");
}
