//! End-to-end runs of the upload engine over in-memory streams and
//! scripted collaborator outcomes.

use minio::error::Error;
use minio::orchestrator::{run_upload, BackendScript, PartFate};
use minio::config::UploadObjectAdditionalOptions;

/// A script in which every call succeeds and part `k + 1` returns the tag
/// `tag-{k + 1}`. `n_fates` must be at least one more than the number of
/// reads handed to `run_upload`.
fn all_ok_script(n_fates: usize) -> BackendScript {
    let mut part_fates = Vec::new();
    for k in 0..n_fates {
        part_fates.push(PartFate::Uploaded(format!("tag-{}", k + 1)));
    }
    BackendScript {
        read_error: None,
        put_result: Ok(()),
        start_result: Ok("session-1".to_string()),
        part_fates,
        complete_result: Ok(()),
        abort_result: Ok(()),
    }
}

fn options_with_part_size(part_size: usize) -> UploadObjectAdditionalOptions {
    UploadObjectAdditionalOptions {
        buffer_size: None,
        data_part_size: Some(part_size),
        semaphore_permits: None,
    }
}

fn mib(n: usize) -> usize {
    n * 1_048_576
}

#[test]
fn single_put_for_small_stream() {
    // a 10 KiB stream under the default configuration: no session, one PUT
    let reads = vec![vec![7u8; 4096], vec![7u8; 4096], vec![7u8; 2048]];
    let options = UploadObjectAdditionalOptions::default();
    let (trace, outcome) = run_upload(&options, &reads, all_ok_script(4));
    assert_eq!(trace.put_calls, 1);
    let body = trace.put_body.expect("no PUT was made");
    assert_eq!(body.len(), 10_240);
    assert!(body.iter().all(|b| *b == 7));
    assert_eq!(trace.sessions_started, 0);
    assert_eq!(trace.part_calls.len(), 0);
    assert!(trace.completed.is_none());
    assert_eq!(trace.abort_calls, 0);
    assert!(matches!(outcome, Ok(10_240)));
}

#[test]
fn empty_stream_single_put() {
    let reads: Vec<Vec<u8>> = vec![];
    let options = UploadObjectAdditionalOptions::default();
    let (trace, outcome) = run_upload(&options, &reads, all_ok_script(1));
    assert_eq!(trace.put_calls, 1);
    assert_eq!(trace.put_body.expect("no PUT was made").len(), 0);
    assert_eq!(trace.sessions_started, 0);
    assert!(matches!(outcome, Ok(0)));
}

#[test]
fn twelve_megabyte_stream_three_parts() {
    // a 12 MiB stream with a 5 MiB part size: one session, parts of
    // 5 MiB, 5 MiB and 2 MiB completed as [1, 2, 3], 12,582,912 bytes
    let reads: Vec<Vec<u8>> = (0..12).map(|_| vec![3u8; mib(1)]).collect();
    let options = options_with_part_size(5_242_880);
    let (trace, outcome) = run_upload(&options, &reads, all_ok_script(13));
    assert_eq!(trace.put_calls, 0);
    assert_eq!(trace.sessions_started, 1);
    assert_eq!(trace.part_calls.len(), 3);
    assert_eq!(trace.part_calls[0].part_number, 1);
    assert_eq!(trace.part_calls[0].bytes.len(), 5_242_880);
    assert_eq!(trace.part_calls[1].part_number, 2);
    assert_eq!(trace.part_calls[1].bytes.len(), 5_242_880);
    assert_eq!(trace.part_calls[2].part_number, 3);
    assert_eq!(trace.part_calls[2].bytes.len(), 2_097_152);
    let completed = trace.completed.expect("Complete was never called");
    let numbers: Vec<usize> = completed.iter().map(|e| e.part_number).collect();
    assert_eq!(numbers, vec![1, 2, 3]);
    assert_eq!(completed[0].e_tag, "tag-1");
    assert_eq!(completed[2].e_tag, "tag-3");
    assert_eq!(trace.abort_calls, 0);
    assert!(matches!(outcome, Ok(12_582_912)));
}

#[test]
fn part_count_follows_threshold_crossings() {
    // an exact multiple of the part size still dispatches a final
    // (empty) remainder part: 10 MiB at 5 MiB parts makes 3 calls
    let reads: Vec<Vec<u8>> = (0..10).map(|_| vec![1u8; mib(1)]).collect();
    let options = options_with_part_size(5_242_880);
    let (trace, outcome) = run_upload(&options, &reads, all_ok_script(11));
    assert_eq!(trace.part_calls.len(), 3);
    assert_eq!(trace.part_calls[2].bytes.len(), 0);
    assert!(matches!(outcome, Ok(n) if n == mib(10)));
}

#[test]
fn part_failure_aborts_once() {
    // one of three parts fails: Abort exactly once, Complete never, and
    // the part's own failure is what the caller sees
    let reads: Vec<Vec<u8>> = (0..12).map(|_| vec![9u8; mib(1)]).collect();
    let options = options_with_part_size(5_242_880);
    let mut script = all_ok_script(13);
    script.part_fates[1] = PartFate::Failed(Error::SdkError("part 2 refused".to_string()));
    let (trace, outcome) = run_upload(&options, &reads, script);
    assert_eq!(trace.sessions_started, 1);
    assert_eq!(trace.part_calls.len(), 3);
    assert!(trace.completed.is_none());
    assert_eq!(trace.abort_calls, 1);
    assert!(matches!(outcome, Err(Error::SdkError(m)) if m == "part 2 refused"));
}

#[test]
fn lost_task_aborts_with_join_error() {
    let reads: Vec<Vec<u8>> = (0..6).map(|_| vec![9u8; mib(1)]).collect();
    let options = options_with_part_size(5_242_880);
    let mut script = all_ok_script(7);
    script.part_fates[0] = PartFate::JoinLost;
    let (trace, outcome) = run_upload(&options, &reads, script);
    assert!(trace.completed.is_none());
    assert_eq!(trace.abort_calls, 1);
    assert!(matches!(outcome, Err(Error::JoinError)));
}

#[test]
fn abort_failure_never_masks_part_failure() {
    let reads: Vec<Vec<u8>> = (0..6).map(|_| vec![9u8; mib(1)]).collect();
    let options = options_with_part_size(5_242_880);
    let mut script = all_ok_script(7);
    script.part_fates[0] = PartFate::Failed(Error::SdkError("primary".to_string()));
    script.abort_result = Err(Error::SdkError("abort also failed".to_string()));
    let (trace, outcome) = run_upload(&options, &reads, script);
    assert_eq!(trace.abort_calls, 1);
    assert!(matches!(trace.abort_failure, Some(Error::SdkError(m)) if m == "abort also failed"));
    assert!(matches!(outcome, Err(Error::SdkError(m)) if m == "primary"));
}

#[test]
fn read_error_before_any_crossing() {
    let mut script = all_ok_script(2);
    script.read_error = Some(Error::StdIo("connection reset".to_string()));
    let reads = vec![vec![1u8; 1024]];
    let options = UploadObjectAdditionalOptions::default();
    let (trace, outcome) = run_upload(&options, &reads, script);
    assert_eq!(trace.put_calls, 0);
    assert_eq!(trace.sessions_started, 0);
    assert_eq!(trace.abort_calls, 0);
    assert!(matches!(outcome, Err(Error::StdIo(m)) if m == "connection reset"));
}

#[test]
fn read_error_after_session_aborts() {
    let reads: Vec<Vec<u8>> = (0..6).map(|_| vec![5u8; mib(1)]).collect();
    let options = options_with_part_size(5_242_880);
    let mut script = all_ok_script(7);
    script.read_error = Some(Error::StdIo("timed out".to_string()));
    let (trace, outcome) = run_upload(&options, &reads, script);
    assert_eq!(trace.sessions_started, 1);
    assert_eq!(trace.part_calls.len(), 1);
    assert!(trace.completed.is_none());
    assert_eq!(trace.abort_calls, 1);
    assert!(matches!(outcome, Err(Error::StdIo(m)) if m == "timed out"));
}

#[test]
fn session_start_failure_is_fatal() {
    let reads: Vec<Vec<u8>> = (0..6).map(|_| vec![5u8; mib(1)]).collect();
    let options = options_with_part_size(5_242_880);
    let mut script = all_ok_script(7);
    script.start_result = Err(Error::SdkError("bucket missing".to_string()));
    let (trace, outcome) = run_upload(&options, &reads, script);
    assert_eq!(trace.sessions_started, 0);
    assert_eq!(trace.part_calls.len(), 0);
    assert_eq!(trace.abort_calls, 0);
    assert!(matches!(outcome, Err(Error::SdkError(m)) if m == "bucket missing"));
}

#[test]
fn put_failure_propagates() {
    let reads = vec![vec![1u8; 512]];
    let options = UploadObjectAdditionalOptions::default();
    let mut script = all_ok_script(2);
    script.put_result = Err(Error::SdkError("put refused".to_string()));
    let (trace, outcome) = run_upload(&options, &reads, script);
    assert_eq!(trace.put_calls, 1);
    assert!(matches!(outcome, Err(Error::SdkError(m)) if m == "put refused"));
}

#[test]
fn complete_failure_propagates_without_abort() {
    let reads: Vec<Vec<u8>> = (0..6).map(|_| vec![5u8; mib(1)]).collect();
    let options = options_with_part_size(5_242_880);
    let mut script = all_ok_script(7);
    script.complete_result = Err(Error::SdkError("complete refused".to_string()));
    let (trace, outcome) = run_upload(&options, &reads, script);
    assert!(trace.completed.is_some());
    assert_eq!(trace.abort_calls, 0);
    assert!(matches!(outcome, Err(Error::SdkError(m)) if m == "complete refused"));
}

#[test]
fn oversized_reads_make_oversized_parts() {
    // reads larger than the threshold leftovers: each part carries at
    // least the threshold, and a straddling read makes it larger
    let reads: Vec<Vec<u8>> = (0..5).map(|_| vec![2u8; mib(2)]).collect();
    let options = options_with_part_size(5_242_880);
    let (trace, outcome) = run_upload(&options, &reads, all_ok_script(6));
    // 2 MiB reads accumulate to 6 MiB before crossing 5 MiB
    assert_eq!(trace.part_calls.len(), 2);
    assert_eq!(trace.part_calls[0].bytes.len(), mib(6));
    assert_eq!(trace.part_calls[1].bytes.len(), mib(4));
    assert!(matches!(outcome, Ok(n) if n == mib(10)));
}
