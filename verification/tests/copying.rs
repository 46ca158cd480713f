use disk_archiver::copier::{MemSink, copy_disk_to_iso, classify_read, progress_units,
    ReadOutcome, ReadStep};
use disk_archiver::actuator::{RetryPolicy, AttemptOutcome, RetryDecision};
use disk_archiver::errors::CopyError;

fn source_bytes(n: usize) -> Vec<u8> {
    let mut v = Vec::new();
    for i in 0..n {
        v.push((i % 251) as u8);
    }
    v
}

#[test]
fn copy_twenty_bytes_with_buffer_seven() {
    let source = source_bytes(20);
    let mut sink = MemSink::new();
    let mut progress: Vec<usize> = Vec::new();
    let r = copy_disk_to_iso(&source, &mut sink, 20, 7, &mut progress);
    assert!(r.is_ok());
    assert_eq!(progress, vec![7, 7, 6]);
    assert_eq!(progress.iter().sum::<usize>(), 20);
    assert_eq!(sink.data, source);
}

#[test]
fn copy_ends_early_at_end_of_input() {
    let source = source_bytes(5);
    let mut sink = MemSink::new();
    let mut progress: Vec<usize> = Vec::new();
    let r = copy_disk_to_iso(&source, &mut sink, 20, 7, &mut progress);
    assert!(r.is_ok());
    assert_eq!(progress, vec![5]);
    assert_eq!(sink.data, source);
}

#[test]
fn copy_stops_at_the_length_bound() {
    let source = source_bytes(50);
    let mut sink = MemSink::new();
    let mut progress: Vec<usize> = Vec::new();
    let r = copy_disk_to_iso(&source, &mut sink, 10, 7, &mut progress);
    assert!(r.is_ok());
    assert_eq!(progress, vec![7, 3]);
    assert_eq!(sink.data, source[..10].to_vec());
}

#[test]
fn copy_with_one_big_buffer_is_one_chunk() {
    let source = source_bytes(20);
    let mut sink = MemSink::new();
    let mut progress: Vec<usize> = Vec::new();
    let r = copy_disk_to_iso(&source, &mut sink, 20, 64, &mut progress);
    assert!(r.is_ok());
    assert_eq!(progress, vec![20]);
    assert_eq!(sink.data, source);
}

#[test]
fn copy_of_nothing_writes_nothing() {
    let source: Vec<u8> = Vec::new();
    let mut sink = MemSink::new();
    let mut progress: Vec<usize> = Vec::new();
    let r = copy_disk_to_iso(&source, &mut sink, 20, 7, &mut progress);
    assert!(r.is_ok());
    assert!(progress.is_empty());
    assert!(sink.data.is_empty());
}

#[test]
fn sink_failing_on_second_write_keeps_first_chunk() {
    let source = source_bytes(20);
    let mut sink = MemSink::failing_after(1);
    let mut progress: Vec<usize> = Vec::new();
    let r = copy_disk_to_iso(&source, &mut sink, 20, 7, &mut progress);
    match r {
        Err(CopyError::Write) => {},
        _ => panic!("expected a write failure"),
    }
    // The first chunk was durably written; the failed chunk was already
    // reported but never written.
    assert_eq!(sink.data, source[..7].to_vec());
    assert_eq!(progress, vec![7, 7]);
}

#[test]
fn read_outcomes_map_to_their_steps() {
    assert_eq!(classify_read(ReadOutcome::Data(0)), ReadStep::Finish);
    assert_eq!(classify_read(ReadOutcome::Data(5)), ReadStep::Write(5));
    assert_eq!(classify_read(ReadOutcome::Interrupted), ReadStep::Retry);
    assert_eq!(classify_read(ReadOutcome::Failed), ReadStep::Abort);
}

#[test]
fn progress_units_scale_to_the_fixed_range() {
    assert_eq!(progress_units(0, 100), 0);
    assert_eq!(progress_units(50, 100), 500);
    assert_eq!(progress_units(100, 100), 1000);
    assert_eq!(progress_units(1, 3), 333);
}

#[test]
fn actuation_stops_at_first_success() {
    let mut p = RetryPolicy::new(5);
    assert_eq!(p.on_attempt(AttemptOutcome::Finished(false)), RetryDecision::TryAgain);
    assert_eq!(p.on_attempt(AttemptOutcome::Finished(true)), RetryDecision::Succeeded);
}

#[test]
fn actuation_gives_up_after_the_budget() {
    let mut p = RetryPolicy::new(5);
    for _ in 0..4 {
        assert_eq!(p.on_attempt(AttemptOutcome::Finished(false)), RetryDecision::TryAgain);
    }
    assert_eq!(p.on_attempt(AttemptOutcome::Finished(false)), RetryDecision::GaveUp);
}

#[test]
fn launch_failure_is_not_retried() {
    let mut p = RetryPolicy::new(5);
    assert_eq!(p.on_attempt(AttemptOutcome::LaunchFailed), RetryDecision::LaunchError);
}
