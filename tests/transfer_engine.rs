use pv::transfer::CountMode;
use pv::transfer::ReadFailure;
use pv::transfer::Transfer;
use pv::transfer::WriteFailure;

/// Feeds `chunks` through a transfer the way the copy loop does; returns the
/// bytes written and the final position.
fn run(chunks: &[&[u8]], mode: CountMode, cap: Option<u64>) -> (Vec<u8>, u64) {
    let mut t = Transfer::new(mode, cap, false, false);
    let mut out = Vec::new();
    for chunk in chunks {
        if t.stopped_at_size() {
            break;
        }
        let n = t.budget(chunk.len());
        out.extend_from_slice(&chunk[..n]);
        t.record_written(chunk, n);
    }
    assert_eq!(t.written, out.len() as u64);
    (out, t.position)
}

#[test]
fn pass_through_is_byte_exact() {
    let (out, pos) = run(&[b"test data"], CountMode::Bytes, None);
    assert_eq!(out, b"test data".to_vec());
    assert_eq!(pos, 9);
}

#[test]
fn pass_through_of_every_byte_value() {
    let data: Vec<u8> = (0..=255u8).rev().collect();
    let (out, pos) = run(&[&data[..100], &data[100..]], CountMode::Bytes, None);
    assert_eq!(out, data);
    assert_eq!(pos, 256);
}

#[test]
fn stop_at_size_across_sources() {
    let (out, pos) = run(&[b"file1", b"file2"], CountMode::Bytes, Some(7));
    assert_eq!(out, b"file1fi".to_vec());
    assert_eq!(pos, 7);
}

#[test]
fn stop_at_size_zero_writes_nothing() {
    let (out, _) = run(&[b"some data"], CountMode::Bytes, Some(0));
    assert!(out.is_empty());
}

#[test]
fn stop_at_size_exact_and_larger() {
    let (out, _) = run(&[b"test data"], CountMode::Bytes, Some(9));
    assert_eq!(out, b"test data".to_vec());
    let (out, _) = run(&[b"test ", b"data"], CountMode::Bytes, Some(1000));
    assert_eq!(out, b"test data".to_vec());
}

#[test]
fn stop_at_size_ends_reading() {
    let mut t = Transfer::new(CountMode::Bytes, Some(4), false, false);
    assert!(!t.stopped_at_size());
    let n = t.budget(10);
    assert_eq!(n, 4);
    t.record_written(b"0123456789", n);
    assert!(t.stopped_at_size());
    assert_eq!(t.received, 10);
    assert_eq!(t.written, 4);
}

#[test]
fn line_mode_counts_newlines() {
    let data = vec![b'\n'; 1000];
    let (out, pos) = run(&[&data[..300], &data[300..]], CountMode::Lines(b'\n'), None);
    assert_eq!(out, data);
    assert_eq!(pos, 1000);
}

#[test]
fn line_mode_counts_only_written_delimiters() {
    let (out, pos) = run(&[b"a\nb\nc\nd\n"], CountMode::Lines(b'\n'), Some(5));
    assert_eq!(out, b"a\nb\nc".to_vec());
    assert_eq!(pos, 2);
}

#[test]
fn null_delimited_lines() {
    let (out, pos) = run(&[b"one\0two\0", b"three\0\n"], CountMode::Lines(0), None);
    assert_eq!(out, b"one\0two\0three\0\n".to_vec());
    assert_eq!(pos, 3);
}

#[test]
fn dropped_write_is_not_counted() {
    let mut t = Transfer::new(CountMode::Bytes, None, false, true);
    assert_eq!(t.on_write_failure(), WriteFailure::Skip);
    t.record_dropped(b"lost");
    assert_eq!(t.received, 4);
    assert_eq!(t.written, 0);
    assert_eq!(t.position, 0);
    let n = t.budget(4);
    assert_eq!(t.record_written(b"kept", n), 4);
    assert_eq!(t.written, 4);
    assert_eq!(t.position, 4);
}

#[test]
fn read_failures() {
    let strict = Transfer::new(CountMode::Bytes, None, false, false);
    assert_eq!(strict.on_read_failure(true), ReadFailure::Retry);
    assert_eq!(strict.on_read_failure(false), ReadFailure::Fail);
    let tolerant = Transfer::new(CountMode::Bytes, None, true, false);
    assert_eq!(tolerant.on_read_failure(true), ReadFailure::Retry);
    assert_eq!(tolerant.on_read_failure(false), ReadFailure::Skip);
}

#[test]
fn write_failure_is_fatal_by_default() {
    let t = Transfer::new(CountMode::Bytes, None, true, false);
    assert_eq!(t.on_write_failure(), WriteFailure::Fail);
}
