use telemetry_helpers::capture::{append_record, snapshot_of, CaptureError, MockWriter};

#[test]
fn two_sequential_writers() {
    let writer = MockWriter::new();
    let other = writer.share();
    assert_eq!(writer.write(b"hello\n"), Ok(6));
    assert_eq!(other.write(b"world\n"), Ok(6));
    let output = writer.log_output().unwrap();
    let mut lines = output.lines();
    lines.next_some().unwrap().assert_eq("hello").unwrap();
    lines.next_some().unwrap().assert_eq("world").unwrap();
    assert!(lines.end().is_ok());
}

#[test]
fn snapshot_grows_by_the_appended_bytes() {
    let writer = MockWriter::new();
    writer.write("first ✓\n".as_bytes()).unwrap();
    let before = writer.log_output().unwrap();
    let again = writer.log_output().unwrap();
    assert_eq!(before.text(), again.text());
    writer.write(b"second\n").unwrap();
    let after = writer.log_output().unwrap();
    assert_eq!(after.text(), format!("{}second\n", before.text()));
    assert_eq!(before.text(), "first ✓\n");
}

#[test]
fn interleaved_writers_stay_whole() {
    let writer = MockWriter::new();
    let handles: Vec<MockWriter> = (0..100).map(|_| writer.share()).collect();
    for k in 0..5u32 {
        for (caller, w) in handles.iter().enumerate().rev() {
            let record = format!("caller {caller} record {k}\n");
            assert_eq!(w.write(record.as_bytes()), Ok(record.len()));
        }
    }
    let output = writer.log_output().unwrap();
    let mut seen = vec![0u32; 100];
    let mut lines = output.lines();
    for _ in 0..500 {
        let line = lines.next_some().unwrap();
        let parts: Vec<&str> = line.text().split(' ').collect();
        assert_eq!(parts.len(), 4);
        let caller: usize = parts[1].parse().unwrap();
        let k: u32 = parts[3].parse().unwrap();
        assert_eq!(seen[caller], k);
        seen[caller] += 1;
    }
    assert!(lines.end().is_ok());
}

#[test]
fn single_writer_baseline() {
    let writer = MockWriter::new();
    writer.write(b"a").unwrap();
    writer.write(b"b\n").unwrap();
    assert_eq!(writer.log_output().unwrap().text(), "ab\n");
}

#[test]
fn write_fails_fast_while_locked() {
    let writer = MockWriter::new();
    let other = writer.share();
    let guard = writer.buf().unwrap();
    assert_eq!(other.write(b"x"), Err(CaptureError::WouldBlock));
    assert!(matches!(other.log_output(), Err(CaptureError::WouldBlock)));
    drop(guard);
    assert_eq!(other.write(b"x"), Ok(1));
}

#[test]
fn map_error_distinguishes_failures() {
    let e: std::sync::TryLockError<()> = std::sync::TryLockError::WouldBlock;
    assert_eq!(MockWriter::map_error(e), CaptureError::WouldBlock);
    let p: std::sync::TryLockError<()> =
        std::sync::TryLockError::Poisoned(std::sync::PoisonError::new(()));
    assert_eq!(MockWriter::map_error(p), CaptureError::Poisoned);
}

#[test]
fn invalid_utf8_is_refused() {
    let writer = MockWriter::new();
    writer.write(&[0x66, 0xff, 0x0a]).unwrap();
    assert!(matches!(writer.log_output(), Err(CaptureError::InvalidData)));
}

#[test]
fn flush_always_succeeds() {
    let writer = MockWriter::new();
    let _guard = writer.buf().unwrap();
    assert_eq!(writer.flush(), Ok(()));
}

#[test]
fn append_and_snapshot_of_plain_buffer() {
    let mut buf = b"ab".to_vec();
    assert_eq!(append_record(&mut buf, b"cd"), 2);
    assert_eq!(buf, b"abcd".to_vec());
    assert_eq!(snapshot_of(&buf).unwrap().text(), "abcd");
    assert!(matches!(snapshot_of(&vec![0xc3]), Err(CaptureError::InvalidData)));
}

#[test]
fn empty_writer_gives_empty_output() {
    let writer = MockWriter::new();
    let output = writer.log_output().unwrap();
    assert_eq!(output.text(), "");
    assert!(output.lines().end().is_ok());
}
