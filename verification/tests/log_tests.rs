use persist::log::Log;
use persist::LockInfo;
use persist::MemLog;
use persist::SeqNo;

fn open_log(path: &str, reentrance_id: &str) -> MemLog {
    let mut log = MemLog::new(path.to_string());
    let li = LockInfo::new(reentrance_id.to_string(), "".to_string()).unwrap();
    log.open(&li).unwrap();
    log
}

#[test]
fn write_seqnos_are_consecutive() {
    // On a fresh log, returned sequence numbers are exactly 0, 1, 2, ...
    let mut log = open_log("path0", "reentrance0");
    for i in 0..10u64 {
        let seqno = log.write_sync(format!("entry{}", i).into_bytes()).unwrap();
        assert_eq!(seqno, SeqNo(i));
    }
}

#[test]
fn log_scenario_write_truncate_snapshot() {
    // Open at "p" with reentrance "r0"; write "a" -> 0; write "b" -> 1;
    // truncate(1); snapshot yields only "b" in range [1, 2).
    let mut log = open_log("p", "r0");
    assert_eq!(log.write_sync(b"a".to_vec()).unwrap(), SeqNo(0));
    assert_eq!(log.write_sync(b"b".to_vec()).unwrap(), SeqNo(1));
    log.truncate(SeqNo(1)).unwrap();
    let snap = log.snapshot().unwrap();
    assert_eq!(snap.lower, SeqNo(1));
    assert_eq!(snap.upper, SeqNo(2));
    assert_eq!(snap.entries.len(), 1);
    assert_eq!(snap.entries[0].0, SeqNo(1));
    assert_eq!(snap.entries[0].1, b"b".to_vec());
}

#[test]
fn truncate_out_of_bounds_fails_without_change() {
    let mut log = open_log("path0", "reentrance0");
    assert_eq!(log.write_sync(b"entry0".to_vec()).unwrap(), SeqNo(0));
    assert_eq!(log.write_sync(b"entry1".to_vec()).unwrap(), SeqNo(1));
    log.truncate(SeqNo(1)).unwrap();

    // Below the current lower bound, and above the current upper bound.
    assert!(log.truncate(SeqNo(0)).is_err());
    assert!(log.truncate(SeqNo(3)).is_err());

    // The log is unmodified by the failures.
    let snap = log.snapshot().unwrap();
    assert_eq!(snap.lower, SeqNo(1));
    assert_eq!(snap.upper, SeqNo(2));
    assert_eq!(snap.entries.len(), 1);

    // Sequence numbers continue after truncation: never reused.
    assert_eq!(log.write_sync(b"entry2".to_vec()).unwrap(), SeqNo(2));
    log.truncate(SeqNo(3)).unwrap();
    assert!(log.snapshot().unwrap().entries.is_empty());
    assert_eq!(log.write_sync(b"entry3".to_vec()).unwrap(), SeqNo(3));
}

#[test]
fn log_lock_reentrance() {
    let mut log = MemLog::new("path0".to_string());
    let r0 = LockInfo::new("reentrance0".to_string(), "".to_string()).unwrap();
    let r0_again = LockInfo::new("reentrance0".to_string(), "other details".to_string()).unwrap();
    let r1 = LockInfo::new("reentrance1".to_string(), "".to_string()).unwrap();

    log.open(&r0).unwrap();
    assert_eq!(log.write_sync(b"entry0".to_vec()).unwrap(), SeqNo(0));

    // Reopening with the same reentrance id succeeds (crash recovery).
    log.open(&r0_again).unwrap();

    // A different reentrance id is refused while the lock is recorded, and
    // the error names the location.
    let err = log.open(&r1).unwrap_err();
    assert_eq!(
        err.message(),
        "location \"path0\" was already_locked:\nreentrance0\nother details"
    );

    // A clean close releases the lock; any id may then open.
    assert_eq!(log.close(), Ok(true));
    log.open(&r1).unwrap();
    assert_eq!(log.write_sync(b"entry1".to_vec()).unwrap(), SeqNo(1));
}

#[test]
fn log_closed_operations_fail() {
    let mut log = open_log("path0", "reentrance0");
    assert_eq!(log.write_sync(b"entry0".to_vec()).unwrap(), SeqNo(0));

    assert_eq!(log.close(), Ok(true));
    assert!(log.write_sync(b"entry1".to_vec()).is_err());
    assert!(log.snapshot().is_err());
    assert!(log.truncate(SeqNo(1)).is_err());

    // Close is idempotent and reports that it did no work.
    assert_eq!(log.close(), Ok(false));

    // Reopening after a close keeps the retained entries and the next
    // sequence number.
    let li = LockInfo::new("reentrance0".to_string(), "".to_string()).unwrap();
    log.open(&li).unwrap();
    assert_eq!(log.write_sync(b"entry1".to_vec()).unwrap(), SeqNo(1));
    let snap = log.snapshot().unwrap();
    assert_eq!(snap.entries.len(), 2);
}
