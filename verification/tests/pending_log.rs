use mequeue::wal::{LogError, PendingLog};

#[test]
fn append_assigns_consecutive_sequences() {
    let mut log: PendingLog<&str> = PendingLog::new(8);
    assert!(log.is_empty());
    assert_eq!(log.capacity(), 8);
    assert_eq!(log.next_sequence(), 0);

    assert_eq!(log.append("a"), 0);
    assert_eq!(log.append("b"), 1);
    assert_eq!(log.append("c"), 2);
    assert_eq!(log.len(), 3);
    assert_eq!(log.next_sequence(), 3);

    let head = log.peek_head().unwrap();
    assert_eq!(head.sequence, 0);
    assert_eq!(head.payload, "a");
}

#[test]
fn commit_head_in_order() {
    let mut log: PendingLog<u32> = PendingLog::new(4);
    log.append(10);
    log.append(20);

    assert_eq!(log.commit_head(0), Ok(()));
    assert_eq!(log.peek_head().unwrap().sequence, 1);
    assert_eq!(log.peek_head().unwrap().payload, 20);
    assert_eq!(log.commit_head(1), Ok(()));
    assert!(log.is_empty());
    assert_eq!(log.peek_head().map(|e| e.sequence), None);

    // Sequence numbers keep rising after commits.
    assert_eq!(log.append(30), 2);
}

#[test]
fn commit_head_mismatch_rejected() {
    let mut log: PendingLog<u32> = PendingLog::new(4);
    log.append(10);
    log.append(20);

    // Only the head's sequence commits; anything else is a protocol
    // violation and leaves the log unchanged.
    assert_eq!(log.commit_head(1), Err(LogError::CommitMismatch));
    assert_eq!(log.commit_head(7), Err(LogError::CommitMismatch));
    assert_eq!(log.len(), 2);
    assert_eq!(log.peek_head().unwrap().sequence, 0);

    // An empty log rejects every commit.
    let mut empty: PendingLog<u32> = PendingLog::new(4);
    assert_eq!(empty.commit_head(0), Err(LogError::CommitMismatch));
}
