use mequeue::machine::{Action, Machine};

// The defining scenario: capacity 12; an event arrives before any state, so
// nothing runs; the first state starts a worker for (state 0, event 0); a
// second state published while that worker still runs cancels it without a
// commit and restarts the same event under the new state: (state 1, event 0).
#[test]
fn wal() {
    let mut m: Machine<u8, u8> = Machine::new(12);

    // Send event to the executor, but no state yet: no worker may start.
    assert_eq!(m.on_event(0u8), Action::Wait);
    assert_eq!(m.active_sequence(), None);

    // Publish the first state: exactly one worker starts, for the head.
    assert_eq!(m.on_state(0u8), Action::Start);
    let state = *m.current_state().unwrap();
    let event = m.peek_head().unwrap().payload;
    assert_eq!((state, event), (0, 0));

    // The worker never finishes on its own. Publishing a new state aborts
    // it; the event was not processed, so the log still holds it, and the
    // restarted worker gets the same event under the new state.
    assert_eq!(m.on_state(1u8), Action::CancelThenStart);
    assert_eq!(m.len(), 1);
    let state = *m.current_state().unwrap();
    let event = m.peek_head().unwrap().payload;
    assert_eq!((state, event), (1, 0));
}

#[test]
fn buffering_before_first_state() {
    let mut m: Machine<&str, u32> = Machine::new(8);
    assert_eq!(m.on_event(10), Action::Wait);
    assert_eq!(m.on_event(20), Action::Wait);
    assert_eq!(m.on_event(30), Action::Wait);
    assert_eq!(m.len(), 3);
    assert_eq!(m.current_state(), None);
    assert_eq!(m.active_sequence(), None);

    // The first state dispatches the oldest buffered event.
    assert_eq!(m.on_state("ctx"), Action::Start);
    let head = m.peek_head().unwrap();
    assert_eq!(head.sequence, 0);
    assert_eq!(head.payload, 10);
    assert_eq!(m.active_sequence(), Some(0));
    assert_eq!(m.len(), 3);
}

#[test]
fn dispatch_on_state_starts_head() {
    let mut m: Machine<u8, u8> = Machine::new(4);
    assert_eq!(m.on_event(42), Action::Wait);
    assert_eq!(m.on_state(7), Action::Start);
    assert_eq!(m.peek_head().unwrap().payload, 42);
    assert_eq!(*m.current_state().unwrap(), 7);
}

#[test]
fn dispatch_on_event_when_idle() {
    let mut m: Machine<u8, u8> = Machine::new(4);
    // A state with an empty log leaves the machine idle.
    assert_eq!(m.on_state(9), Action::Wait);
    assert_eq!(m.active_sequence(), None);
    // An event arriving while idle is dispatched at once.
    assert_eq!(m.on_event(5), Action::Start);
    assert_eq!(m.active_sequence(), Some(0));
    assert_eq!(m.peek_head().unwrap().payload, 5);
}

#[test]
fn preemption_keeps_event_uncommitted() {
    let mut m: Machine<u8, u8> = Machine::new(4);
    assert_eq!(m.on_event(1), Action::Wait);
    assert_eq!(m.on_event(2), Action::Wait);
    assert_eq!(m.on_state(0), Action::Start);
    assert_eq!(m.active_sequence(), Some(0));

    // Preempt repeatedly: the head is never committed, never skipped.
    for s in 1..5u8 {
        assert_eq!(m.on_state(s), Action::CancelThenStart);
        assert_eq!(m.len(), 2);
        assert_eq!(m.peek_head().unwrap().payload, 1);
        assert_eq!(m.active_sequence(), Some(0));
    }
}

#[test]
fn fifo_commit_order() {
    let mut m: Machine<u8, u8> = Machine::new(8);
    assert_eq!(m.on_event(11), Action::Wait);
    assert_eq!(m.on_event(22), Action::Wait);
    assert_eq!(m.on_event(33), Action::Wait);
    assert_eq!(m.on_state(0), Action::Start);

    // e1 commits first; only then is e2 dispatched, then e3.
    assert_eq!(m.active_sequence(), Some(0));
    assert_eq!(m.on_task_outcome(0, true), Action::Start);
    assert_eq!(m.active_sequence(), Some(1));
    assert_eq!(m.peek_head().unwrap().payload, 22);
    assert_eq!(m.on_task_outcome(1, true), Action::Start);
    assert_eq!(m.active_sequence(), Some(2));
    assert_eq!(m.peek_head().unwrap().payload, 33);
    assert_eq!(m.on_task_outcome(2, true), Action::Wait);
    assert!(m.is_empty());
    assert_eq!(m.active_sequence(), None);

    // Draining continued under the same state throughout.
    assert_eq!(*m.current_state().unwrap(), 0);
}

#[test]
fn at_least_once_across_state_changes() {
    let mut m: Machine<u32, u8> = Machine::new(4);
    assert_eq!(m.on_event(99), Action::Wait);
    assert_eq!(m.on_state(0), Action::Start);

    // However many states supersede each other, the accepted event stays in
    // the log and is redispatched, until one of its runs completes.
    for s in 1..100u32 {
        assert_eq!(m.on_state(s), Action::CancelThenStart);
        assert_eq!(m.len(), 1);
        assert_eq!(m.peek_head().unwrap().payload, 99);
    }
    assert_eq!(m.on_task_outcome(0, true), Action::Wait);
    assert!(m.is_empty());
}

#[test]
fn failed_outcome_retries_same_head() {
    let mut m: Machine<u8, u8> = Machine::new(4);
    assert_eq!(m.on_event(5), Action::Wait);
    assert_eq!(m.on_state(0), Action::Start);

    // Commit only on explicit success: a failed run does not commit, and
    // the same head is dispatched again under the same state.
    assert_eq!(m.on_task_outcome(0, false), Action::Start);
    assert_eq!(m.len(), 1);
    assert_eq!(m.peek_head().unwrap().payload, 5);
    assert_eq!(m.active_sequence(), Some(0));
    assert_eq!(*m.current_state().unwrap(), 0);

    // A later clean run commits it.
    assert_eq!(m.on_task_outcome(0, true), Action::Wait);
    assert!(m.is_empty());
}

#[test]
fn stale_outcome_is_ignored() {
    let mut m: Machine<u8, u8> = Machine::new(4);
    assert_eq!(m.on_event(1), Action::Wait);
    assert_eq!(m.on_state(0), Action::Start);

    // An outcome for a sequence other than the active dispatch (a task that
    // was already preempted) changes nothing.
    assert_eq!(m.on_task_outcome(3, true), Action::Wait);
    assert_eq!(m.len(), 1);
    assert_eq!(m.active_sequence(), Some(0));

    // So does any outcome while no task is active.
    let mut idle: Machine<u8, u8> = Machine::new(4);
    assert_eq!(idle.on_task_outcome(0, true), Action::Wait);
    assert!(idle.is_empty());
}

#[test]
fn drain_batch_in_arrival_order() {
    let mut m: Machine<u8, u8> = Machine::new(8);
    // A batch before any state buffers wholly, in arrival order.
    assert_eq!(m.on_events(vec![1, 2]), Action::Wait);
    assert_eq!(m.len(), 2);
    assert_eq!(m.on_state(0), Action::Start);
    assert_eq!(m.peek_head().unwrap().payload, 1);

    // A batch while a task runs waits its turn.
    assert_eq!(m.on_events(vec![3, 4]), Action::Wait);
    assert_eq!(m.len(), 4);

    // Commits then drain the whole backlog in order under the same state.
    assert_eq!(m.on_task_outcome(0, true), Action::Start);
    assert_eq!(m.peek_head().unwrap().payload, 2);
    assert_eq!(m.on_task_outcome(1, true), Action::Start);
    assert_eq!(m.peek_head().unwrap().payload, 3);
    assert_eq!(m.on_task_outcome(2, true), Action::Start);
    assert_eq!(m.peek_head().unwrap().payload, 4);
    assert_eq!(m.on_task_outcome(3, true), Action::Wait);
    assert!(m.is_empty());
}

#[test]
fn drain_batch_when_idle_starts_first() {
    let mut m: Machine<u8, u8> = Machine::new(8);
    assert_eq!(m.on_state(0), Action::Wait);

    // An idle machine starts a worker for the first event of the batch.
    assert_eq!(m.on_events(vec![7, 8]), Action::Start);
    assert_eq!(m.peek_head().unwrap().payload, 7);
    assert_eq!(m.active_sequence(), Some(0));

    // An empty drain changes nothing.
    assert_eq!(m.on_events(vec![]), Action::Wait);
    assert_eq!(m.len(), 2);
}

#[test]
fn room_tracks_capacity() {
    let mut m: Machine<u8, u8> = Machine::new(3);
    assert_eq!(m.room(), 3);
    assert_eq!(m.on_event(1), Action::Wait);
    assert_eq!(m.room(), 2);
    assert_eq!(m.on_events(vec![2, 3]), Action::Wait);
    assert_eq!(m.room(), 0);
    assert!(!m.has_room());
}

#[test]
fn backpressure_room() {
    let mut m: Machine<u8, u8> = Machine::new(2);
    assert_eq!(m.capacity(), 2);
    assert!(m.has_room());
    assert_eq!(m.on_event(1), Action::Wait);
    assert!(m.has_room());
    assert_eq!(m.on_event(2), Action::Wait);
    assert!(!m.has_room());
    assert_eq!(m.len(), 2);

    // Committing the head makes room again.
    assert_eq!(m.on_state(0), Action::Start);
    assert_eq!(m.on_task_outcome(0, true), Action::Start);
    assert!(m.has_room());
}
