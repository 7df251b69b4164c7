//! The pending log: an in-memory write-ahead record of accepted events.
//!
//! Events enter at the tail when they are drained from the inbox, each with
//! the next sequence number, and leave only at the head, when the worker run
//! for the head event completed without preemption. The log never reorders
//! and never silently drops an accepted event.

use vstd::prelude::*;

verus! {

/// An event accepted into the pending log: the payload together with the
/// monotonic sequence number assigned at ingestion.
pub struct Event<E> {
    /// Assigned at ingestion; strictly increasing within one log.
    pub sequence: u64,
    /// The producer's payload, opaque to the executor.
    pub payload: E,
}

/// A commit that names a sequence other than the current head's is a
/// protocol violation: the log was mutated unexpectedly between dispatch
/// and commit. It is rejected, never applied.
#[derive(Clone, Copy, PartialEq, Eq, Debug)]
pub enum LogError {
    /// The sequence handed to `commit_head` is not the head's (or the log
    /// is empty).
    CommitMismatch,
}

/// Ordered record of accepted-but-uncommitted events, oldest first.
///
/// Insertion only at the tail (`append`), removal only at the head
/// (`commit_head`). The capacity bound mirrors the event inbox's bound;
/// the inbox's backpressure is the enforcement point, so `append` requires
/// room rather than failing.
pub struct PendingLog<E> {
    entries: Vec<Event<E>>,
    next_sequence: u64,
    capacity: usize,
}

impl<E> View for PendingLog<E> {
    type V = Seq<Event<E>>;

    /// The accepted, uncommitted events, oldest first.
    closed spec fn view(&self) -> Seq<Event<E>> {
        self.entries@
    }
}

impl<E> PendingLog<E> {
    /// The sequence number the next accepted event will receive.
    pub closed spec fn spec_next_sequence(&self) -> u64 {
        self.next_sequence
    }

    /// The capacity bound the log was created with.
    pub closed spec fn spec_capacity(&self) -> usize {
        self.capacity
    }

    /// An empty log whose first event will get sequence number zero.
    pub fn new(capacity: usize) -> (log: Self)
        ensures
            log@ == Seq::<Event<E>>::empty(),
            log.spec_next_sequence() == 0,
            log.spec_capacity() == capacity,
    {
        PendingLog { entries: Vec::new(), next_sequence: 0, capacity }
    }

    /// Number of uncommitted events.
    pub fn len(&self) -> (n: usize)
        ensures
            n == self@.len(),
    {
        self.entries.len()
    }

    /// Whether no uncommitted event remains.
    pub fn is_empty(&self) -> (empty: bool)
        ensures
            empty <==> self@.len() == 0,
    {
        self.entries.is_empty()
    }

    /// The capacity bound the log was created with.
    pub fn capacity(&self) -> (c: usize)
        ensures
            c == self.spec_capacity(),
    {
        self.capacity
    }

    /// The sequence number the next accepted event will receive.
    pub fn next_sequence(&self) -> (s: u64)
        ensures
            s == self.spec_next_sequence(),
    {
        self.next_sequence
    }

    /// Accepts a payload: assigns it the next sequence number and appends
    /// it at the tail. Callers must not append beyond capacity (upstream
    /// backpressure is the enforcement point), nor past sequence-number
    /// exhaustion.
    pub fn append(&mut self, payload: E) -> (sequence: u64)
        requires
            old(self)@.len() < old(self).spec_capacity(),
            old(self).spec_next_sequence() < u64::MAX,
        ensures
            sequence == old(self).spec_next_sequence(),
            final(self)@ == old(self)@.push((Event { sequence, payload })),
            final(self).spec_next_sequence() == old(self).spec_next_sequence() + 1,
            final(self).spec_capacity() == old(self).spec_capacity(),
    {
        let sequence = self.next_sequence;
        self.entries.push(Event { sequence, payload });
        self.next_sequence = self.next_sequence + 1;
        sequence
    }

    /// Read-only view of the oldest uncommitted event, if any.
    pub fn peek_head(&self) -> (head: Option<&Event<E>>)
        ensures
            match head {
                Some(e) => self@.len() > 0 && *e == self@[0],
                None => self@.len() == 0,
            },
    {
        if self.entries.len() == 0 {
            None
        } else {
            Some(&self.entries[0])
        }
    }

    /// Removes the head entry, but only if its sequence matches: a mismatch
    /// (or an empty log) signals a protocol violation and leaves the log
    /// unchanged. Committing is the sole way an event leaves the log.
    pub fn commit_head(&mut self, sequence: u64) -> (r: Result<(), LogError>)
        ensures
            final(self).spec_next_sequence() == old(self).spec_next_sequence(),
            final(self).spec_capacity() == old(self).spec_capacity(),
            old(self)@.len() > 0 && old(self)@[0].sequence == sequence ==> {
                &&& r is Ok
                &&& final(self)@ == old(self)@.subrange(1, old(self)@.len() as int)
            },
            !(old(self)@.len() > 0 && old(self)@[0].sequence == sequence) ==> {
                &&& r is Err
                &&& final(self)@ == old(self)@
            },
    {
        if self.entries.len() > 0 && self.entries[0].sequence == sequence {
            self.entries.remove(0);
            proof {
                assert(self.entries@ =~= old(self).entries@.subrange(
                    1,
                    old(self).entries@.len() as int,
                ));
            }
            Ok(())
        } else {
            Err(LogError::CommitMismatch)
        }
    }
}

} // verus!
