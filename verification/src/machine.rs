//! The executor's supervision state machine.
//!
//! The machine owns the pending log, the most recently observed state, and
//! the identity of the at-most-one active worker task. The host loop feeds
//! it one input at a time — an event drained from the inbox, a state from
//! the state channel, or the outcome of the active task — and performs the
//! [`Action`] the machine returns: starting a worker task, or cancelling the
//! active one and then starting its replacement.
//!
//! Every transition is the executable image of the ghost step function on
//! [`Model`]; the delivery laws are proved of that step function and so
//! hold of every run of the machine.

use vstd::prelude::*;

use crate::wal::{Event, PendingLog};

verus! {

/// The supervision loop's phase.
#[derive(Clone, Copy, PartialEq, Eq, Debug, Structural)]
pub enum Phase {
    /// No state observed yet: events buffer in the log, nothing is
    /// dispatched.
    AwaitingState,
    /// A state has been observed, the log is empty, no worker task runs.
    Idle,
    /// A worker task runs for the log's head entry; the field is that
    /// entry's sequence number.
    Dispatching(u64),
}

/// What the host loop must do after feeding the machine one input.
#[derive(Clone, Copy, PartialEq, Eq, Debug, Structural)]
pub enum Action {
    /// Nothing to start: keep waiting on the channels (and, while a task is
    /// active, on its completion).
    Wait,
    /// Start exactly one worker task for the current log head under the
    /// current state.
    Start,
    /// Cancel the active worker task unconditionally, confirm its teardown,
    /// then start one for the current log head under the current state.
    CancelThenStart,
}

/// One input to the supervision machine, as the step function sees it.
pub enum Input<S, E> {
    /// An event drained from the inbox.
    Event(E),
    /// A state published on the state channel.
    State(S),
    /// The active worker task ended: the sequence it was dispatched for and
    /// whether it completed cleanly (`true`) or failed (`false`).
    Outcome(u64, bool),
}

/// Ghost model of the machine: the log contents, the sequence counter and
/// the capacity bound, the current state, and the phase.
#[verifier::ext_equal]
pub struct Model<S, E> {
    /// The pending log's entries, oldest first.
    pub log: Seq<Event<E>>,
    /// The sequence number the next accepted event will receive.
    pub next_sequence: u64,
    /// The bound the log was created with; mirrors the inbox bound.
    pub capacity: usize,
    /// The most recently observed state, absent before the first one.
    pub state: Option<S>,
    /// The supervision phase.
    pub phase: Phase,
}

impl<S, E> Model<S, E> {
    /// The machine's invariant: the log is within its bound, entries carry
    /// consecutive sequence numbers ending just below `next_sequence`, a
    /// state is held exactly from the first observation on, idleness means
    /// an empty log, and an active dispatch is always for the head entry.
    pub open spec fn wf(self) -> bool {
        &&& self.log.len() <= self.capacity
        &&& self.log.len() <= self.next_sequence
        &&& forall|i: int|
            0 <= i < self.log.len() ==> (#[trigger] self.log[i]).sequence
                == self.next_sequence - self.log.len() + i
        &&& (self.phase is AwaitingState <==> self.state is None)
        &&& (self.phase is Idle ==> self.log.len() == 0)
        &&& (self.phase matches Phase::Dispatching(d)
            ==> self.log.len() > 0 && self.log[0].sequence == d)
    }

    /// The model of a freshly created machine.
    pub open spec fn init(capacity: usize) -> Model<S, E> {
        Model {
            log: Seq::empty(),
            next_sequence: 0,
            capacity,
            state: None,
            phase: Phase::AwaitingState,
        }
    }

    /// The transition function: the model after one input, and the action
    /// the host loop must take.
    pub open spec fn step(self, input: Input<S, E>) -> (Model<S, E>, Action) {
        match input {
            Input::Event(payload) => self.step_event(payload),
            Input::State(state) => self.step_state(state),
            Input::Outcome(sequence, completed) => self.step_outcome(sequence, completed),
        }
    }

    /// An event is accepted: appended at the tail with the next sequence
    /// number. Only an idle machine starts a task for it at once; otherwise
    /// the event waits its turn in the log.
    pub open spec fn step_event(self, payload: E) -> (Model<S, E>, Action) {
        let entry = (Event { sequence: self.next_sequence, payload });
        let appended = Model {
            log: self.log.push(entry),
            next_sequence: (self.next_sequence + 1) as u64,
            ..self
        };
        if self.phase is Idle {
            (Model { phase: Phase::Dispatching(self.next_sequence), ..appended }, Action::Start)
        } else {
            (appended, Action::Wait)
        }
    }

    /// A whole batch of drained events, accepted in arrival order: the fold
    /// of `step_event`. At most one task start can result — for the first
    /// event of the batch, and only if the machine was idle.
    pub open spec fn step_events(self, payloads: Seq<E>) -> (Model<S, E>, Action)
        decreases payloads.len(),
    {
        if payloads.len() == 0 {
            (self, Action::Wait)
        } else {
            let (first, started) = self.step_event(payloads[0]);
            let (rest, later) = first.step_events(payloads.subrange(1, payloads.len() as int));
            (rest, if started == Action::Start { Action::Start } else { later })
        }
    }

    /// A state is observed: it becomes current unconditionally. An active
    /// task is preempted (cancelled, never committed); the entry it was
    /// processing stays in the log at its position and is dispatched again,
    /// under the new state, before any newer entry. With no task active,
    /// a non-empty log starts dispatching its head under the new state.
    pub open spec fn step_state(self, state: S) -> (Model<S, E>, Action) {
        let action = if self.phase is Dispatching {
            Action::CancelThenStart
        } else if self.log.len() > 0 {
            Action::Start
        } else {
            Action::Wait
        };
        let phase = if self.log.len() > 0 {
            Phase::Dispatching(self.log[0].sequence)
        } else {
            Phase::Idle
        };
        (Model { state: Some(state), phase, ..self }, action)
    }

    /// The active task ended. On clean completion its entry — the head — is
    /// committed, and draining continues under the same state while the log
    /// is non-empty. This design commits only on explicit success: a failed
    /// run is treated like a cancelled one, no commit, the same head is
    /// dispatched again under the same state (at-least-once; a persistently
    /// failing worker therefore retries the same event). An outcome whose
    /// sequence is not the active dispatch's is stale and is ignored.
    pub open spec fn step_outcome(self, sequence: u64, completed: bool) -> (Model<S, E>, Action) {
        if self.phase == Phase::Dispatching(sequence) && self.log.len() > 0 {
            if completed {
                let log = self.log.subrange(1, self.log.len() as int);
                if log.len() > 0 {
                    (
                        Model { log, phase: Phase::Dispatching(log[0].sequence), ..self },
                        Action::Start,
                    )
                } else {
                    (Model { log, phase: Phase::Idle, ..self }, Action::Wait)
                }
            } else {
                (self, Action::Start)
            }
        } else {
            (self, Action::Wait)
        }
    }
}

/// The executor's supervision machine: the pending log, the current state,
/// and the phase. The host loop is its only driver; it is the sole writer
/// and remover of log entries.
pub struct Machine<S, E> {
    log: PendingLog<E>,
    state: Option<S>,
    phase: Phase,
}

impl<S, E> View for Machine<S, E> {
    type V = Model<S, E>;

    closed spec fn view(&self) -> Model<S, E> {
        Model {
            log: self.log@,
            next_sequence: self.log.spec_next_sequence(),
            capacity: self.log.spec_capacity(),
            state: self.state,
            phase: self.phase,
        }
    }
}

impl<S, E> Machine<S, E> {
    /// The machine's invariant; established by `new`, preserved by every
    /// transition.
    pub open spec fn wf(&self) -> bool {
        self@.wf()
    }

    /// A machine that has observed nothing: empty log, no state, awaiting
    /// the first state before any dispatch.
    pub fn new(capacity: usize) -> (machine: Self)
        ensures
            machine.wf(),
            machine@ == Model::<S, E>::init(capacity),
    {
        let machine = Machine {
            log: PendingLog::new(capacity),
            state: None,
            phase: Phase::AwaitingState,
        };
        proof {
            assert(machine@ =~= Model::<S, E>::init(capacity));
        }
        machine
    }

    /// Feeds the machine one event drained from the inbox. The host loop
    /// calls this only while `has_room` holds: the inbox's backpressure is
    /// the enforcement point of the shared capacity bound.
    pub fn on_event(&mut self, payload: E) -> (action: Action)
        requires
            old(self).wf(),
            old(self)@.log.len() < old(self)@.capacity,
            old(self)@.next_sequence < u64::MAX,
        ensures
            final(self).wf(),
            (final(self)@, action) == old(self)@.step_event(payload),
    {
        let sequence = self.log.append(payload);
        if self.phase == Phase::Idle {
            self.phase = Phase::Dispatching(sequence);
            Action::Start
        } else {
            Action::Wait
        }
    }

    /// Feeds the machine a whole batch drained from the inbox, in arrival
    /// order, each event getting the next sequence number. The host loop
    /// bounds the batch by `room`, the enforcement point of the shared
    /// capacity bound.
    pub fn on_events(&mut self, payloads: Vec<E>) -> (action: Action)
        requires
            old(self).wf(),
            old(self)@.log.len() + payloads@.len() <= old(self)@.capacity,
            old(self)@.next_sequence + payloads@.len() <= u64::MAX,
        ensures
            final(self).wf(),
            (final(self)@, action) == old(self)@.step_events(payloads@),
    {
        let ghost initial = self@;
        let ghost all = payloads@;
        let mut action = Action::Wait;
        proof {
            assert(all.subrange(0, all.len() as int) =~= all);
        }
        for payload in it: payloads.into_iter()
            invariant
                self.wf(),
                it.seq() == all,
                0 <= it.index() <= all.len(),
                self@.log.len() + (all.len() - it.index()) <= self@.capacity,
                self@.next_sequence + (all.len() - it.index()) <= u64::MAX,
                action == Action::Wait || action == Action::Start,
                initial.step_events(all) == ({
                    let (rest, later) = self@.step_events(
                        all.subrange(it.index() as int, all.len() as int),
                    );
                    (rest, if action == Action::Start { Action::Start } else { later })
                }),
        {
            let ghost index = it.index();
            let started = self.on_event(payload);
            if started == Action::Start {
                action = Action::Start;
            }
            proof {
                assert(all.subrange(index as int, all.len() as int).subrange(
                    1,
                    all.len() - index,
                ) =~= all.subrange(index + 1, all.len() as int));
            }
        }
        proof {
            assert(all.subrange(all.len() as int, all.len() as int) =~= Seq::<E>::empty());
        }
        action
    }

    /// Feeds the machine one state from the state channel. On
    /// `Action::CancelThenStart` the host must cancel the active task and
    /// confirm its teardown before starting the replacement; the preempted
    /// entry is not committed and remains the head.
    pub fn on_state(&mut self, state: S) -> (action: Action)
        requires
            old(self).wf(),
        ensures
            final(self).wf(),
            (final(self)@, action) == old(self)@.step_state(state),
    {
        let action = if matches!(self.phase, Phase::Dispatching(_)) {
            Action::CancelThenStart
        } else if self.log.is_empty() {
            Action::Wait
        } else {
            Action::Start
        };
        self.state = Some(state);
        if self.log.is_empty() {
            self.phase = Phase::Idle;
        } else {
            let head_sequence = match self.log.peek_head() {
                Some(e) => e.sequence,
                None => unreached(),
            };
            self.phase = Phase::Dispatching(head_sequence);
        }
        action
    }

    /// Feeds the machine the outcome of the active worker task: committed
    /// on clean completion (`completed`), retried otherwise. The commit
    /// cannot be rejected: the machine's invariant keeps the dispatched
    /// sequence equal to the head's.
    pub fn on_task_outcome(&mut self, sequence: u64, completed: bool) -> (action: Action)
        requires
            old(self).wf(),
        ensures
            final(self).wf(),
            (final(self)@, action) == old(self)@.step_outcome(sequence, completed),
    {
        let matches_active = match self.phase {
            Phase::Dispatching(d) => d == sequence,
            _ => false,
        };
        if !matches_active {
            return Action::Wait;
        }
        if !completed {
            return Action::Start;
        }
        let committed = self.log.commit_head(sequence);
        // the invariant keeps the dispatched sequence equal to the head's,
        // so the commit cannot have been rejected
        assert(committed is Ok);
        if self.log.is_empty() {
            self.phase = Phase::Idle;
            Action::Wait
        } else {
            let head_sequence = match self.log.peek_head() {
                Some(e) => e.sequence,
                None => unreached(),
            };
            self.phase = Phase::Dispatching(head_sequence);
            Action::Start
        }
    }

    /// Whether the machine may accept one more event: room in the log and
    /// sequence numbers not exhausted. The host loop drains the inbox only
    /// while this holds, which gives producers backpressure.
    pub fn has_room(&self) -> (room: bool)
        ensures
            room <==> (self@.log.len() < self@.capacity && self@.next_sequence < u64::MAX),
    {
        self.log.len() < self.log.capacity() && self.log.next_sequence() < u64::MAX
    }

    /// How many more events the machine may accept in one batch: the
    /// remaining log capacity, further limited by the remaining sequence
    /// numbers. The host loop bounds each inbox drain by this.
    pub fn room(&self) -> (n: usize)
        requires
            self.wf(),
        ensures
            self@.log.len() + n <= self@.capacity,
            self@.next_sequence + n <= u64::MAX,
            n == vstd::math::min(
                self@.capacity - self@.log.len(),
                u64::MAX - self@.next_sequence,
            ),
    {
        let by_capacity = self.log.capacity() - self.log.len();
        let by_sequence = u64::MAX - self.log.next_sequence();
        if (by_capacity as u64) <= by_sequence {
            by_capacity
        } else {
            by_sequence as usize
        }
    }

    /// Read-only view of the oldest uncommitted event, if any: the entry
    /// any `Start` or `CancelThenStart` action dispatches.
    pub fn peek_head(&self) -> (head: Option<&Event<E>>)
        ensures
            match head {
                Some(e) => self@.log.len() > 0 && *e == self@.log[0],
                None => self@.log.len() == 0,
            },
    {
        self.log.peek_head()
    }

    /// The most recently observed state, if any.
    pub fn current_state(&self) -> (state: Option<&S>)
        ensures
            match state {
                Some(s) => self@.state == Some(*s),
                None => self@.state is None,
            },
    {
        match &self.state {
            Some(s) => Some(s),
            None => None,
        }
    }

    /// The sequence number the active worker task was dispatched for, if a
    /// task is active.
    pub fn active_sequence(&self) -> (sequence: Option<u64>)
        ensures
            match sequence {
                Some(d) => self@.phase == Phase::Dispatching(d),
                None => !(self@.phase is Dispatching),
            },
    {
        match self.phase {
            Phase::Dispatching(d) => Some(d),
            _ => None,
        }
    }

    /// Number of uncommitted events in the log.
    pub fn len(&self) -> (n: usize)
        ensures
            n == self@.log.len(),
    {
        self.log.len()
    }

    /// Whether no uncommitted event remains.
    pub fn is_empty(&self) -> (empty: bool)
        ensures
            empty <==> self@.log.len() == 0,
    {
        self.log.is_empty()
    }

    /// The capacity bound the machine was created with.
    pub fn capacity(&self) -> (c: usize)
        ensures
            c == self@.capacity,
    {
        self.log.capacity()
    }
}

} // verus!
