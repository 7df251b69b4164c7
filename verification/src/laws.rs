//! The delivery laws, proved of the supervision machine's step function.
//!
//! Every transition of [`crate::machine::Machine`] is, by its contract, the
//! executable image of [`Model::step`], so each law below holds of every run
//! of the machine.

use vstd::prelude::*;

use crate::machine::{Action, Input, Model, Phase};
use crate::wal::Event;

verus! {

/// Whether an input is the clean completion of the task dispatched for the
/// head entry — the one and only way an entry leaves the log.
pub open spec fn commit_fires<S, E>(m: Model<S, E>, input: Input<S, E>) -> bool {
    match input {
        Input::Outcome(sequence, completed) => {
            &&& completed
            &&& m.phase == Phase::Dispatching(sequence)
            &&& m.log.len() > 0
        },
        _ => false,
    }
}

/// Buffering before the first state: an event accepted while no state has
/// been observed is retained at the log tail — nothing is lost, nothing is
/// dispatched, and the machine keeps awaiting a state.
pub proof fn lemma_buffering_before_first_state<S, E>(m: Model<S, E>, payload: E)
    requires
        m.wf(),
        m.phase is AwaitingState,
        m.log.len() < m.capacity,
        m.next_sequence < u64::MAX,
    ensures
        ({
            let (post, action) = m.step(Input::Event(payload));
            &&& action == Action::Wait
            &&& post.log == m.log.push((Event { sequence: m.next_sequence, payload }))
            &&& post.phase is AwaitingState
            &&& post.wf()
        }),
{
}

/// Batch form of buffering: a whole drain accepted while no state has been
/// observed is retained wholly, in arrival order with consecutive sequence
/// numbers, behind what the log already held; nothing is dispatched, and
/// the machine keeps awaiting a state.
pub proof fn lemma_batch_buffering<S, E>(m: Model<S, E>, payloads: Seq<E>)
    requires
        m.wf(),
        m.phase is AwaitingState,
        m.log.len() + payloads.len() <= m.capacity,
        m.next_sequence + payloads.len() <= u64::MAX,
    ensures
        ({
            let (post, action) = m.step_events(payloads);
            &&& action == Action::Wait
            &&& post.log.len() == m.log.len() + payloads.len()
            &&& forall|i: int| 0 <= i < m.log.len() ==> post.log[i] == m.log[i]
            &&& forall|i: int|
                0 <= i < payloads.len() ==> post.log[m.log.len() + i] == (Event {
                    sequence: (m.next_sequence + i) as u64,
                    payload: payloads[i],
                })
            &&& post.phase is AwaitingState
            &&& post.state == m.state
            &&& post.wf()
        }),
    decreases payloads.len(),
{
    if payloads.len() > 0 {
        let sub = payloads.subrange(1, payloads.len() as int);
        let (first, _) = m.step_event(payloads[0]);
        lemma_batch_buffering(first, sub);
        let (post, _) = first.step_events(sub);
        assert forall|i: int| 0 <= i < payloads.len() implies post.log[m.log.len() + i]
            == (Event { sequence: (m.next_sequence + i) as u64, payload: payloads[i] }) by {
            if i == 0 {
                // the first event of the batch stands where the old log ended
                assert(post.log[first.log.len() - 1] == first.log[first.log.len() - 1]);
            } else {
                // the rest stand behind it, one sequence number apart
                assert(post.log[first.log.len() + (i - 1)] == (Event {
                    sequence: (first.next_sequence + (i - 1)) as u64,
                    payload: sub[i - 1],
                }));
            }
        }
    }
}

/// The machine's invariant holds in every reachable state: it holds of a
/// fresh machine and every step preserves it (an event step needs the room
/// that the host's backpressure provides).
pub proof fn lemma_step_preserves_wf<S, E>(m: Model<S, E>, input: Input<S, E>)
    requires
        m.wf(),
        input is Event ==> m.log.len() < m.capacity && m.next_sequence < u64::MAX,
    ensures
        Model::<S, E>::init(m.capacity).wf(),
        m.step(input).0.wf(),
{
}

/// Dispatch on state: a state observed while no task runs and the log is
/// non-empty starts exactly one worker task, for the head entry — the
/// oldest accepted event — under that state. In particular, the first state
/// after a buffering period dispatches the first buffered event.
pub proof fn lemma_dispatch_on_state<S, E>(m: Model<S, E>, state: S)
    requires
        m.wf(),
        !(m.phase is Dispatching),
        m.log.len() > 0,
    ensures
        ({
            let (post, action) = m.step(Input::State(state));
            &&& action == Action::Start
            &&& post.log == m.log
            &&& post.state == Some(state)
            &&& post.phase == Phase::Dispatching(m.log[0].sequence)
            &&& post.wf()
        }),
{
}

/// Preemptive cancellation: a state observed while a task is active cancels
/// that task. The entry it was processing is not committed: the log is
/// unchanged, and the same head entry is dispatched again — under the new
/// state, before any newer entry.
pub proof fn lemma_preemption<S, E>(m: Model<S, E>, state: S)
    requires
        m.wf(),
        m.phase is Dispatching,
    ensures
        ({
            let (post, action) = m.step(Input::State(state));
            &&& action == Action::CancelThenStart
            &&& post.log == m.log
            &&& post.state == Some(state)
            &&& post.phase == Phase::Dispatching(m.log[0].sequence)
            &&& post.wf()
        }),
{
}

/// A clean completion commits exactly the head entry: it leaves the log,
/// every other entry moves up one place, and — while the log stays
/// non-empty — the next head is dispatched at once under the same state.
pub proof fn lemma_commit_removes_head<S, E>(m: Model<S, E>, sequence: u64)
    requires
        m.wf(),
        m.phase == Phase::Dispatching(sequence),
    ensures
        ({
            let (post, action) = m.step(Input::Outcome(sequence, true));
            &&& post.log == m.log.subrange(1, m.log.len() as int)
            &&& post.state == m.state
            &&& (m.log.len() > 1 ==> action == Action::Start
                && post.phase == Phase::Dispatching(m.log[1].sequence))
            &&& (m.log.len() == 1 ==> action == Action::Wait && post.phase is Idle)
            &&& post.wf()
        }),
{
}

/// FIFO commit order: under a stable state, the entries of a log
/// `[e1, e2, e3, ...]` commit in order — each completion removes exactly
/// the current head, and the next entry is dispatched only once its
/// predecessor has committed (the phase names the dispatched entry).
pub proof fn lemma_fifo_commit_order<S, E>(m: Model<S, E>)
    requires
        m.wf(),
        m.phase is Dispatching,
        m.log.len() >= 3,
    ensures
        ({
            let (m1, a1) = m.step(Input::Outcome(m.log[0].sequence, true));
            let (m2, a2) = m1.step(Input::Outcome(m.log[1].sequence, true));
            let (m3, _) = m2.step(Input::Outcome(m.log[2].sequence, true));
            &&& a1 == Action::Start
            &&& m1.log[0] == m.log[1]
            &&& m1.phase == Phase::Dispatching(m.log[1].sequence)
            &&& a2 == Action::Start
            &&& m2.log[0] == m.log[2]
            &&& m2.phase == Phase::Dispatching(m.log[2].sequence)
            &&& m3.log == m.log.subrange(3, m.log.len() as int)
            &&& m1.wf() && m2.wf() && m3.wf()
        }),
{
    let (m1, _) = m.step(Input::Outcome(m.log[0].sequence, true));
    let (m2, _) = m1.step(Input::Outcome(m.log[1].sequence, true));
    let (m3, _) = m2.step(Input::Outcome(m.log[2].sequence, true));
    assert(m2.log =~= m.log.subrange(2, m.log.len() as int));
    assert(m3.log =~= m.log.subrange(3, m.log.len() as int));
}

/// At-least-once, never silently dropped: a step removes an entry from the
/// log only by committing the head on the clean completion of the task
/// dispatched for it. Under every other input — new events, any number of
/// state changes, failed or stale outcomes — every accepted entry survives,
/// in order, at its position. An accepted event therefore stays in the log,
/// repeatedly redispatched, until some run of its own task completes.
/// This holds of every model, well-formed or not, which lets the run-level
/// law below make no assumption beyond the entry's presence.
pub proof fn lemma_no_silent_loss<S, E>(m: Model<S, E>, input: Input<S, E>)
    ensures
        ({
            let (post, _) = m.step(input);
            if commit_fires(m, input) {
                post.log == m.log.subrange(1, m.log.len() as int)
            } else {
                &&& post.log.len() >= m.log.len()
                &&& forall|i: int| 0 <= i < m.log.len() ==> post.log[i] == m.log[i]
            }
        }),
{
}

/// The cumulative effect of a whole run of inputs: the fold of `step`,
/// keeping the model and discarding the actions.
pub open spec fn run<S, E>(m: Model<S, E>, inputs: Seq<Input<S, E>>) -> Model<S, E>
    decreases inputs.len(),
{
    if inputs.len() == 0 {
        m
    } else {
        run(m.step(inputs[0]).0, inputs.subrange(1, inputs.len() as int))
    }
}

/// At-least-once over whole runs: however many inputs follow — new events,
/// any number of state changes, failed or stale outcomes — an entry that
/// has left the log did so at some step at which it stood at the head and
/// the task dispatched for it completed cleanly. An accepted event is never
/// dropped any other way.
pub proof fn lemma_trace_at_least_once<S, E>(
    m: Model<S, E>,
    inputs: Seq<Input<S, E>>,
    entry: Event<E>,
)
    requires
        m.log.contains(entry),
        !run(m, inputs).log.contains(entry),
    ensures
        exists|k: int|
            #![auto]
            0 <= k < inputs.len() && commit_fires(run(m, inputs.subrange(0, k)), inputs[k])
                && run(m, inputs.subrange(0, k)).log[0] == entry,
    decreases inputs.len(),
{
    assert(inputs.len() > 0);
    let (m1, _) = m.step(inputs[0]);
    let rest = inputs.subrange(1, inputs.len() as int);
    lemma_no_silent_loss(m, inputs[0]);
    let j = choose|j: int| 0 <= j < m.log.len() && m.log[j] == entry;
    if m1.log.contains(entry) {
        lemma_trace_at_least_once(m1, rest, entry);
        let k1 = choose|k: int|
            #![auto]
            0 <= k < rest.len() && commit_fires(run(m1, rest.subrange(0, k)), rest[k])
                && run(m1, rest.subrange(0, k)).log[0] == entry;
        // the witness for the tail run, shifted one step back
        let prefix = inputs.subrange(0, k1 + 1);
        assert(prefix.subrange(1, prefix.len() as int) =~= rest.subrange(0, k1));
        assert(run(m, prefix) == run(m1, rest.subrange(0, k1)));
        assert(inputs[k1 + 1] == rest[k1]);
        assert(0 <= k1 + 1 < inputs.len() && commit_fires(
            run(m, inputs.subrange(0, k1 + 1)),
            inputs[k1 + 1],
        ) && run(m, inputs.subrange(0, k1 + 1)).log[0] == entry);
    } else {
        // the entry left at this very step, so this step is a commit and
        // the entry was the head
        if commit_fires(m, inputs[0]) {
            if j >= 1 {
                assert(m1.log[j - 1] == entry);
                assert(false);
            }
            assert(inputs.subrange(0, 0) =~= Seq::<Input<S, E>>::empty());
            assert(run(m, inputs.subrange(0, 0)) == m);
            assert(0 <= 0 < inputs.len() && commit_fires(run(m, inputs.subrange(0, 0)), inputs[0])
                && run(m, inputs.subrange(0, 0)).log[0] == entry);
        } else {
            assert(m1.log[j] == entry);
            assert(false);
        }
    }
}

} // verus!
