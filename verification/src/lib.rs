//! A single-consumer event-processing core with at-least-once delivery.
//!
//! Producers enqueue events; a control stream publishes processing states.
//! An in-memory write-ahead log keeps every accepted event until the worker
//! run for it completes uninterrupted; a newer state preempts in-flight work,
//! and the preempted event is replayed from the log against the new state.
//!
//! The verified core is the pending log ([`wal`]) and the supervision state
//! machine ([`machine`]); the asynchronous channel and task wiring around it
//! is ordinary host code.

pub mod laws;
pub mod machine;
pub mod wal;
