//! Serialized access to owned data through per-datum job queues.
//!
//! Every protected datum is bound to a job queue; jobs on one queue run one
//! at a time in submission order, while distinct queues may run in parallel
//! on a shared pool of worker threads.  This crate verifies the decision
//! core of that design: the queue state machine, the scheduler's run-list
//! and worker accounting, the synchronous-submission protocol, and the
//! stream-to-queue bridge.  The threaded shell that drives these decisions
//! lives outside the verified library.

pub mod job_queue;
pub mod scheduler;
pub mod desync;
pub mod pipe;
