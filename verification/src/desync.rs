//! The user-visible handle: a `Desync` owns a datum and a job queue and
//! serializes every access to the datum through that queue.
//!
//! This handle is the zero-cap configuration of the scheduler: every
//! submission executes on the caller's thread, so a synchronous call is
//! indistinguishable from a direct call and the queue is drained again —
//! quiescent — by the time any submission returns.  The thread-pool
//! configuration drives the same queue state machine through the
//! `scheduler` module from unverified worker threads.

use vstd::prelude::*;
use crate::job_queue::{Job, JobQueue, QueueState, QueueView};

verus! {

/// A data storage structure used to govern synchronous and asynchronous
/// access to an underlying object.
pub struct Desync<T> {
    /// Queue used for scheduling runtime for this object.
    queue: JobQueue,
    /// Data for this object; absent only while a job holds it.
    data: Option<T>,
    /// The tag handed to the next submitted job.
    next_job: u64,
}

impl<T> Desync<T> {
    /// The stored datum.
    pub closed spec fn datum(self) -> T {
        self.data->0
    }

    /// The handle's queue, as its mathematical model.
    pub closed spec fn queue_view(self) -> QueueView {
        self.queue@
    }

    /// Between calls the handle is well formed: the datum is present and
    /// its queue is quiescent — drained, idle, and not suspended.
    pub closed spec fn wf(self) -> bool {
        &&& self.data is Some
        &&& self.queue@.wf()
        &&& self.queue@.state == QueueState::Idle
        &&& self.queue@.jobs.len() == 0
        &&& self.queue@.suspension_count == 0
    }

    /// Creates a new `Desync` around a datum, with a fresh idle queue.
    pub fn new(data: T) -> (d: Desync<T>)
        ensures
            d.wf(),
            d.datum() == data,
    {
        Desync { queue: JobQueue::new(), data: Some(data), next_job: 0 }
    }

    /// The tag for the next job, counted up per submission.
    fn next_tag(&mut self) -> (tag: u64)
        ensures
            final(self).queue == old(self).queue,
            final(self).data == old(self).data,
    {
        let tag = self.next_job;
        if self.next_job < u64::MAX {
            self.next_job = self.next_job + 1;
        }
        tag
    }

    /// Performs an operation asynchronously on this item.  Jobs are
    /// always performed in the order that they are queued and always
    /// serialized with respect to this object; in this configuration the
    /// job runs on the caller's thread before the call returns.
    pub fn desync<F: FnOnce(T) -> T>(&mut self, job: F)
        requires
            old(self).wf(),
            call_requires(job, (old(self).datum(),)),
        ensures
            final(self).wf(),
            call_ensures(job, (old(self).datum(),), final(self).datum()),
    {
        let tag = self.next_tag();
        let _schedule = self.queue.submit(Job::Work(tag));
        // The caller's thread stands in for the woken worker.
        self.queue.begin_running();
        let _job = self.queue.dequeue();
        let value = self.data.take().unwrap();
        let value = job(value);
        self.data = Some(value);
        proof {
            assert(self.queue@.jobs =~= Seq::<Job>::empty());
        }
        self.queue.finish_running();
    }

    /// Performs an operation synchronously on this item: the job observes
    /// the datum after every previously submitted job and its result is
    /// returned to the caller.  The job takes the datum and returns the
    /// updated datum beside its result.
    pub fn sync<R, F: FnOnce(T) -> (T, R)>(&mut self, job: F) -> (r: R)
        requires
            old(self).wf(),
            call_requires(job, (old(self).datum(),)),
        ensures
            final(self).wf(),
            call_ensures(job, (old(self).datum(),), (final(self).datum(), r)),
    {
        let tag = self.next_tag();
        let _schedule = self.queue.submit(Job::Work(tag));
        self.queue.begin_running();
        let _job = self.queue.dequeue();
        let value = self.data.take().unwrap();
        let (value, result) = job(value);
        self.data = Some(value);
        proof {
            assert(self.queue@.jobs =~= Seq::<Job>::empty());
        }
        self.queue.finish_running();
        result
    }

    /// Takes the datum out of the handle, after draining the queue: what
    /// a drop of the handle does with the datum it owns.  The queue being
    /// quiescent between calls, no job can run after this returns.
    pub fn into_inner(self) -> (t: T)
        requires
            self.wf(),
        ensures
            t == self.datum(),
    {
        self.data.unwrap()
    }
}

/// Quiescence between calls: whenever the handle is handed back to the
/// caller, its queue has drained and is idle, so a synchronous call
/// returns only after every previously submitted job has completed, and
/// once the handle is dropped no further work on its queue executes.
pub proof fn lemma_quiescent_between_calls<T>(d: Desync<T>)
    requires
        d.wf(),
    ensures
        d.queue_view().state == QueueState::Idle,
        d.queue_view().jobs.len() == 0,
        d.queue_view().suspension_count == 0,
{
}

} // verus!

