//! The scheduler core: the run-list of queues awaiting a thread, the pool
//! of workers, and the configured thread cap.
//!
//! Queues are owned by the scheduler and named by index.  A worker is
//! modelled by its busy flag; the thread that carries it, the parking and
//! the signalling live outside the verified library, which decides here
//! when a queue is placed on the run-list, when a worker is woken or
//! spawned, and how a synchronous submission cooperates with the pool.

use vstd::prelude::*;
use std::collections::VecDeque;
use crate::job_queue::{Job, JobQueue, QueueState, QueueView};

verus! {

/// The smallest thread cap a scheduler starts with on a hosted target.
pub const MIN_THREADS: usize = 8;

/// Relies on num_cpus::get for the number of logical CPUs of the machine
/// the process runs on.  Nothing is assumed of the value: the cap computed
/// from it is verified for every outcome.
#[verifier::external_body]
fn logical_cpu_count() -> usize {
    num_cpus::get()
}

/// The thread cap for a machine with `cpus` logical CPUs: twice the CPU
/// count, saturated at the pointer width, but never below `MIN_THREADS`.
pub fn max_threads_for(cpus: usize) -> (cap: usize)
    ensures
        cap == ({
            let doubled: int = if 2 * cpus <= usize::MAX {
                2 * cpus
            } else {
                usize::MAX as int
            };
            if doubled > MIN_THREADS {
                doubled
            } else {
                MIN_THREADS as int
            }
        }),
        cap >= MIN_THREADS,
{
    let doubled: usize = if cpus <= usize::MAX / 2 {
        2 * cpus
    } else {
        usize::MAX
    };
    if doubled > MIN_THREADS {
        doubled
    } else {
        MIN_THREADS
    }
}

/// The default thread cap: at least `MIN_THREADS`, twice the CPU count
/// where that is more.
pub fn initial_max_threads() -> (cap: usize)
    ensures
        cap >= MIN_THREADS,
{
    max_threads_for(logical_cpu_count())
}

/// How a synchronous submission is run, chosen atomically from the state
/// of its queue.
#[derive(Clone, Copy, PartialEq, Eq, Structural, Debug)]
pub enum SyncAction {
    /// The queue was idle: run the job on the caller's thread at once.
    Immediate,
    /// The queue had buffered jobs but no thread: the caller drains the
    /// queue itself until the submitted job has produced its result.
    DrainOnThisThread,
    /// The queue is busy in the background: the job was appended and the
    /// caller blocks until a worker completes it.
    WaitForBackground,
}

/// Whether some worker in `threads` is idle.
pub open spec fn has_idle(threads: Seq<bool>) -> bool {
    exists|i: int| 0 <= i < threads.len() && !threads[i]
}

/// How the worker pool changes when the scheduler tries to find a thread
/// for run-list work: an idle worker is woken, or a new one is spawned
/// while the pool is under `cap`, or nothing changes.
pub open spec fn thread_woken(before: Seq<bool>, after: Seq<bool>, cap: nat) -> bool {
    if has_idle(before) {
        exists|i: int| 0 <= i < before.len() && !before[i] && after == before.update(i, true)
    } else if before.len() < cap {
        after == before.push(true)
    } else {
        after == before
    }
}

/// The mathematical model of the scheduler: its queues, the run-list of
/// queue indices awaiting a thread, the busy flag of each worker, and the
/// thread cap.
pub struct SchedulerView {
    pub queues: Seq<QueueView>,
    pub schedule: Seq<usize>,
    pub threads: Seq<bool>,
    pub max_threads: nat,
}

impl SchedulerView {
    /// The scheduler is well formed when the run-list names only existing
    /// queues whose state is `Pending`, names no queue twice, and every
    /// queue is itself well formed.
    pub open spec fn wf(self) -> bool {
        &&& forall|i: int|
            0 <= i < self.schedule.len() ==> (#[trigger] self.schedule[i]) < self.queues.len()
                && self.queues[self.schedule[i] as int].state == QueueState::Pending
        &&& forall|i: int, j: int|
            0 <= i < j < self.schedule.len() ==> self.schedule[i] != self.schedule[j]
        &&& forall|i: int| 0 <= i < self.queues.len() ==> (#[trigger] self.queues[i]).wf()
    }
}

/// The scheduler: a set of job queues, the run-list of queues awaiting a
/// thread, the worker pool, and the thread cap.
pub struct Scheduler {
    queues: Vec<JobQueue>,
    schedule: VecDeque<usize>,
    threads: Vec<bool>,
    max_threads: usize,
}

impl View for Scheduler {
    type V = SchedulerView;

    closed spec fn view(&self) -> SchedulerView {
        SchedulerView {
            queues: self.queues@.map_values(|q: JobQueue| q@),
            schedule: self.schedule@,
            threads: self.threads@,
            max_threads: self.max_threads as nat,
        }
    }
}

impl Scheduler {
    /// Creates a new scheduler with no queues, no workers, and the default
    /// thread cap.
    pub fn new() -> (s: Scheduler)
        ensures
            s@.wf(),
            s@.queues.len() == 0,
            s@.schedule.len() == 0,
            s@.threads.len() == 0,
            s@.max_threads >= MIN_THREADS,
    {
        Scheduler {
            queues: Vec::new(),
            schedule: VecDeque::new(),
            threads: Vec::new(),
            max_threads: initial_max_threads(),
        }
    }

    /// Creates a scheduler with an explicit thread cap; a cap of zero
    /// degrades every submission to the caller's thread.
    pub fn with_max_threads(max_threads: usize) -> (s: Scheduler)
        ensures
            s@.wf(),
            s@.queues.len() == 0,
            s@.schedule.len() == 0,
            s@.threads.len() == 0,
            s@.max_threads == max_threads,
    {
        Scheduler {
            queues: Vec::new(),
            schedule: VecDeque::new(),
            threads: Vec::new(),
            max_threads,
        }
    }

    /// The configured thread cap.
    pub fn max_threads(&self) -> (n: usize)
        ensures
            n == self@.max_threads,
    {
        self.max_threads
    }

    /// How many workers the pool currently holds.
    pub fn thread_count(&self) -> (n: usize)
        ensures
            n == self@.threads.len(),
    {
        self.threads.len()
    }

    /// How many queues stand on the run-list.
    pub fn schedule_len(&self) -> (n: usize)
        ensures
            n == self@.schedule.len(),
    {
        self.schedule.len()
    }

    /// How many queues this scheduler owns.
    pub fn queue_count(&self) -> (n: usize)
        ensures
            n == self@.queues.len(),
    {
        self.queues.len()
    }

    /// The state of one queue.
    pub fn queue_state(&self, q: usize) -> (s: QueueState)
        requires
            q < self@.queues.len(),
        ensures
            s == self@.queues[q as int].state,
    {
        self.queues[q].state()
    }

    /// How many jobs one queue has buffered.
    pub fn queue_job_count(&self, q: usize) -> (n: usize)
        requires
            q < self@.queues.len(),
        ensures
            n == self@.queues[q as int].jobs.len(),
    {
        self.queues[q].job_count()
    }

    /// How many suspensions are outstanding on one queue.
    pub fn queue_suspension_count(&self, q: usize) -> (n: u32)
        requires
            q < self@.queues.len(),
        ensures
            n == self@.queues[q as int].suspension_count,
    {
        self.queues[q].suspension_count()
    }

    /// Creates a new job queue for this scheduler and returns its index.
    pub fn create_job_queue(&mut self) -> (q: usize)
        requires
            old(self)@.wf(),
        ensures
            final(self)@.wf(),
            q == old(self)@.queues.len(),
            final(self)@.queues == old(self)@.queues.push(
                QueueView { jobs: Seq::<Job>::empty(), state: QueueState::Idle, suspension_count: 0 },
            ),
            final(self)@.schedule == old(self)@.schedule,
            final(self)@.threads == old(self)@.threads,
            final(self)@.max_threads == old(self)@.max_threads,
    {
        let q: usize = self.queues.len();
        let new_queue = JobQueue::new();
        proof {
            assert(new_queue@ == (QueueView {
                jobs: Seq::<Job>::empty(),
                state: QueueState::Idle,
                suspension_count: 0,
            }));
        }
        self.queues.push(new_queue);
        proof {
            assert(self@.queues =~= old(self)@.queues.push(new_queue@));
            assert forall|i: int| 0 <= i < self@.schedule.len() implies
                (#[trigger] self@.schedule[i]) < self@.queues.len()
                    && self@.queues[self@.schedule[i] as int].state == QueueState::Pending by {
                assert(old(self)@.schedule[i] < old(self)@.queues.len());
                assert(old(self)@.queues[old(self)@.schedule[i] as int].state
                    == QueueState::Pending);
            }
        }
        q
    }

    /// Adds an idle worker to the pool.
    pub fn spawn_thread(&mut self)
        requires
            old(self)@.wf(),
        ensures
            final(self)@.wf(),
            final(self)@.threads == old(self)@.threads.push(false),
            final(self)@.queues == old(self)@.queues,
            final(self)@.schedule == old(self)@.schedule,
            final(self)@.max_threads == old(self)@.max_threads,
    {
        self.threads.push(false);
    }

    /// Wakes a worker to run a dormant queue: the first idle worker is
    /// marked busy, or a new busy worker is spawned while the pool is
    /// under the cap.  Returns whether a worker was woken or spawned.
    pub fn schedule_thread(&mut self) -> (woken: bool)
        requires
            old(self)@.wf(),
        ensures
            final(self)@.wf(),
            final(self)@.queues == old(self)@.queues,
            final(self)@.schedule == old(self)@.schedule,
            final(self)@.max_threads == old(self)@.max_threads,
            woken == (old(self)@.schedule.len() > 0 && (has_idle(old(self)@.threads)
                || old(self)@.threads.len() < old(self)@.max_threads)),
            woken ==> thread_woken(old(self)@.threads, final(self)@.threads, old(self)@.max_threads),
            !woken ==> final(self)@.threads == old(self)@.threads,
    {
        if self.schedule.len() == 0 {
            return false;
        }
        let n: usize = self.threads.len();
        let mut i: usize = 0;
        while i < n
            invariant
                old(self)@.wf(),
                old(self)@.schedule.len() > 0,
                n == self.threads.len(),
                i <= n,
                *self == *old(self),
                forall|j: int| 0 <= j < i ==> self@.threads[j],
            decreases n - i,
        {
            if !self.threads[i] {
                proof {
                    assert(has_idle(self@.threads));
                }
                let slot = &mut self.threads[i];
                *slot = true;
                return true;
            }
            i += 1;
        }
        proof {
            assert(!has_idle(self@.threads));
        }
        if self.threads.len() < self.max_threads {
            self.threads.push(true);
            return true;
        }
        false
    }

    /// Proof that placing a queue that just turned `Pending` at the back
    /// of the run-list preserves well-formedness: the queue was not on the
    /// list before, since everything listed was already `Pending`.
    proof fn lemma_push_pending_wf(pre: SchedulerView, post: SchedulerView, q: usize)
        requires
            pre.wf(),
            q < pre.queues.len(),
            pre.queues[q as int].state != QueueState::Pending,
            post.queues.len() == pre.queues.len(),
            forall|i: int|
                0 <= i < pre.queues.len() && i != q ==> post.queues[i] == pre.queues[i],
            post.queues[q as int].state == QueueState::Pending,
            post.queues[q as int].wf(),
            post.schedule == pre.schedule.push(q),
        ensures
            post.wf(),
    {
        assert forall|i: int| 0 <= i < post.schedule.len() implies
            (#[trigger] post.schedule[i]) < post.queues.len()
                && post.queues[post.schedule[i] as int].state == QueueState::Pending by {
            if i < pre.schedule.len() {
                assert(post.schedule[i] == pre.schedule[i]);
                assert(pre.schedule[i] < pre.queues.len());
                assert(pre.queues[pre.schedule[i] as int].state == QueueState::Pending);
                assert(pre.schedule[i] != q);
            } else {
                assert(post.schedule[i] == q);
            }
        }
        assert forall|i: int, j: int| 0 <= i < j < post.schedule.len() implies
            post.schedule[i] != post.schedule[j] by {
            if j == pre.schedule.len() {
                assert(post.schedule[i] == pre.schedule[i]);
                assert(pre.schedule[i] < pre.queues.len());
                assert(pre.queues[pre.schedule[i] as int].state == QueueState::Pending);
                assert(post.schedule[j] == q);
            } else {
                assert(post.schedule[i] == pre.schedule[i]);
                assert(post.schedule[j] == pre.schedule[j]);
            }
        }
        assert forall|i: int| 0 <= i < post.queues.len() implies (#[trigger] post.queues[i]).wf()
        by {
            if i != q {
                assert(pre.queues[i].wf());
            }
        }
    }

    /// If the queue is idle and has buffered jobs, places it back on the
    /// run-list and wakes a worker for it.
    pub fn reschedule_queue(&mut self, q: usize)
        requires
            old(self)@.wf(),
            q < old(self)@.queues.len(),
        ensures
            final(self)@.wf(),
            final(self)@.max_threads == old(self)@.max_threads,
            old(self)@.queues[q as int].state == QueueState::Idle
                && old(self)@.queues[q as int].jobs.len() > 0 ==> ({
                &&& final(self)@.queues == old(self)@.queues.update(
                    q as int,
                    QueueView { state: QueueState::Pending, ..old(self)@.queues[q as int] },
                )
                &&& final(self)@.schedule == old(self)@.schedule.push(q)
                &&& thread_woken(old(self)@.threads, final(self)@.threads, old(self)@.max_threads)
            }),
            !(old(self)@.queues[q as int].state == QueueState::Idle
                && old(self)@.queues[q as int].jobs.len() > 0) ==> ({
                &&& final(self)@.queues == old(self)@.queues
                &&& final(self)@.schedule == old(self)@.schedule
                &&& final(self)@.threads == old(self)@.threads
            }),
    {
        let needs: bool = self.queue_state(q) == QueueState::Idle && self.queue_job_count(q) > 0;
        if needs {
            let queue = &mut self.queues[q];
            queue.mark_pending();
            proof {
                assert(self@.queues =~= old(self)@.queues.update(
                    q as int,
                    QueueView { state: QueueState::Pending, ..old(self)@.queues[q as int] },
                ));
            }
            self.schedule.push_back(q);
            proof {
                Self::lemma_push_pending_wf(old(self)@, self@, q);
                assert(self@.wf());
            }
            self.schedule_thread();
        } else {
            proof {
                assert(self@.queues =~= old(self)@.queues);
            }
        }
    }

    /// Appends a job on a queue of this scheduler; an idle queue is placed
    /// on the run-list and a worker is woken or spawned for it.
    /// Submitting on a panicked queue is a caller error and is ruled out.
    pub fn schedule_job_desync(&mut self, q: usize, job: Job)
        requires
            old(self)@.wf(),
            q < old(self)@.queues.len(),
            old(self)@.queues[q as int].state != QueueState::Panicked,
        ensures
            final(self)@.wf(),
            final(self)@.max_threads == old(self)@.max_threads,
            final(self)@.queues == old(self)@.queues.update(
                q as int,
                old(self)@.queues[q as int].submitted(job),
            ),
            old(self)@.queues[q as int].state == QueueState::Idle ==> ({
                &&& final(self)@.schedule == old(self)@.schedule.push(q)
                &&& thread_woken(old(self)@.threads, final(self)@.threads, old(self)@.max_threads)
            }),
            old(self)@.queues[q as int].state != QueueState::Idle ==> ({
                &&& final(self)@.schedule == old(self)@.schedule
                &&& final(self)@.threads == old(self)@.threads
            }),
    {
        let schedule_me: bool = {
            let queue = &mut self.queues[q];
            queue.submit(job)
        };
        proof {
            assert(self@.queues =~= old(self)@.queues.update(
                q as int,
                old(self)@.queues[q as int].submitted(job),
            ));
        }
        if schedule_me {
            self.schedule.push_back(q);
            proof {
                Self::lemma_push_pending_wf(old(self)@, self@, q);
                assert(self@.wf());
            }
            self.schedule_thread();
        } else {
            proof {
                assert forall|i: int| 0 <= i < self@.schedule.len() implies
                    (#[trigger] self@.schedule[i]) < self@.queues.len()
                        && self@.queues[self@.schedule[i] as int].state == QueueState::Pending by {
                    assert(old(self)@.schedule[i] < old(self)@.queues.len());
                    assert(old(self)@.queues[old(self)@.schedule[i] as int].state
                        == QueueState::Pending);
                    if old(self)@.schedule[i] == q {
                        assert(old(self)@.queues[q as int].submitted(job).state
                            == QueueState::Pending);
                    }
                }
                assert forall|i: int| 0 <= i < self@.queues.len() implies
                    (#[trigger] self@.queues[i]).wf() by {
                    if i != q {
                        assert(old(self)@.queues[i].wf());
                    }
                }
            }
        }
    }

    /// Schedules an asynchronous job, named by a caller-chosen tag, which
    /// will run after any jobs already in the queue.
    pub fn desync(&mut self, q: usize, job_tag: u64)
        requires
            old(self)@.wf(),
            q < old(self)@.queues.len(),
            old(self)@.queues[q as int].state != QueueState::Panicked,
        ensures
            final(self)@.wf(),
            final(self)@.max_threads == old(self)@.max_threads,
            final(self)@.queues == old(self)@.queues.update(
                q as int,
                old(self)@.queues[q as int].submitted(Job::Work(job_tag)),
            ),
            old(self)@.queues[q as int].state == QueueState::Idle ==> ({
                &&& final(self)@.schedule == old(self)@.schedule.push(q)
                &&& thread_woken(old(self)@.threads, final(self)@.threads, old(self)@.max_threads)
            }),
            old(self)@.queues[q as int].state != QueueState::Idle ==> ({
                &&& final(self)@.schedule == old(self)@.schedule
                &&& final(self)@.threads == old(self)@.threads
            }),
    {
        self.schedule_job_desync(q, Job::Work(job_tag));
    }

    /// Requests that the queue be suspended once it reaches this point of
    /// its buffer: a suspension marker is appended like any other job.
    pub fn suspend(&mut self, q: usize)
        requires
            old(self)@.wf(),
            q < old(self)@.queues.len(),
            old(self)@.queues[q as int].state != QueueState::Panicked,
        ensures
            final(self)@.wf(),
            final(self)@.max_threads == old(self)@.max_threads,
            final(self)@.queues == old(self)@.queues.update(
                q as int,
                old(self)@.queues[q as int].submitted(Job::Suspend),
            ),
            old(self)@.queues[q as int].state == QueueState::Idle ==> ({
                &&& final(self)@.schedule == old(self)@.schedule.push(q)
                &&& thread_woken(old(self)@.threads, final(self)@.threads, old(self)@.max_threads)
            }),
            old(self)@.queues[q as int].state != QueueState::Idle ==> ({
                &&& final(self)@.schedule == old(self)@.schedule
                &&& final(self)@.threads == old(self)@.threads
            }),
    {
        self.schedule_job_desync(q, Job::Suspend);
    }

    /// Resumes a queue that was previously suspended.  On reaching a
    /// suspension count of zero, a suspended queue returns to idle and is
    /// rescheduled if it still has buffered jobs.  A `resume` without a
    /// matching `suspend` is a caller error and is ruled out.
    pub fn resume(&mut self, q: usize)
        requires
            old(self)@.wf(),
            q < old(self)@.queues.len(),
            old(self)@.queues[q as int].suspension_count > 0,
        ensures
            final(self)@.wf(),
            final(self)@.max_threads == old(self)@.max_threads,
            ({
                let resumed = old(self)@.queues[q as int].resumed();
                if old(self)@.queues[q as int].resume_reschedules() && resumed.jobs.len() > 0 {
                    &&& final(self)@.queues == old(self)@.queues.update(
                        q as int,
                        QueueView { state: QueueState::Pending, ..resumed },
                    )
                    &&& final(self)@.schedule == old(self)@.schedule.push(q)
                    &&& thread_woken(old(self)@.threads, final(self)@.threads, old(self)@.max_threads)
                } else {
                    &&& final(self)@.queues == old(self)@.queues.update(q as int, resumed)
                    &&& final(self)@.schedule == old(self)@.schedule
                    &&& final(self)@.threads == old(self)@.threads
                }
            }),
    {
        let needs_reschedule: bool = {
            let queue = &mut self.queues[q];
            queue.resume_step()
        };
        proof {
            assert(self@.queues =~= old(self)@.queues.update(
                q as int,
                old(self)@.queues[q as int].resumed(),
            ));
            assert forall|i: int| 0 <= i < self@.schedule.len() implies
                (#[trigger] self@.schedule[i]) < self@.queues.len()
                    && self@.queues[self@.schedule[i] as int].state == QueueState::Pending by {
                assert(old(self)@.schedule[i] < old(self)@.queues.len());
                assert(old(self)@.queues[old(self)@.schedule[i] as int].state
                    == QueueState::Pending);
                assert(old(self)@.schedule[i] != q);
            }
            assert forall|i: int| 0 <= i < self@.queues.len() implies
                (#[trigger] self@.queues[i]).wf() by {
                if i != q {
                    assert(old(self)@.queues[i].wf());
                }
            }
            assert(self@.wf());
        }
        if needs_reschedule {
            self.reschedule_queue(q);
        }
    }

    /// Changes the thread cap.  While work stands on the run-list, every
    /// dormant worker is woken and the pool is filled up to the new cap;
    /// workers that find no queue park again on their own.  Existing
    /// threads are not despawned by this method.
    pub fn set_max_threads(&mut self, max_threads: usize)
        requires
            old(self)@.wf(),
        ensures
            final(self)@.wf(),
            final(self)@.queues == old(self)@.queues,
            final(self)@.schedule == old(self)@.schedule,
            final(self)@.max_threads == max_threads,
            old(self)@.schedule.len() == 0 ==> final(self)@.threads == old(self)@.threads,
            old(self)@.schedule.len() > 0 ==> final(self)@.threads == Seq::<bool>::new(
                if old(self)@.threads.len() >= max_threads {
                    old(self)@.threads.len()
                } else {
                    max_threads as nat
                },
                |i: int| true,
            ),
    {
        self.max_threads = max_threads;
        if self.schedule.len() > 0 {
            let n: usize = self.threads.len();
            let mut i: usize = 0;
            while i < n
                invariant
                    n == old(self)@.threads.len(),
                    n == self@.threads.len(),
                    i <= n,
                    self@.queues == old(self)@.queues,
                    self@.schedule == old(self)@.schedule,
                    self@.max_threads == max_threads,
                    forall|j: int| 0 <= j < i ==> self@.threads[j],
                    forall|j: int| i <= j < n ==> self@.threads[j] == old(self)@.threads[j],
                decreases n - i,
            {
                let slot = &mut self.threads[i];
                *slot = true;
                i += 1;
            }
            while self.threads.len() < self.max_threads
                invariant
                    self@.queues == old(self)@.queues,
                    self@.schedule == old(self)@.schedule,
                    self@.max_threads == max_threads,
                    self@.threads.len() >= old(self)@.threads.len(),
                    old(self)@.threads.len() >= max_threads ==> self@.threads.len()
                        == old(self)@.threads.len(),
                    old(self)@.threads.len() < max_threads ==> self@.threads.len() <= max_threads,
                    forall|j: int| 0 <= j < self@.threads.len() ==> self@.threads[j],
                decreases max_threads - self.threads.len(),
            {
                self.threads.push(true);
            }
            proof {
                assert(self@.threads =~= Seq::<bool>::new(
                    if old(self)@.threads.len() >= max_threads {
                        old(self)@.threads.len()
                    } else {
                        max_threads as nat
                    },
                    |i: int| true,
                ));
            }
        }
    }

    /// Trims the worker pool down to the cap.  The join on the despawned
    /// threads happens outside the model, so this must not be called from
    /// a worker.
    pub fn despawn_threads_if_overloaded(&mut self)
        requires
            old(self)@.wf(),
        ensures
            final(self)@.wf(),
            final(self)@.queues == old(self)@.queues,
            final(self)@.schedule == old(self)@.schedule,
            final(self)@.max_threads == old(self)@.max_threads,
            final(self)@.threads == if old(self)@.threads.len() > old(self)@.max_threads {
                old(self)@.threads.take(old(self)@.max_threads as int)
            } else {
                old(self)@.threads
            },
    {
        if self.threads.len() > self.max_threads {
            self.threads.truncate(self.max_threads);
        }
    }

    /// Hands the front queue of the run-list to the given worker, marking
    /// it busy and its queue running; with an empty run-list the worker
    /// parks instead, marked idle.
    pub fn worker_claim(&mut self, worker: usize) -> (claimed: Option<usize>)
        requires
            old(self)@.wf(),
            worker < old(self)@.threads.len(),
        ensures
            final(self)@.wf(),
            final(self)@.max_threads == old(self)@.max_threads,
            match claimed {
                Some(q) => old(self)@.schedule.len() > 0 && q == old(self)@.schedule[0]
                    && q < old(self)@.queues.len()
                    && old(self)@.queues[q as int].state == QueueState::Pending
                    && final(self)@.schedule == old(self)@.schedule.drop_first()
                    && final(self)@.queues == old(self)@.queues.update(
                        q as int,
                        old(self)@.queues[q as int].begun(),
                    )
                    && final(self)@.threads == old(self)@.threads.update(worker as int, true),
                None => old(self)@.schedule.len() == 0
                    && final(self)@.schedule == old(self)@.schedule
                    && final(self)@.queues == old(self)@.queues
                    && final(self)@.threads == old(self)@.threads.update(worker as int, false),
            },
    {
        match self.schedule.pop_front() {
            Some(q) => {
                proof {
                    assert(old(self)@.schedule[0] == q);
                    assert(q < old(self)@.queues.len());
                    assert(old(self)@.queues[q as int].state == QueueState::Pending);
                }
                let queue = &mut self.queues[q];
                queue.begin_running();
                let slot = &mut self.threads[worker];
                *slot = true;
                proof {
                    assert(self@.queues =~= old(self)@.queues.update(
                        q as int,
                        old(self)@.queues[q as int].begun(),
                    ));
                    assert(self@.schedule =~= old(self)@.schedule.drop_first());
                    assert forall|i: int| 0 <= i < self@.schedule.len() implies
                        (#[trigger] self@.schedule[i]) < self@.queues.len()
                            && self@.queues[self@.schedule[i] as int].state == QueueState::Pending
                    by {
                        assert(self@.schedule[i] == old(self)@.schedule[i + 1]);
                        assert(old(self)@.schedule[i + 1] < old(self)@.queues.len());
                        assert(old(self)@.queues[old(self)@.schedule[i + 1] as int].state
                            == QueueState::Pending);
                        assert(old(self)@.schedule[i + 1] != old(self)@.schedule[0]);
                    }
                    assert forall|i: int| 0 <= i < self@.queues.len() implies
                        (#[trigger] self@.queues[i]).wf() by {
                        if i != q {
                            assert(old(self)@.queues[i].wf());
                        }
                    }
                }
                Some(q)
            },
            None => {
                let slot = &mut self.threads[worker];
                *slot = false;
                None
            },
        }
    }

    /// Removes and returns the front job of a queue a thread is draining.
    pub fn dequeue_job(&mut self, q: usize) -> (job: Option<Job>)
        requires
            old(self)@.wf(),
            q < old(self)@.queues.len(),
            old(self)@.queues[q as int].state == QueueState::Running,
        ensures
            final(self)@.wf(),
            final(self)@.schedule == old(self)@.schedule,
            final(self)@.threads == old(self)@.threads,
            final(self)@.max_threads == old(self)@.max_threads,
            match job {
                Some(j) => old(self)@.queues[q as int].jobs.len() > 0
                    && j == old(self)@.queues[q as int].jobs[0]
                    && final(self)@.queues == old(self)@.queues.update(
                        q as int,
                        old(self)@.queues[q as int].dequeued(),
                    ),
                None => old(self)@.queues[q as int].jobs.len() == 0
                    && final(self)@.queues == old(self)@.queues,
            },
        {
        let job = {
            let queue = &mut self.queues[q];
            queue.dequeue()
        };
        proof {
            if job is Some {
                assert(self@.queues =~= old(self)@.queues.update(
                    q as int,
                    old(self)@.queues[q as int].dequeued(),
                ));
            } else {
                assert(self@.queues =~= old(self)@.queues);
            }
            self.lemma_same_schedule_queue_step_wf(old(self)@, q);
        }
        job
    }

    /// Proof that a step that changes one queue, keeps its state out of
    /// `Pending` unless it was `Pending` already with the same state, and
    /// leaves the run-list alone, preserves well-formedness.
    proof fn lemma_same_schedule_queue_step_wf(&self, pre: SchedulerView, q: usize)
        requires
            pre.wf(),
            q < pre.queues.len(),
            self@.schedule == pre.schedule,
            self@.queues.len() == pre.queues.len(),
            forall|i: int|
                0 <= i < pre.queues.len() && i != q ==> self@.queues[i] == pre.queues[i],
            self@.queues[q as int].wf(),
            self@.queues[q as int].state == pre.queues[q as int].state
                || pre.queues[q as int].state != QueueState::Pending,
        ensures
            self@.wf(),
    {
        assert forall|i: int| 0 <= i < self@.schedule.len() implies
            (#[trigger] self@.schedule[i]) < self@.queues.len()
                && self@.queues[self@.schedule[i] as int].state == QueueState::Pending by {
            assert(pre.schedule[i] < pre.queues.len());
            assert(pre.queues[pre.schedule[i] as int].state == QueueState::Pending);
        }
        assert forall|i: int| 0 <= i < self@.queues.len() implies (#[trigger] self@.queues[i]).wf()
        by {
            if i != q {
                assert(pre.queues[i].wf());
            }
        }
    }

    /// Applies a suspension marker that a draining thread took off the
    /// queue: the suspension count rises and the queue starts suspending.
    pub fn apply_suspend(&mut self, q: usize)
        requires
            old(self)@.wf(),
            q < old(self)@.queues.len(),
            old(self)@.queues[q as int].state == QueueState::Running,
        ensures
            final(self)@.wf(),
            final(self)@.schedule == old(self)@.schedule,
            final(self)@.threads == old(self)@.threads,
            final(self)@.max_threads == old(self)@.max_threads,
            final(self)@.queues == old(self)@.queues.update(
                q as int,
                old(self)@.queues[q as int].suspend_applied(),
            ),
    {
        let queue = &mut self.queues[q];
        queue.suspend_requested();
        proof {
            assert(self@.queues =~= old(self)@.queues.update(
                q as int,
                old(self)@.queues[q as int].suspend_applied(),
            ));
            self.lemma_same_schedule_queue_step_wf(old(self)@, q);
        }
    }

    /// Notes that the job a thread is running on this queue returned
    /// pending: the queue starts waiting for its waker — and the result
    /// tells the thread to stop draining it — unless the waker already
    /// fired, in which case the queue keeps running.
    pub fn note_job_pending(&mut self, q: usize) -> (parked: bool)
        requires
            old(self)@.wf(),
            q < old(self)@.queues.len(),
            old(self)@.queues[q as int].state == QueueState::Running
                || old(self)@.queues[q as int].state == QueueState::AwokenWhileRunning,
        ensures
            final(self)@.wf(),
            final(self)@.schedule == old(self)@.schedule,
            final(self)@.threads == old(self)@.threads,
            final(self)@.max_threads == old(self)@.max_threads,
            final(self)@.queues == old(self)@.queues.update(
                q as int,
                old(self)@.queues[q as int].paused(),
            ),
            parked == old(self)@.queues[q as int].pause_parks(),
    {
        let parked = {
            let queue = &mut self.queues[q];
            queue.note_job_pending()
        };
        proof {
            assert(self@.queues =~= old(self)@.queues.update(
                q as int,
                old(self)@.queues[q as int].paused(),
            ));
            self.lemma_same_schedule_queue_step_wf(old(self)@, q);
        }
        parked
    }

    /// Called when a queue's waker fires.  A queue waiting for the wake
    /// becomes pending, is placed back on the run-list and a worker is
    /// woken for it; a queue still running its job is only marked awoken.
    pub fn awaken(&mut self, q: usize) -> (rescheduled: bool)
        requires
            old(self)@.wf(),
            q < old(self)@.queues.len(),
        ensures
            final(self)@.wf(),
            final(self)@.max_threads == old(self)@.max_threads,
            final(self)@.queues == old(self)@.queues.update(
                q as int,
                old(self)@.queues[q as int].awoken(),
            ),
            rescheduled == old(self)@.queues[q as int].awoken_signals(),
            rescheduled ==> final(self)@.schedule == old(self)@.schedule.push(q)
                && thread_woken(old(self)@.threads, final(self)@.threads, old(self)@.max_threads),
            !rescheduled ==> final(self)@.schedule == old(self)@.schedule
                && final(self)@.threads == old(self)@.threads,
    {
        let rescheduled = {
            let queue = &mut self.queues[q];
            queue.mark_awoken()
        };
        proof {
            assert(self@.queues =~= old(self)@.queues.update(
                q as int,
                old(self)@.queues[q as int].awoken(),
            ));
        }
        if rescheduled {
            self.schedule.push_back(q);
            proof {
                Self::lemma_push_pending_wf(old(self)@, self@, q);
                assert(self@.wf());
            }
            self.schedule_thread();
        } else {
            proof {
                self.lemma_same_schedule_queue_step_wf(old(self)@, q);
            }
        }
        rescheduled
    }

    /// Bookkeeping when the thread draining this queue stops: a running
    /// queue with an empty buffer returns to idle; one with jobs left is
    /// rescheduled; one whose suspension was taking effect becomes
    /// suspended.
    pub fn finish_queue(&mut self, q: usize)
        requires
            old(self)@.wf(),
            q < old(self)@.queues.len(),
            old(self)@.queues[q as int].state == QueueState::Running
                || old(self)@.queues[q as int].state == QueueState::Suspending,
        ensures
            final(self)@.wf(),
            final(self)@.max_threads == old(self)@.max_threads,
            old(self)@.queues[q as int].state == QueueState::Suspending ==> ({
                &&& final(self)@.queues == old(self)@.queues.update(
                    q as int,
                    old(self)@.queues[q as int].suspend_finalized(),
                )
                &&& final(self)@.schedule == old(self)@.schedule
                &&& final(self)@.threads == old(self)@.threads
            }),
            old(self)@.queues[q as int].state == QueueState::Running ==> ({
                let fin = old(self)@.queues[q as int].finished();
                if fin.jobs.len() > 0 {
                    &&& final(self)@.queues == old(self)@.queues.update(
                        q as int,
                        QueueView { state: QueueState::Pending, ..fin },
                    )
                    &&& final(self)@.schedule == old(self)@.schedule.push(q)
                    &&& thread_woken(old(self)@.threads, final(self)@.threads, old(self)@.max_threads)
                } else {
                    &&& final(self)@.queues == old(self)@.queues.update(q as int, fin)
                    &&& final(self)@.schedule == old(self)@.schedule
                    &&& final(self)@.threads == old(self)@.threads
                }
            }),
    {
        if self.queue_state(q) == QueueState::Suspending {
            let queue = &mut self.queues[q];
            queue.finalize_suspend();
            proof {
                assert(self@.queues =~= old(self)@.queues.update(
                    q as int,
                    old(self)@.queues[q as int].suspend_finalized(),
                ));
                self.lemma_same_schedule_queue_step_wf(old(self)@, q);
            }
        } else {
            self.sync_immediate(q);
        }
    }

    /// Records that a job running on this queue panicked: the queue is
    /// marked panicked and accepts no further work.
    pub fn mark_panicked(&mut self, q: usize)
        requires
            old(self)@.wf(),
            q < old(self)@.queues.len(),
            old(self)@.queues[q as int].state != QueueState::Pending,
        ensures
            final(self)@.wf(),
            final(self)@.schedule == old(self)@.schedule,
            final(self)@.threads == old(self)@.threads,
            final(self)@.max_threads == old(self)@.max_threads,
            final(self)@.queues == old(self)@.queues.update(
                q as int,
                old(self)@.queues[q as int].panicked(),
            ),
    {
        let queue = &mut self.queues[q];
        queue.mark_panicked();
        proof {
            assert(self@.queues =~= old(self)@.queues.update(
                q as int,
                old(self)@.queues[q as int].panicked(),
            ));
            self.lemma_same_schedule_queue_step_wf(old(self)@, q);
        }
    }

    /// Takes the given queue off the run-list, wherever it stands; a
    /// queue that is not listed is left alone.
    fn unschedule(&mut self, q: usize)
        requires
            old(self)@.wf(),
        ensures
            final(self)@.wf(),
            final(self)@.queues == old(self)@.queues,
            final(self)@.threads == old(self)@.threads,
            final(self)@.max_threads == old(self)@.max_threads,
            !final(self)@.schedule.contains(q),
            old(self)@.schedule.contains(q) ==> exists|i: int|
                0 <= i < old(self)@.schedule.len() && old(self)@.schedule[i] == q
                    && final(self)@.schedule == old(self)@.schedule.remove(i),
            !old(self)@.schedule.contains(q) ==> final(self)@.schedule == old(self)@.schedule,
    {
        let n: usize = self.schedule.len();
        let mut i: usize = 0;
        while i < n
            invariant
                old(self)@.wf(),
                n == self@.schedule.len(),
                i <= n,
                *self == *old(self),
                forall|j: int| 0 <= j < i ==> self@.schedule[j] != q,
            decreases n - i,
        {
            if self.schedule[i] == q {
                let _removed = self.schedule.remove(i);
                proof {
                    assert(old(self)@.schedule.contains(q)) by {
                        assert(old(self)@.schedule[i as int] == q);
                    }
                    assert(self@.schedule == old(self)@.schedule.remove(i as int));
                    old(self)@.schedule.remove_ensures(i as int);
                    assert forall|j: int| 0 <= j < self@.schedule.len() implies
                        self@.schedule[j] != q by {
                        if j < i {
                            assert(self@.schedule[j] == old(self)@.schedule[j]);
                        } else {
                            assert(self@.schedule[j] == old(self)@.schedule[j + 1]);
                            assert(old(self)@.schedule[j + 1] != old(self)@.schedule[i as int]);
                        }
                    }
                    assert(!self@.schedule.contains(q));
                    assert forall|a: int| 0 <= a < self@.schedule.len() implies
                        (#[trigger] self@.schedule[a]) < self@.queues.len()
                            && self@.queues[self@.schedule[a] as int].state == QueueState::Pending
                    by {
                        let b: int = if a < i { a } else { a + 1 };
                        assert(self@.schedule[a] == old(self)@.schedule[b]);
                        assert(old(self)@.schedule[b] < old(self)@.queues.len());
                        assert(old(self)@.queues[old(self)@.schedule[b] as int].state
                            == QueueState::Pending);
                    }
                    assert forall|a: int, b: int| 0 <= a < b < self@.schedule.len() implies
                        self@.schedule[a] != self@.schedule[b] by {
                        let a2: int = if a < i { a } else { a + 1 };
                        let b2: int = if b < i { b } else { b + 1 };
                        assert(self@.schedule[a] == old(self)@.schedule[a2]);
                        assert(self@.schedule[b] == old(self)@.schedule[b2]);
                    }
                }
                return;
            }
            i += 1;
        }
        proof {
            assert(!self@.schedule.contains(q)) by {
                if self@.schedule.contains(q) {
                    let j = choose|j: int| 0 <= j < self@.schedule.len() && self@.schedule[j] == q;
                    assert(self@.schedule[j] != q);
                }
            }
        }
    }

    /// Chooses, atomically from the queue's state, how a synchronous
    /// submission is run, and applies the matching bookkeeping: an idle
    /// queue is claimed for the caller's thread; a pending one is taken
    /// off the run-list, claimed, and the job is appended for the drain;
    /// a busy one has the job appended for a background worker.
    /// Synchronous submission on a panicked queue is a caller error and
    /// is ruled out.
    pub fn sync(&mut self, q: usize, job_tag: u64) -> (action: SyncAction)
        requires
            old(self)@.wf(),
            q < old(self)@.queues.len(),
            old(self)@.queues[q as int].state != QueueState::Panicked,
        ensures
            final(self)@.wf(),
            final(self)@.max_threads == old(self)@.max_threads,
            final(self)@.threads == old(self)@.threads,
            ({
                let pre = old(self)@.queues[q as int];
                match action {
                    SyncAction::Immediate => {
                        &&& pre.state == QueueState::Idle
                        &&& final(self)@.queues == old(self)@.queues.update(q as int, pre.begun())
                        &&& final(self)@.schedule == old(self)@.schedule
                    },
                    SyncAction::DrainOnThisThread => {
                        &&& pre.state == QueueState::Pending
                        &&& final(self)@.queues == old(self)@.queues.update(
                            q as int,
                            pre.begun().submitted(Job::Work(job_tag)),
                        )
                        &&& !final(self)@.schedule.contains(q)
                        &&& old(self)@.schedule.contains(q) ==> exists|i: int|
                            0 <= i < old(self)@.schedule.len() && old(self)@.schedule[i] == q
                                && final(self)@.schedule == old(self)@.schedule.remove(i)
                        &&& !old(self)@.schedule.contains(q)
                            ==> final(self)@.schedule == old(self)@.schedule
                    },
                    SyncAction::WaitForBackground => {
                        &&& pre.state != QueueState::Idle && pre.state != QueueState::Pending
                        &&& final(self)@.queues == old(self)@.queues.update(
                            q as int,
                            pre.submitted(Job::Work(job_tag)),
                        )
                        &&& final(self)@.schedule == old(self)@.schedule
                    },
                }
            }),
    {
        let st = self.queue_state(q);
        match st {
            QueueState::Idle => {
                let queue = &mut self.queues[q];
                queue.begin_running();
                proof {
                    assert(self@.queues =~= old(self)@.queues.update(
                        q as int,
                        old(self)@.queues[q as int].begun(),
                    ));
                    self.lemma_same_schedule_queue_step_wf(old(self)@, q);
                }
                SyncAction::Immediate
            },
            QueueState::Pending => {
                self.unschedule(q);
                let ghost mid = self@;
                let queue = &mut self.queues[q];
                queue.begin_running();
                let _ = queue.submit(Job::Work(job_tag));
                proof {
                    assert(self@.queues =~= old(self)@.queues.update(
                        q as int,
                        old(self)@.queues[q as int].begun().submitted(Job::Work(job_tag)),
                    ));
                    assert forall|a: int| 0 <= a < self@.schedule.len() implies
                        (#[trigger] self@.schedule[a]) < self@.queues.len()
                            && self@.queues[self@.schedule[a] as int].state == QueueState::Pending
                    by {
                        assert(mid.schedule[a] < mid.queues.len());
                        assert(mid.queues[mid.schedule[a] as int].state == QueueState::Pending);
                        assert(mid.schedule[a] != q);
                    }
                    assert forall|a: int| 0 <= a < self@.queues.len() implies
                        (#[trigger] self@.queues[a]).wf() by {
                        if a != q {
                            assert(old(self)@.queues[a].wf());
                        }
                    }
                }
                SyncAction::DrainOnThisThread
            },
            _ => {
                let queue = &mut self.queues[q];
                let _ = queue.submit(Job::Work(job_tag));
                proof {
                    assert(self@.queues =~= old(self)@.queues.update(
                        q as int,
                        old(self)@.queues[q as int].submitted(Job::Work(job_tag)),
                    ));
                    self.lemma_same_schedule_queue_step_wf(old(self)@, q);
                }
                SyncAction::WaitForBackground
            },
        }
    }

    /// Bookkeeping around a synchronous job that the caller ran inline on
    /// a queue it claimed while idle: the queue returns to idle and is
    /// rescheduled if jobs arrived in the meantime.
    pub fn sync_immediate(&mut self, q: usize)
        requires
            old(self)@.wf(),
            q < old(self)@.queues.len(),
            old(self)@.queues[q as int].state == QueueState::Running,
        ensures
            final(self)@.wf(),
            final(self)@.max_threads == old(self)@.max_threads,
            ({
                let fin = old(self)@.queues[q as int].finished();
                if fin.jobs.len() > 0 {
                    &&& final(self)@.queues == old(self)@.queues.update(
                        q as int,
                        QueueView { state: QueueState::Pending, ..fin },
                    )
                    &&& final(self)@.schedule == old(self)@.schedule.push(q)
                    &&& thread_woken(old(self)@.threads, final(self)@.threads, old(self)@.max_threads)
                } else {
                    &&& final(self)@.queues == old(self)@.queues.update(q as int, fin)
                    &&& final(self)@.schedule == old(self)@.schedule
                    &&& final(self)@.threads == old(self)@.threads
                }
            }),
    {
        {
            let queue = &mut self.queues[q];
            queue.finish_running();
        }
        proof {
            assert(self@.queues =~= old(self)@.queues.update(
                q as int,
                old(self)@.queues[q as int].finished(),
            ));
            self.lemma_same_schedule_queue_step_wf(old(self)@, q);
        }
        self.reschedule_queue(q);
    }

    /// Appends a synchronous job for completion by a background worker:
    /// the queue is busy, so the job lines up behind everything already
    /// buffered and the caller blocks until a worker reaches it.
    pub fn sync_background(&mut self, q: usize, job_tag: u64)
        requires
            old(self)@.wf(),
            q < old(self)@.queues.len(),
            old(self)@.queues[q as int].state != QueueState::Panicked,
            old(self)@.queues[q as int].state != QueueState::Idle,
            old(self)@.queues[q as int].state != QueueState::Pending,
        ensures
            final(self)@.wf(),
            final(self)@.max_threads == old(self)@.max_threads,
            final(self)@.threads == old(self)@.threads,
            final(self)@.schedule == old(self)@.schedule,
            final(self)@.queues == old(self)@.queues.update(
                q as int,
                old(self)@.queues[q as int].submitted(Job::Work(job_tag)),
            ),
    {
        let queue = &mut self.queues[q];
        let _ = queue.submit(Job::Work(job_tag));
        proof {
            assert(self@.queues =~= old(self)@.queues.update(
                q as int,
                old(self)@.queues[q as int].submitted(Job::Work(job_tag)),
            ));
            self.lemma_same_schedule_queue_step_wf(old(self)@, q);
        }
    }
}

/// The run-list invariant: the schedule names only existing queues, and
/// only ones whose state is `Pending`.
pub proof fn lemma_scheduled_implies_pending(s: SchedulerView, i: int)
    requires
        s.wf(),
        0 <= i < s.schedule.len(),
    ensures
        s.schedule[i] < s.queues.len(),
        s.queues[s.schedule[i] as int].state == QueueState::Pending,
{
}

/// A queue that is not pending never stands on the run-list, so no
/// worker can be handed it: in particular a queue that is already
/// running is never claimed by a second worker.
pub proof fn lemma_unscheduled_unless_pending(s: SchedulerView, q: usize)
    requires
        s.wf(),
        q < s.queues.len(),
        s.queues[q as int].state != QueueState::Pending,
    ensures
        forall|i: int| 0 <= i < s.schedule.len() ==> s.schedule[i] != q,
{
    assert forall|i: int| 0 <= i < s.schedule.len() implies s.schedule[i] != q by {
        assert(s.queues[s.schedule[i] as int].state == QueueState::Pending);
    }
}

/// While a queue's suspension count is positive it is suspending,
/// suspended or panicked, never on the run-list, and no worker is handed
/// it: no job body of the queue begins until it is resumed.
pub proof fn lemma_suspended_never_scheduled(s: SchedulerView, q: usize)
    requires
        s.wf(),
        q < s.queues.len(),
        s.queues[q as int].suspension_count > 0,
    ensures
        s.queues[q as int].state == QueueState::Suspending || s.queues[q as int].state
            == QueueState::Suspended || s.queues[q as int].state == QueueState::Panicked,
        forall|i: int| 0 <= i < s.schedule.len() ==> s.schedule[i] != q,
{
    assert(s.queues[q as int].wf());
    lemma_unscheduled_unless_pending(s, q);
}

/// Creates a scheduler queue: the free-function form of
/// `Scheduler::create_job_queue`.  The process-wide scheduler instance
/// lives with the embedding program, which passes it in.
pub fn queue(sched: &mut Scheduler) -> (q: usize)
    requires
        old(sched)@.wf(),
    ensures
        final(sched)@.wf(),
        q == old(sched)@.queues.len(),
        final(sched)@.queues == old(sched)@.queues.push(
            QueueView { jobs: Seq::<Job>::empty(), state: QueueState::Idle, suspension_count: 0 },
        ),
        final(sched)@.schedule == old(sched)@.schedule,
        final(sched)@.threads == old(sched)@.threads,
        final(sched)@.max_threads == old(sched)@.max_threads,
{
    sched.create_job_queue()
}

/// Performs an action asynchronously on the specified queue: the
/// free-function form of `Scheduler::desync`.
pub fn desync(sched: &mut Scheduler, q: usize, job_tag: u64)
    requires
        old(sched)@.wf(),
        q < old(sched)@.queues.len(),
        old(sched)@.queues[q as int].state != QueueState::Panicked,
    ensures
        final(sched)@.wf(),
        final(sched)@.max_threads == old(sched)@.max_threads,
        final(sched)@.queues == old(sched)@.queues.update(
            q as int,
            old(sched)@.queues[q as int].submitted(Job::Work(job_tag)),
        ),
        old(sched)@.queues[q as int].state == QueueState::Idle ==> ({
            &&& final(sched)@.schedule == old(sched)@.schedule.push(q)
            &&& thread_woken(old(sched)@.threads, final(sched)@.threads, old(sched)@.max_threads)
        }),
        old(sched)@.queues[q as int].state != QueueState::Idle ==> ({
            &&& final(sched)@.schedule == old(sched)@.schedule
            &&& final(sched)@.threads == old(sched)@.threads
        }),
{
    sched.desync(q, job_tag);
}

/// Chooses how to perform an action synchronously on the specified
/// queue: the free-function form of `Scheduler::sync`.
pub fn sync(sched: &mut Scheduler, q: usize, job_tag: u64) -> (action: SyncAction)
    requires
        old(sched)@.wf(),
        q < old(sched)@.queues.len(),
        old(sched)@.queues[q as int].state != QueueState::Panicked,
    ensures
        final(sched)@.wf(),
        final(sched)@.max_threads == old(sched)@.max_threads,
        final(sched)@.threads == old(sched)@.threads,
        ({
            let pre = old(sched)@.queues[q as int];
            match action {
                SyncAction::Immediate => {
                    &&& pre.state == QueueState::Idle
                    &&& final(sched)@.queues == old(sched)@.queues.update(q as int, pre.begun())
                    &&& final(sched)@.schedule == old(sched)@.schedule
                },
                SyncAction::DrainOnThisThread => {
                    &&& pre.state == QueueState::Pending
                    &&& final(sched)@.queues == old(sched)@.queues.update(
                        q as int,
                        pre.begun().submitted(Job::Work(job_tag)),
                    )
                    &&& !final(sched)@.schedule.contains(q)
                },
                SyncAction::WaitForBackground => {
                    &&& pre.state != QueueState::Idle && pre.state != QueueState::Pending
                    &&& final(sched)@.queues == old(sched)@.queues.update(
                        q as int,
                        pre.submitted(Job::Work(job_tag)),
                    )
                    &&& final(sched)@.schedule == old(sched)@.schedule
                },
            }
        }),
{
    sched.sync(q, job_tag)
}

/// With a cap of zero and no workers spawned, no thread is ever woken or
/// spawned: all work falls to the calling thread.
pub proof fn lemma_zero_cap_keeps_pool_empty(before: Seq<bool>, after: Seq<bool>)
    requires
        before.len() == 0,
        thread_woken(before, after, 0),
    ensures
        after == before,
{
}

/// Waking or spawning never grows the pool beyond the larger of its
/// current size and the cap: with a cap of one, at most one worker is
/// ever spawned.
pub proof fn lemma_pool_bounded(before: Seq<bool>, after: Seq<bool>, cap: nat)
    requires
        thread_woken(before, after, cap),
    ensures
        after.len() <= if before.len() > cap {
            before.len()
        } else {
            cap
        },
{
}

} // verus!
