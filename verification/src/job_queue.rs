//! The per-datum job queue: a FIFO of pending jobs and a small state
//! machine that decides when the queue may run, suspend, or wait for a
//! waker to fire.

use vstd::prelude::*;
use std::collections::VecDeque;

verus! {

/// A unit of work held in a queue's buffer.
///
/// The body of an ordinary job is owned by the caller; the queue tracks it
/// by a caller-chosen tag.  A `Suspend` marker, when it is reached, raises
/// the queue's suspension count instead of running user work.
#[derive(Clone, Copy, PartialEq, Eq, Structural, Debug)]
pub enum Job {
    Work(u64),
    Suspend,
}

/// The state of a job queue.
#[derive(Clone, Copy, PartialEq, Eq, Structural, Debug)]
pub enum QueueState {
    /// No jobs buffered and nothing running.
    Idle,
    /// Jobs are buffered and the queue stands on the scheduler's run-list.
    Pending,
    /// A thread is draining this queue.
    Running,
    /// The current job's waker fired while the job was still being polled.
    AwokenWhileRunning,
    /// The current job returned pending; the queue waits for its waker.
    WaitingForWake,
    /// A suspension was requested and takes effect when the current job ends.
    Suspending,
    /// The queue is suspended and runs nothing until resumed.
    Suspended,
    /// A job panicked; the queue accepts no further work.
    Panicked,
}

/// The mathematical model of a queue: its buffered jobs in order, its
/// state, and the number of `suspend` requests not yet matched by `resume`.
pub struct QueueView {
    pub jobs: Seq<Job>,
    pub state: QueueState,
    pub suspension_count: nat,
}

impl QueueView {
    /// A queue is well formed when its suspension count fits the counter
    /// and a positive count is reflected in the state: suspension requests
    /// move the queue out of every runnable state.
    pub open spec fn wf(self) -> bool {
        &&& self.suspension_count <= u32::MAX
        &&& self.suspension_count > 0 ==> (self.state == QueueState::Suspending
            || self.state == QueueState::Suspended || self.state == QueueState::Panicked)
    }

    /// The queue after a job is appended: the buffer grows at the back and
    /// an idle queue becomes pending.
    pub open spec fn submitted(self, job: Job) -> QueueView {
        QueueView {
            jobs: self.jobs.push(job),
            state: if self.state == QueueState::Idle {
                QueueState::Pending
            } else {
                self.state
            },
            suspension_count: self.suspension_count,
        }
    }

    /// Whether appending a job asks the scheduler to place the queue on the
    /// run-list: exactly when the queue was idle.
    pub open spec fn submit_schedules(self) -> bool {
        self.state == QueueState::Idle
    }

    /// The queue once a thread has picked it up from the run-list.
    pub open spec fn begun(self) -> QueueView {
        QueueView { state: QueueState::Running, ..self }
    }

    /// The queue after its front job is removed.
    pub open spec fn dequeued(self) -> QueueView {
        QueueView { jobs: self.jobs.drop_first(), ..self }
    }

    /// The queue after its waker fires.
    pub open spec fn awoken(self) -> QueueView {
        QueueView {
            state: if self.state == QueueState::Running {
                QueueState::AwokenWhileRunning
            } else if self.state == QueueState::WaitingForWake {
                QueueState::Pending
            } else {
                self.state
            },
            ..self
        }
    }

    /// Whether the waker firing must signal the scheduler: exactly when the
    /// queue was waiting for the wake.
    pub open spec fn awoken_signals(self) -> bool {
        self.state == QueueState::WaitingForWake
    }

    /// The queue after a suspension request takes hold: the count rises,
    /// and the first outstanding request moves the queue to `Suspending`.
    pub open spec fn suspend_applied(self) -> QueueView {
        QueueView {
            suspension_count: self.suspension_count + 1,
            state: if self.suspension_count == 0 {
                QueueState::Suspending
            } else {
                self.state
            },
            ..self
        }
    }

    /// The queue after one `resume`: the count falls, and on reaching zero
    /// a suspended queue returns to idle while a queue still finishing its
    /// suspension returns to running.
    pub open spec fn resumed(self) -> QueueView {
        QueueView {
            suspension_count: (self.suspension_count - 1) as nat,
            state: if self.suspension_count == 1 {
                if self.state == QueueState::Suspended {
                    QueueState::Idle
                } else if self.state == QueueState::Suspending {
                    QueueState::Running
                } else {
                    self.state
                }
            } else {
                self.state
            },
            ..self
        }
    }

    /// Whether a `resume` asks the scheduler to reschedule the queue:
    /// exactly when it brings a suspended queue back to idle.
    pub open spec fn resume_reschedules(self) -> bool {
        self.suspension_count == 1 && self.state == QueueState::Suspended
    }

    /// The queue after the current job reports pending: a running queue
    /// starts waiting for its waker, and one already awoken keeps running.
    pub open spec fn paused(self) -> QueueView {
        QueueView {
            state: if self.state == QueueState::Running {
                QueueState::WaitingForWake
            } else {
                QueueState::Running
            },
            ..self
        }
    }

    /// Whether the thread draining the queue must park after the current
    /// job reported pending: exactly when no wake arrived in the meantime.
    pub open spec fn pause_parks(self) -> bool {
        self.state == QueueState::Running
    }

    /// The queue once the thread draining it stops: back to idle.
    pub open spec fn finished(self) -> QueueView {
        QueueView { state: QueueState::Idle, ..self }
    }

    /// The queue once a requested suspension takes effect.
    pub open spec fn suspend_finalized(self) -> QueueView {
        QueueView { state: QueueState::Suspended, ..self }
    }

    /// The queue after a job panicked.
    pub open spec fn panicked(self) -> QueueView {
        QueueView { state: QueueState::Panicked, ..self }
    }

    /// The queue after its front `k` jobs have been removed, one at a
    /// time: the buffer with its first `k` entries gone.
    pub open spec fn drained(self, k: nat) -> QueueView {
        QueueView { jobs: self.jobs.skip(k as int), ..self }
    }
}

/// The queue after `n` suspension requests have taken hold, one after the
/// other.
pub open spec fn suspended_n(q: QueueView, n: nat) -> QueueView
    decreases n,
{
    if n == 0 {
        q
    } else {
        suspended_n(q, (n - 1) as nat).suspend_applied()
    }
}

/// The queue after `n` resumes have been taken into account, one after
/// the other.
pub open spec fn resumed_n(q: QueueView, n: nat) -> QueueView
    decreases n,
{
    if n == 0 {
        q
    } else {
        resumed_n(q, (n - 1) as nat).resumed()
    }
}

/// Jobs complete in submission order: of two jobs submitted on one queue
/// in order `a`-then-`b`, `a` stands at the front after exactly the
/// previously buffered jobs have left, and `b` only one removal later —
/// so `a` is taken off, and hence completed by the single thread that
/// drains the queue, strictly before `b` is begun.
pub proof fn lemma_fifo_order(q: QueueView, a: Job, b: Job)
    ensures
        q.submitted(a).submitted(b).drained(q.jobs.len()).jobs[0] == a,
        q.submitted(a).submitted(b).drained((q.jobs.len() + 1) as nat).jobs[0] == b,
        forall|k: nat| k < q.jobs.len() ==> q.submitted(a).submitted(b).drained(k).jobs[0]
            == q.jobs[k as int],
{
    let q2 = q.submitted(a).submitted(b);
    assert(q2.jobs == q.jobs.push(a).push(b));
    assert forall|k: nat| k < q.jobs.len() implies q2.drained(k).jobs[0] == q.jobs[k as int] by {
        assert(q2.jobs.skip(k as int)[0] == q2.jobs[k as int]);
    }
    assert(q2.jobs.skip(q.jobs.len() as int)[0] == q2.jobs[q.jobs.len() as int]);
    assert(q2.jobs.skip(q.jobs.len() as int + 1)[0] == q2.jobs[q.jobs.len() as int + 1]);
}

/// A synchronous submission observes every previously submitted job: its
/// own job is appended behind them all, and reaches the front of the
/// buffer only once each prior job has been removed in order.
pub proof fn lemma_sync_behind_prior(q: QueueView, job: Job)
    ensures
        q.submitted(job).drained(q.jobs.len()).jobs[0] == job,
        forall|k: nat| k < q.jobs.len() ==> q.submitted(job).drained(k).jobs[0]
            == q.jobs[k as int],
{
    let q2 = q.submitted(job);
    assert(q2.jobs == q.jobs.push(job));
    assert forall|k: nat| k < q.jobs.len() implies q2.drained(k).jobs[0] == q.jobs[k as int] by {
        assert(q2.jobs.skip(k as int)[0] == q2.jobs[k as int]);
    }
    assert(q2.jobs.skip(q.jobs.len() as int)[0] == q2.jobs[q.jobs.len() as int]);
}

/// A suspension whose matching resume follows, with no other suspension
/// in between, leaves the queue — its suspension count included — exactly
/// as it was.
pub proof fn lemma_suspend_resume_identity(q: QueueView)
    requires
        q.wf(),
        q.state == QueueState::Running,
    ensures
        q.suspend_applied().resumed() == q,
{
    assert(q.suspension_count == 0);
}

/// The shape of a queue after `n >= 1` suspension requests from the
/// running state: the count has risen by `n` and the queue is suspending.
proof fn lemma_suspended_n_shape(q: QueueView, n: nat)
    requires
        q.state == QueueState::Running,
        q.suspension_count == 0,
        n >= 1,
    ensures
        suspended_n(q, n) == (QueueView { state: QueueState::Suspending, suspension_count: n, ..q }),
    decreases n,
{
    if n == 1 {
        assert(suspended_n(q, 1) == q.suspend_applied());
    } else {
        lemma_suspended_n_shape(q, (n - 1) as nat);
    }
}

/// The shape of a suspending queue after all `n >= 1` of its outstanding
/// suspensions are resumed: the count returns to zero and it runs again.
proof fn lemma_resumed_n_shape(q: QueueView, n: nat)
    requires
        q.state == QueueState::Suspending,
        q.suspension_count == n,
        n >= 1,
    ensures
        resumed_n(q, n) == (QueueView { state: QueueState::Running, suspension_count: 0, ..q }),
    decreases n,
{
    if n == 1 {
        assert(resumed_n(q, 0) == q);
        assert(resumed_n(q, 1) == q.resumed());
    } else {
        assert(q.resumed() == (QueueView { suspension_count: (n - 1) as nat, ..q }));
        lemma_resumed_n_shape(q.resumed(), (n - 1) as nat);
        assert(resumed_n(q, n) == resumed_n(q.resumed(), (n - 1) as nat)) by {
            lemma_resumed_n_prepend(q, n);
        }
    }
}

/// Unfolding: resuming `n >= 1` times is one resume followed by `n - 1`.
proof fn lemma_resumed_n_prepend(q: QueueView, n: nat)
    requires
        n >= 1,
    ensures
        resumed_n(q, n) == resumed_n(q.resumed(), (n - 1) as nat),
    decreases n,
{
    if n == 1 {
        assert(resumed_n(q, 0) == q);
        assert(resumed_n(q.resumed(), 0) == q.resumed());
    } else {
        lemma_resumed_n_prepend(q, (n - 1) as nat);
        assert(resumed_n(q, n) == resumed_n(q, (n - 1) as nat).resumed());
        assert(resumed_n(q.resumed(), (n - 1) as nat) == resumed_n(
            q.resumed(),
            (n - 2) as nat,
        ).resumed());
    }
}

/// Paired suspends and resumes balance out: `n` suspension requests
/// followed by their `n` matching resumes return a running queue to its
/// exact pre-suspend state.
pub proof fn lemma_paired_suspend_resume(q: QueueView, n: nat)
    requires
        q.wf(),
        q.state == QueueState::Running,
    ensures
        resumed_n(suspended_n(q, n), n) == q,
{
    if n == 0 {
    } else {
        assert(q.suspension_count == 0);
        lemma_suspended_n_shape(q, n);
        lemma_resumed_n_shape(suspended_n(q, n), n);
    }
}

/// Paired suspends and resumes balance out under every interleaving:
/// once a running queue carries `k >= 1` outstanding suspensions it is
/// exactly `suspended_n(q, k)`, one further suspension makes that
/// `suspended_n(q, k + 1)`, one resume makes it `suspended_n(q, k - 1)`,
/// and the resume that matches the last outstanding suspension restores
/// the queue exactly as it was — so any properly nested order of the
/// same `n` suspends and `n` resumes ends at the pre-suspend state.
pub proof fn lemma_paired_interleaving_step(q: QueueView, k: nat)
    requires
        q.wf(),
        q.state == QueueState::Running,
        k >= 1,
    ensures
        suspended_n(q, k).suspend_applied() == suspended_n(q, k + 1),
        k > 1 ==> suspended_n(q, k).resumed() == suspended_n(q, (k - 1) as nat),
        k == 1 ==> suspended_n(q, k).resumed() == q,
{
    assert(q.suspension_count == 0);
    lemma_suspended_n_shape(q, k);
    lemma_suspended_n_shape(q, k + 1);
    if k > 1 {
        lemma_suspended_n_shape(q, (k - 1) as nat);
    }
}

/// A run of suspension operations — `true` a suspend taking hold,
/// `false` a resume — applied to a queue from left to right.
pub open spec fn apply_suspension_ops(q: QueueView, ops: Seq<bool>) -> QueueView
    decreases ops.len(),
{
    if ops.len() == 0 {
        q
    } else if ops[0] {
        apply_suspension_ops(q.suspend_applied(), ops.drop_first())
    } else {
        apply_suspension_ops(q.resumed(), ops.drop_first())
    }
}

/// Whether a run of suspension operations is properly nested when `k`
/// suspensions are already outstanding: no resume arrives without a
/// matching suspend, and the run ends balanced.
pub open spec fn balanced_from(ops: Seq<bool>, k: int) -> bool
    decreases ops.len(),
{
    if ops.len() == 0 {
        k == 0
    } else if ops[0] {
        balanced_from(ops.drop_first(), k + 1)
    } else {
        k >= 1 && balanced_from(ops.drop_first(), k - 1)
    }
}

/// The queue after `k` outstanding suspensions: the queue itself when
/// none are outstanding.
pub open spec fn with_outstanding(q: QueueView, k: nat) -> QueueView {
    if k == 0 {
        q
    } else {
        suspended_n(q, k)
    }
}

/// Induction step for the interleaving law: from a running queue with
/// `k` outstanding suspensions, any properly nested remainder of the run
/// ends at the pre-suspend state.
proof fn lemma_balanced_ops_from(q: QueueView, k: nat, ops: Seq<bool>)
    requires
        q.wf(),
        q.state == QueueState::Running,
        balanced_from(ops, k as int),
    ensures
        apply_suspension_ops(with_outstanding(q, k), ops) == q,
    decreases ops.len(),
{
    assert(q.suspension_count == 0);
    if ops.len() == 0 {
    } else if ops[0] {
        if k == 0 {
            assert(suspended_n(q, 0) == q);
            assert(suspended_n(q, 1) == q.suspend_applied());
        } else {
            lemma_paired_interleaving_step(q, k);
        }
        lemma_balanced_ops_from(q, k + 1, ops.drop_first());
    } else {
        lemma_paired_interleaving_step(q, k);
        if k == 1 {
            lemma_balanced_ops_from(q, 0, ops.drop_first());
        } else {
            lemma_balanced_ops_from(q, (k - 1) as nat, ops.drop_first());
        }
    }
}

/// Paired suspends and resumes return the queue to its pre-suspend state
/// regardless of interleaving: every properly nested run of suspends and
/// their matching resumes, in whatever order, leaves a running queue —
/// its suspension count included — exactly as it was.
pub proof fn lemma_balanced_suspension_ops(q: QueueView, ops: Seq<bool>)
    requires
        q.wf(),
        q.state == QueueState::Running,
        balanced_from(ops, 0),
    ensures
        apply_suspension_ops(q, ops) == q,
{
    lemma_balanced_ops_from(q, 0, ops);
}

/// A drained, idle queue given one submission is run by exactly one job
/// execution and is idle again afterwards, exactly as it began.
pub proof fn lemma_idle_round_trip(q: QueueView, job: Job)
    requires
        q.wf(),
        q.state == QueueState::Idle,
        q.jobs.len() == 0,
    ensures
        q.submitted(job).begun().jobs.len() == 1,
        q.submitted(job).begun().dequeued().finished() == q,
{
    assert(q.jobs.push(job).drop_first() =~= q.jobs);
}

/// A queue whose current job returned pending and whose waker never fires
/// stays waiting for the wake: further submissions buffer behind it and
/// move the state no further; only the waker does.
pub proof fn lemma_waiting_stays_waiting(q: QueueView, job: Job)
    requires
        q.state == QueueState::WaitingForWake,
    ensures
        q.submitted(job).state == QueueState::WaitingForWake,
        q.awoken().state == QueueState::Pending,
{
}

/// An ordered buffer of pending jobs plus the state machine that governs
/// when they run.
pub struct JobQueue {
    jobs: VecDeque<Job>,
    state: QueueState,
    suspension_count: u32,
}

impl View for JobQueue {
    type V = QueueView;

    closed spec fn view(&self) -> QueueView {
        QueueView {
            jobs: self.jobs@,
            state: self.state,
            suspension_count: self.suspension_count as nat,
        }
    }
}

impl JobQueue {
    /// A fresh queue: idle, empty, not suspended.
    pub fn new() -> (q: JobQueue)
        ensures
            q@.wf(),
            q@.state == QueueState::Idle,
            q@.jobs == Seq::<Job>::empty(),
            q@.suspension_count == 0,
    {
        JobQueue { jobs: VecDeque::new(), state: QueueState::Idle, suspension_count: 0 }
    }

    /// The queue's current state.
    pub fn state(&self) -> (s: QueueState)
        ensures
            s == self@.state,
    {
        self.state
    }

    /// How many jobs stand in the buffer.
    pub fn job_count(&self) -> (n: usize)
        ensures
            n == self@.jobs.len(),
    {
        self.jobs.len()
    }

    /// How many `suspend` requests are not yet matched by `resume`.
    pub fn suspension_count(&self) -> (n: u32)
        ensures
            n == self@.suspension_count,
    {
        self.suspension_count
    }

    /// Appends a job at the back of the buffer.  An idle queue becomes
    /// pending, and the result says whether the caller must place the
    /// queue on the scheduler's run-list.  Submitting to a panicked queue
    /// is a caller error and is ruled out here.
    pub fn submit(&mut self, job: Job) -> (schedule: bool)
        requires
            old(self)@.wf(),
            old(self)@.state != QueueState::Panicked,
        ensures
            final(self)@.wf(),
            final(self)@ == old(self)@.submitted(job),
            schedule == old(self)@.submit_schedules(),
    {
        self.jobs.push_back(job);
        match self.state {
            QueueState::Idle => {
                self.state = QueueState::Pending;
                true
            },
            _ => false,
        }
    }

    /// Marks an idle queue with buffered jobs as pending again, when the
    /// scheduler places it back on the run-list.
    pub fn mark_pending(&mut self)
        requires
            old(self)@.wf(),
            old(self)@.state == QueueState::Idle,
        ensures
            final(self)@.wf(),
            final(self)@ == (QueueView { state: QueueState::Pending, ..old(self)@ }),
    {
        self.state = QueueState::Pending;
    }

    /// Marks the queue as running: a thread picked it up from the
    /// run-list, or a synchronous caller claims an idle queue inline.
    pub fn begin_running(&mut self)
        requires
            old(self)@.wf(),
            old(self)@.state == QueueState::Pending || old(self)@.state == QueueState::Idle,
        ensures
            final(self)@.wf(),
            final(self)@ == old(self)@.begun(),
    {
        self.state = QueueState::Running;
    }

    /// Removes and returns the front job, or `None` when the buffer is
    /// empty.
    pub fn dequeue(&mut self) -> (job: Option<Job>)
        requires
            old(self)@.wf(),
        ensures
            final(self)@.wf(),
            match job {
                Some(j) => old(self)@.jobs.len() > 0 && j == old(self)@.jobs[0]
                    && final(self)@ == old(self)@.dequeued(),
                None => old(self)@.jobs.len() == 0 && final(self)@ == old(self)@,
            },
    {
        self.jobs.pop_front()
    }

    /// Called by a job's waker.  A running queue is marked as awoken while
    /// running; a queue waiting for its wake becomes pending again, and the
    /// result then asks the caller to signal the scheduler.
    pub fn mark_awoken(&mut self) -> (reschedule: bool)
        requires
            old(self)@.wf(),
        ensures
            final(self)@.wf(),
            final(self)@ == old(self)@.awoken(),
            reschedule == old(self)@.awoken_signals(),
    {
        match self.state {
            QueueState::Running => {
                self.state = QueueState::AwokenWhileRunning;
                false
            },
            QueueState::WaitingForWake => {
                self.state = QueueState::Pending;
                true
            },
            _ => false,
        }
    }

    /// Applies a suspension request, reached as a queued job while the
    /// queue runs: the count rises and the queue starts suspending.
    pub fn suspend_requested(&mut self)
        requires
            old(self)@.wf(),
            old(self)@.state == QueueState::Running,
        ensures
            final(self)@.wf(),
            final(self)@ == old(self)@.suspend_applied(),
            final(self)@.state == QueueState::Suspending,
    {
        self.suspension_count = self.suspension_count + 1;
        if self.suspension_count == 1 {
            self.state = QueueState::Suspending;
        }
    }

    /// Takes one `resume` into account.  On reaching a count of zero, a
    /// suspended queue returns to idle — the result then asks the caller to
    /// reschedule it — and a queue still finishing its suspension resumes
    /// running.  A `resume` without a matching `suspend` is a caller error
    /// and is ruled out here.
    pub fn resume_step(&mut self) -> (reschedule: bool)
        requires
            old(self)@.wf(),
            old(self)@.suspension_count > 0,
        ensures
            final(self)@.wf(),
            final(self)@ == old(self)@.resumed(),
            reschedule == old(self)@.resume_reschedules(),
    {
        self.suspension_count = self.suspension_count - 1;
        if self.suspension_count == 0 {
            match self.state {
                QueueState::Suspended => {
                    self.state = QueueState::Idle;
                    true
                },
                QueueState::Suspending => {
                    self.state = QueueState::Running;
                    false
                },
                _ => false,
            }
        } else {
            false
        }
    }

    /// Notes that the current job returned pending.  A running queue moves
    /// to waiting for its wake and the thread parks; a queue whose waker
    /// already fired keeps running instead.
    pub fn note_job_pending(&mut self) -> (parked: bool)
        requires
            old(self)@.wf(),
            old(self)@.state == QueueState::Running || old(self)@.state
                == QueueState::AwokenWhileRunning,
        ensures
            final(self)@.wf(),
            final(self)@ == old(self)@.paused(),
            parked == old(self)@.pause_parks(),
    {
        match self.state {
            QueueState::Running => {
                self.state = QueueState::WaitingForWake;
                true
            },
            _ => {
                self.state = QueueState::Running;
                false
            },
        }
    }

    /// Marks a running queue idle, when the thread draining it stops.
    pub fn finish_running(&mut self)
        requires
            old(self)@.wf(),
            old(self)@.state == QueueState::Running,
        ensures
            final(self)@.wf(),
            final(self)@ == old(self)@.finished(),
    {
        self.state = QueueState::Idle;
    }

    /// Finalizes a requested suspension once the current job has ended.
    pub fn finalize_suspend(&mut self)
        requires
            old(self)@.wf(),
            old(self)@.state == QueueState::Suspending,
        ensures
            final(self)@.wf(),
            final(self)@ == old(self)@.suspend_finalized(),
    {
        self.state = QueueState::Suspended;
    }

    /// Records that a job panicked: the queue accepts no further work.
    pub fn mark_panicked(&mut self)
        requires
            old(self)@.wf(),
        ensures
            final(self)@.wf(),
            final(self)@ == old(self)@.panicked(),
    {
        self.state = QueueState::Panicked;
    }
}

} // verus!
