//! Tests of the per-queue state machine.

use desync::job_queue::{Job, JobQueue, QueueState};

#[test]
fn new_queue_is_idle_and_empty() {
    let q = JobQueue::new();
    assert_eq!(q.state(), QueueState::Idle);
    assert_eq!(q.job_count(), 0);
    assert_eq!(q.suspension_count(), 0);
}

#[test]
fn submit_on_idle_asks_for_scheduling() {
    let mut q = JobQueue::new();
    let schedule = q.submit(Job::Work(7));
    assert!(schedule);
    assert_eq!(q.state(), QueueState::Pending);
    assert_eq!(q.job_count(), 1);
}

#[test]
fn submit_on_pending_keeps_state() {
    let mut q = JobQueue::new();
    assert!(q.submit(Job::Work(1)));
    assert!(!q.submit(Job::Work(2)));
    assert_eq!(q.state(), QueueState::Pending);
    assert_eq!(q.job_count(), 2);
}

#[test]
fn jobs_dequeue_in_submission_order() {
    let mut q = JobQueue::new();
    q.submit(Job::Work(1));
    q.submit(Job::Work(2));
    q.submit(Job::Work(3));
    q.begin_running();
    assert_eq!(q.dequeue(), Some(Job::Work(1)));
    assert_eq!(q.dequeue(), Some(Job::Work(2)));
    assert_eq!(q.dequeue(), Some(Job::Work(3)));
    assert_eq!(q.dequeue(), None);
}

#[test]
fn idle_round_trip_single_job() {
    let mut q = JobQueue::new();
    assert!(q.submit(Job::Work(42)));
    q.begin_running();
    assert_eq!(q.state(), QueueState::Running);
    assert_eq!(q.dequeue(), Some(Job::Work(42)));
    assert_eq!(q.dequeue(), None);
    q.finish_running();
    assert_eq!(q.state(), QueueState::Idle);
    assert_eq!(q.job_count(), 0);
    assert_eq!(q.suspension_count(), 0);
}

#[test]
fn suspend_then_resume_restores_count_and_state() {
    let mut q = JobQueue::new();
    q.submit(Job::Suspend);
    q.begin_running();
    q.dequeue();
    let before = q.suspension_count();
    q.suspend_requested();
    assert_eq!(q.state(), QueueState::Suspending);
    assert_eq!(q.suspension_count(), before + 1);
    let reschedule = q.resume_step();
    assert!(!reschedule);
    assert_eq!(q.state(), QueueState::Running);
    assert_eq!(q.suspension_count(), before);
}

#[test]
fn paired_suspend_resume_three_times() {
    let mut q = JobQueue::new();
    q.submit(Job::Work(0));
    q.begin_running();
    q.dequeue();
    for _ in 0..3 {
        q.suspend_requested();
        assert_eq!(q.state(), QueueState::Suspending);
        assert_eq!(q.suspension_count(), 1);
        let reschedule = q.resume_step();
        assert!(!reschedule);
    }
    assert_eq!(q.state(), QueueState::Running);
    assert_eq!(q.suspension_count(), 0);
}

#[test]
fn resume_of_suspended_queue_returns_to_idle() {
    let mut q = JobQueue::new();
    q.submit(Job::Suspend);
    q.begin_running();
    q.dequeue();
    q.suspend_requested();
    q.finalize_suspend();
    assert_eq!(q.state(), QueueState::Suspended);
    let reschedule = q.resume_step();
    assert!(reschedule);
    assert_eq!(q.state(), QueueState::Idle);
    assert_eq!(q.suspension_count(), 0);
}

#[test]
fn pending_job_parks_queue_until_woken() {
    let mut q = JobQueue::new();
    q.submit(Job::Work(9));
    q.begin_running();
    q.dequeue();
    let parked = q.note_job_pending();
    assert!(parked);
    assert_eq!(q.state(), QueueState::WaitingForWake);
    // Further submissions buffer behind the waiting job and do not move
    // the state on; only the waker does.
    assert!(!q.submit(Job::Work(10)));
    assert_eq!(q.state(), QueueState::WaitingForWake);
    assert_eq!(q.job_count(), 1);
    let reschedule = q.mark_awoken();
    assert!(reschedule);
    assert_eq!(q.state(), QueueState::Pending);
}

#[test]
fn wake_during_run_skips_the_park() {
    let mut q = JobQueue::new();
    q.submit(Job::Work(9));
    q.begin_running();
    q.dequeue();
    // The waker fires while the job is still being polled.
    let reschedule = q.mark_awoken();
    assert!(!reschedule);
    assert_eq!(q.state(), QueueState::AwokenWhileRunning);
    // The job then returns pending, but the queue keeps running.
    let parked = q.note_job_pending();
    assert!(!parked);
    assert_eq!(q.state(), QueueState::Running);
}

#[test]
fn mark_awoken_elsewhere_is_a_no_op() {
    let mut q = JobQueue::new();
    let reschedule = q.mark_awoken();
    assert!(!reschedule);
    assert_eq!(q.state(), QueueState::Idle);
}

#[test]
fn panicked_queue_stays_panicked() {
    let mut q = JobQueue::new();
    q.submit(Job::Work(1));
    q.begin_running();
    q.dequeue();
    q.mark_panicked();
    assert_eq!(q.state(), QueueState::Panicked);
    let reschedule = q.mark_awoken();
    assert!(!reschedule);
    assert_eq!(q.state(), QueueState::Panicked);
}

#[test]
fn mark_pending_reschedules_idle_queue_with_jobs() {
    let mut q = JobQueue::new();
    q.submit(Job::Work(1));
    q.begin_running();
    q.finish_running();
    assert_eq!(q.state(), QueueState::Idle);
    assert_eq!(q.job_count(), 1);
    q.mark_pending();
    assert_eq!(q.state(), QueueState::Pending);
}
