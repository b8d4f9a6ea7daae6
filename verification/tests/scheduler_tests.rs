//! Tests of the scheduler core: run-list, worker pool, thread cap, and
//! the synchronous-submission protocol.

use desync::job_queue::{Job, QueueState};
use desync::scheduler::{
    desync, max_threads_for, queue, sync, Scheduler, SyncAction, MIN_THREADS,
};

#[test]
fn cap_formula_has_a_floor_of_eight() {
    assert_eq!(max_threads_for(1), MIN_THREADS);
    assert_eq!(max_threads_for(4), MIN_THREADS);
    assert_eq!(max_threads_for(5), 10);
    assert_eq!(max_threads_for(16), 32);
    assert_eq!(max_threads_for(usize::MAX), usize::MAX);
}

#[test]
fn new_scheduler_has_default_cap() {
    let s = Scheduler::new();
    assert!(s.max_threads() >= MIN_THREADS);
    assert_eq!(s.thread_count(), 0);
    assert_eq!(s.schedule_len(), 0);
    assert_eq!(s.queue_count(), 0);
}

#[test]
fn create_job_queue_returns_idle_queue() {
    let mut s = Scheduler::with_max_threads(2);
    let q = s.create_job_queue();
    assert_eq!(q, 0);
    assert_eq!(s.queue_count(), 1);
    assert_eq!(s.queue_state(q), QueueState::Idle);
    assert_eq!(s.queue_job_count(q), 0);
}

#[test]
fn submission_schedules_idle_queue_and_spawns_worker() {
    let mut s = Scheduler::with_max_threads(2);
    let q = s.create_job_queue();
    s.desync(q, 1);
    assert_eq!(s.queue_state(q), QueueState::Pending);
    assert_eq!(s.schedule_len(), 1);
    // A worker was spawned for the work, within the cap.
    assert_eq!(s.thread_count(), 1);
    // A second submission changes nothing but the buffer.
    s.desync(q, 2);
    assert_eq!(s.schedule_len(), 1);
    assert_eq!(s.queue_job_count(q), 2);
}

#[test]
fn worker_drains_jobs_in_submission_order() {
    let mut s = Scheduler::with_max_threads(1);
    let q = s.create_job_queue();
    s.desync(q, 10);
    s.desync(q, 20);
    s.desync(q, 30);
    let claimed = s.worker_claim(0);
    assert_eq!(claimed, Some(q));
    assert_eq!(s.queue_state(q), QueueState::Running);
    assert_eq!(s.schedule_len(), 0);
    assert_eq!(s.dequeue_job(q), Some(Job::Work(10)));
    assert_eq!(s.dequeue_job(q), Some(Job::Work(20)));
    assert_eq!(s.dequeue_job(q), Some(Job::Work(30)));
    assert_eq!(s.dequeue_job(q), None);
    s.finish_queue(q);
    assert_eq!(s.queue_state(q), QueueState::Idle);
    // Nothing left for the worker: it parks.
    assert_eq!(s.worker_claim(0), None);
}

#[test]
fn cap_of_one_serializes_queues_without_overlap() {
    let mut s = Scheduler::with_max_threads(1);
    let qa = s.create_job_queue();
    let qb = s.create_job_queue();
    s.desync(qa, 1);
    s.desync(qb, 2);
    // Only one worker exists despite two runnable queues.
    assert_eq!(s.thread_count(), 1);
    let first = s.worker_claim(0).unwrap();
    assert_eq!(first, qa);
    // While the first queue runs, the second stays pending: no overlap.
    assert_eq!(s.queue_state(qa), QueueState::Running);
    assert_eq!(s.queue_state(qb), QueueState::Pending);
    assert_eq!(s.dequeue_job(qa), Some(Job::Work(1)));
    assert_eq!(s.dequeue_job(qa), None);
    s.finish_queue(qa);
    let second = s.worker_claim(0).unwrap();
    assert_eq!(second, qb);
    assert_eq!(s.dequeue_job(qb), Some(Job::Work(2)));
    assert_eq!(s.dequeue_job(qb), None);
    s.finish_queue(qb);
    assert_eq!(s.worker_claim(0), None);
}

#[test]
fn zero_cap_spawns_no_worker() {
    let mut s = Scheduler::with_max_threads(0);
    let q = s.create_job_queue();
    s.desync(q, 1);
    // The queue is runnable but no thread was woken or spawned: the work
    // falls to the calling thread.
    assert_eq!(s.schedule_len(), 1);
    assert_eq!(s.thread_count(), 0);
    // The caller performs it synchronously: drain on this thread.
    let action = s.sync(q, 99);
    assert_eq!(action, SyncAction::DrainOnThisThread);
    assert_eq!(s.schedule_len(), 0);
    assert_eq!(s.dequeue_job(q), Some(Job::Work(1)));
    assert_eq!(s.dequeue_job(q), Some(Job::Work(99)));
    assert_eq!(s.dequeue_job(q), None);
    s.finish_queue(q);
    assert_eq!(s.queue_state(q), QueueState::Idle);
}

#[test]
fn sync_on_idle_queue_is_immediate() {
    let mut s = Scheduler::with_max_threads(4);
    let q = s.create_job_queue();
    let action = s.sync(q, 5);
    assert_eq!(action, SyncAction::Immediate);
    assert_eq!(s.queue_state(q), QueueState::Running);
    // The caller runs the job inline, then hands the queue back.
    s.sync_immediate(q);
    assert_eq!(s.queue_state(q), QueueState::Idle);
    assert_eq!(s.schedule_len(), 0);
}

#[test]
fn sync_on_busy_queue_waits_for_background() {
    let mut s = Scheduler::with_max_threads(1);
    let q = s.create_job_queue();
    s.desync(q, 1);
    let claimed = s.worker_claim(0);
    assert_eq!(claimed, Some(q));
    // The queue runs in the background: the sync job lines up behind it.
    let action = s.sync(q, 2);
    assert_eq!(action, SyncAction::WaitForBackground);
    assert_eq!(s.queue_job_count(q), 2);
    assert_eq!(s.dequeue_job(q), Some(Job::Work(1)));
    assert_eq!(s.dequeue_job(q), Some(Job::Work(2)));
}

#[test]
fn sync_background_appends_without_scheduling() {
    let mut s = Scheduler::with_max_threads(1);
    let q = s.create_job_queue();
    s.desync(q, 1);
    s.worker_claim(0);
    s.sync_background(q, 7);
    assert_eq!(s.queue_job_count(q), 2);
    assert_eq!(s.schedule_len(), 0);
}

#[test]
fn suspended_queue_runs_nothing_until_resumed() {
    let mut s = Scheduler::with_max_threads(1);
    let q = s.create_job_queue();
    s.suspend(q);
    s.desync(q, 1);
    s.desync(q, 2);
    s.desync(q, 3);
    let claimed = s.worker_claim(0);
    assert_eq!(claimed, Some(q));
    assert_eq!(s.dequeue_job(q), Some(Job::Suspend));
    s.apply_suspend(q);
    assert_eq!(s.queue_state(q), QueueState::Suspending);
    s.finish_queue(q);
    assert_eq!(s.queue_state(q), QueueState::Suspended);
    assert_eq!(s.queue_suspension_count(q), 1);
    // All three jobs still stand unrun and the queue is off the run-list.
    assert_eq!(s.queue_job_count(q), 3);
    assert_eq!(s.schedule_len(), 0);
    assert_eq!(s.worker_claim(0), None);
    // Resume: the queue returns to the run-list and drains in order.
    s.resume(q);
    assert_eq!(s.queue_state(q), QueueState::Pending);
    assert_eq!(s.queue_suspension_count(q), 0);
    let claimed = s.worker_claim(0);
    assert_eq!(claimed, Some(q));
    assert_eq!(s.dequeue_job(q), Some(Job::Work(1)));
    assert_eq!(s.dequeue_job(q), Some(Job::Work(2)));
    assert_eq!(s.dequeue_job(q), Some(Job::Work(3)));
    assert_eq!(s.dequeue_job(q), None);
    s.finish_queue(q);
    assert_eq!(s.queue_state(q), QueueState::Idle);
}

#[test]
fn resume_of_suspending_queue_keeps_it_running() {
    let mut s = Scheduler::with_max_threads(1);
    let q = s.create_job_queue();
    s.suspend(q);
    s.worker_claim(0);
    assert_eq!(s.dequeue_job(q), Some(Job::Suspend));
    s.apply_suspend(q);
    assert_eq!(s.queue_state(q), QueueState::Suspending);
    // The resume arrives before the suspension was finalized.
    s.resume(q);
    assert_eq!(s.queue_state(q), QueueState::Running);
    assert_eq!(s.queue_suspension_count(q), 0);
}

#[test]
fn pending_job_and_waker_round_trip() {
    let mut s = Scheduler::with_max_threads(1);
    let q = s.create_job_queue();
    s.desync(q, 1);
    s.worker_claim(0);
    assert_eq!(s.dequeue_job(q), Some(Job::Work(1)));
    // The job returned pending: the queue waits for its waker and the
    // worker moves on.
    let parked = s.note_job_pending(q);
    assert!(parked);
    assert_eq!(s.queue_state(q), QueueState::WaitingForWake);
    assert_eq!(s.schedule_len(), 0);
    // The waker fires: the queue is rescheduled.
    let rescheduled = s.awaken(q);
    assert!(rescheduled);
    assert_eq!(s.queue_state(q), QueueState::Pending);
    assert_eq!(s.schedule_len(), 1);
    let claimed = s.worker_claim(0);
    assert_eq!(claimed, Some(q));
    assert_eq!(s.dequeue_job(q), None);
    s.finish_queue(q);
    assert_eq!(s.queue_state(q), QueueState::Idle);
}

#[test]
fn waker_during_poll_keeps_queue_running() {
    let mut s = Scheduler::with_max_threads(1);
    let q = s.create_job_queue();
    s.desync(q, 1);
    s.worker_claim(0);
    assert_eq!(s.dequeue_job(q), Some(Job::Work(1)));
    let rescheduled = s.awaken(q);
    assert!(!rescheduled);
    assert_eq!(s.queue_state(q), QueueState::AwokenWhileRunning);
    let parked = s.note_job_pending(q);
    assert!(!parked);
    assert_eq!(s.queue_state(q), QueueState::Running);
}

#[test]
fn finish_queue_reschedules_late_arrivals() {
    let mut s = Scheduler::with_max_threads(1);
    let q = s.create_job_queue();
    s.desync(q, 1);
    s.worker_claim(0);
    assert_eq!(s.dequeue_job(q), Some(Job::Work(1)));
    // A job arrives while the queue still runs.
    s.desync(q, 2);
    assert_eq!(s.schedule_len(), 0);
    // The worker stops: the queue goes straight back on the run-list.
    s.finish_queue(q);
    assert_eq!(s.queue_state(q), QueueState::Pending);
    assert_eq!(s.schedule_len(), 1);
}

#[test]
fn set_max_threads_fills_pool_while_work_stands() {
    let mut s = Scheduler::with_max_threads(0);
    let q = s.create_job_queue();
    s.desync(q, 1);
    assert_eq!(s.thread_count(), 0);
    s.set_max_threads(3);
    assert_eq!(s.max_threads(), 3);
    assert_eq!(s.thread_count(), 3);
}

#[test]
fn set_max_threads_with_empty_run_list_changes_only_the_cap() {
    let mut s = Scheduler::with_max_threads(0);
    s.set_max_threads(5);
    assert_eq!(s.max_threads(), 5);
    assert_eq!(s.thread_count(), 0);
}

#[test]
fn despawn_trims_pool_to_cap() {
    let mut s = Scheduler::with_max_threads(4);
    s.spawn_thread();
    s.spawn_thread();
    s.spawn_thread();
    assert_eq!(s.thread_count(), 3);
    s.set_max_threads(1);
    s.despawn_threads_if_overloaded();
    assert_eq!(s.thread_count(), 1);
}

#[test]
fn mark_panicked_blocks_further_claims() {
    let mut s = Scheduler::with_max_threads(1);
    let q = s.create_job_queue();
    s.desync(q, 1);
    s.worker_claim(0);
    s.mark_panicked(q);
    assert_eq!(s.queue_state(q), QueueState::Panicked);
    assert_eq!(s.worker_claim(0), None);
}

#[test]
fn free_functions_delegate_to_the_scheduler() {
    let mut s = Scheduler::with_max_threads(1);
    let q = queue(&mut s);
    desync(&mut s, q, 4);
    assert_eq!(s.queue_state(q), QueueState::Pending);
    assert_eq!(s.queue_job_count(q), 1);
    let action = sync(&mut s, q, 5);
    assert_eq!(action, SyncAction::DrainOnThisThread);
    assert_eq!(s.queue_job_count(q), 2);
}
