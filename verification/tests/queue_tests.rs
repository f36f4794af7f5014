use featherpull::job::{FormatSelection, Job, JobId, JobIdAllocator, JobStatus, VideoQuality};
use featherpull::queue::{clamp_concurrency, JobEvent, JobOutcome, QueueAction, QueueState, MAX_CONCURRENCY, MIN_CONCURRENCY};
use std::path::PathBuf;

fn test_job(allocator: &mut JobIdAllocator, url: &str) -> Job {
    Job::new(
        JobId::new(allocator),
        url.to_string(),
        FormatSelection::Preset(VideoQuality::Best),
        PathBuf::from("/tmp"),
    )
}

fn started(actions: Vec<QueueAction>) -> Vec<Job> {
    actions
        .into_iter()
        .filter_map(|a| match a {
            QueueAction::Start(job) => Some(job),
            _ => None,
        })
        .collect()
}

#[test]
fn concurrency_limit_is_never_exceeded() {
    let mut allocator = JobIdAllocator::new();
    let mut queue = QueueState::new(3);
    let mut running = Vec::new();
    for i in 0..6 {
        running.extend(started(queue.enqueue(test_job(&mut allocator, &format!("https://example.com/{i}")))));
        assert!(queue.running_count() <= 3);
    }
    assert_eq!(queue.running_count(), 3);

    let mut finished = 0;
    while let Some(job) = running.pop() {
        let actions = queue.on_job_finished(job, JobOutcome::Completed);
        finished += 1;
        running.extend(started(actions));
        assert!(queue.running_count() <= 3);
    }
    assert_eq!(finished, 6);
    assert_eq!(queue.running_count(), 0);
}

#[test]
fn enqueue_appends_to_pending_queue_in_order() {
    let mut allocator = JobIdAllocator::new();
    let mut queue = QueueState::new(1);

    let job1 = test_job(&mut allocator, "https://example.com/1");
    let job2 = test_job(&mut allocator, "https://example.com/2");
    let job3 = test_job(&mut allocator, "https://example.com/3");
    let (id2, id3) = (job2.id, job3.id);

    queue.enqueue(job1);
    queue.enqueue(job2);
    queue.enqueue(job3);

    assert_eq!(queue.running_count(), 1);
    assert_eq!(queue.pending_ids(), vec![id2, id3]);
}

#[test]
fn cancel_removes_pending_job_immediately() {
    let mut allocator = JobIdAllocator::new();
    let mut queue = QueueState::new(1);

    let job1 = test_job(&mut allocator, "https://example.com/1");
    let job2 = test_job(&mut allocator, "https://example.com/2");
    let job2_id = job2.id;

    queue.enqueue(job1);
    queue.enqueue(job2);

    assert_eq!(queue.pending_ids(), vec![job2_id]);

    let actions = queue.cancel(job2_id);

    assert_eq!(queue.pending_ids(), Vec::<JobId>::new());
    assert!(actions.iter().any(|a| matches!(
        a,
        QueueAction::Emit(JobEvent::Finished { job_id, result: Err(_) }) if *job_id == job2_id
    )));
}

#[test]
fn cancel_running_job_marks_it_cancelled() {
    let mut allocator = JobIdAllocator::new();
    let mut queue = QueueState::new(1);

    let job = test_job(&mut allocator, "https://example.com/1");
    let job_id = job.id;
    let mut running = started(queue.enqueue(job));

    assert_eq!(queue.running_count(), 1);

    let actions = queue.cancel(job_id);
    assert!(actions.iter().any(|a| matches!(a, QueueAction::SignalCancel(id) if *id == job_id)));

    let finished = queue.on_job_finished(running.pop().unwrap(), JobOutcome::Cancelled);
    assert!(finished.iter().any(|a| matches!(
        a,
        QueueAction::Emit(JobEvent::StatusChanged { job_id: id, status: JobStatus::Cancelled }) if *id == job_id
    )));
    assert!(finished.iter().any(|a| matches!(
        a,
        QueueAction::Emit(JobEvent::Finished { job_id: id, result: Err(_) }) if *id == job_id
    )));

    assert_eq!(queue.running_count(), 0);
}

#[test]
fn concurrency_is_clamped_to_valid_range() {
    let mut queue = QueueState::new(0);
    assert_eq!(queue.concurrency(), MIN_CONCURRENCY);

    queue.set_concurrency(11);
    assert_eq!(queue.concurrency(), MAX_CONCURRENCY);

    queue.set_concurrency(5);
    assert_eq!(queue.concurrency(), 5);

    queue.set_concurrency(15);
    assert_eq!(queue.concurrency(), MAX_CONCURRENCY);
}

#[test]
fn retry_requeues_failed_job() {
    let mut allocator = JobIdAllocator::new();
    let mut queue = QueueState::new(1);

    let job = test_job(&mut allocator, "https://example.com/1");
    let job_id = job.id;
    let mut running = started(queue.enqueue(job));
    let finished = queue.on_job_finished(running.pop().unwrap(), JobOutcome::Failed("boom".to_string()));
    assert!(finished.iter().any(|a| matches!(
        a,
        QueueAction::Emit(JobEvent::Finished { job_id: id, result: Err(_) }) if *id == job_id
    )));

    let (retried, actions) = queue.retry(job_id);
    assert!(retried);
    let restarted = started(actions);
    assert_eq!(restarted.len(), 1);
    assert_eq!(restarted[0].id, job_id);
    assert_eq!(restarted[0].url, "https://example.com/1");

    assert!(!queue.retry(JobId::new(&mut allocator)).0);
}

// ---- further cases ----

#[test]
fn clamping_keeps_values_in_range() {
    assert_eq!(clamp_concurrency(0), 1);
    assert_eq!(clamp_concurrency(1), 1);
    assert_eq!(clamp_concurrency(7), 7);
    assert_eq!(clamp_concurrency(10), 10);
    assert_eq!(clamp_concurrency(u32::MAX), 10);
}

#[test]
fn started_jobs_are_announced_as_downloading_first_come_first_served() {
    let mut allocator = JobIdAllocator::new();
    let mut queue = QueueState::new(2);
    let a = test_job(&mut allocator, "a");
    let b = test_job(&mut allocator, "b");
    let c = test_job(&mut allocator, "c");
    let (ida, idb, idc) = (a.id, b.id, c.id);
    let mut starts = started(queue.enqueue(a));
    starts.extend(started(queue.enqueue(b)));
    starts.extend(started(queue.enqueue(c)));
    assert_eq!(starts.iter().map(|j| j.id).collect::<Vec<_>>(), vec![ida, idb]);
    assert!(starts.iter().all(|j| j.status == JobStatus::Downloading { progress: 0, speed: None, eta: None }));
    assert_eq!(queue.pending_ids(), vec![idc]);
}

#[test]
fn raising_the_limit_starts_waiting_jobs_and_lowering_it_stops_nothing() {
    let mut allocator = JobIdAllocator::new();
    let mut queue = QueueState::new(1);
    for u in ["a", "b", "c"] {
        queue.enqueue(test_job(&mut allocator, u));
    }
    assert_eq!(queue.running_count(), 1);
    let starts = started(queue.set_concurrency(3));
    assert_eq!(starts.len(), 2);
    assert_eq!(queue.running_count(), 3);
    assert!(started(queue.set_concurrency(1)).is_empty());
    assert_eq!(queue.running_count(), 3);
}

#[test]
fn completed_and_unknown_jobs_cannot_be_retried() {
    let mut allocator = JobIdAllocator::new();
    let mut queue = QueueState::new(1);
    let job = test_job(&mut allocator, "a");
    let id = job.id;
    let mut running = started(queue.enqueue(job));
    queue.on_job_finished(running.pop().unwrap(), JobOutcome::Completed);
    let (retried, actions) = queue.retry(id);
    assert!(!retried);
    assert!(actions.is_empty());
}

#[test]
fn cancelling_an_unknown_job_does_nothing() {
    let mut allocator = JobIdAllocator::new();
    let mut queue = QueueState::new(1);
    let other = JobId::new(&mut allocator);
    assert!(queue.cancel(other).is_empty());
    assert_eq!(queue.running_count(), 0);
}
