//! What holds of the queue across its operations.

use crate::job::{JobStatusView, JobView};
use crate::queue::{
    cancelled_message, is_failed, is_first_pending, model_wf, outcome_status, schedule, spec_cancel, spec_clamp_concurrency, spec_enqueue,
    spec_finish, spec_retry, spec_set_concurrency, starting_status, JobEventView, JobOutcomeView,
    QueueActionView, QueueModel,
};
use vstd::prelude::*;

verus! {

/// The running set holds at most `limit` jobs.
pub open spec fn within_limit(m: QueueModel) -> bool {
    m.running.len() <= m.concurrency
}

/// No slot is left idle while a job waits.
pub open spec fn saturated(m: QueueModel) -> bool {
    m.pending.len() == 0 || m.running.len() >= m.concurrency
}

/// Every job sits in exactly one place: the waiting identifiers are distinct,
/// and no identifier is both waiting and running, waiting and finished, or
/// running and finished.
pub open spec fn placed_once(m: QueueModel) -> bool {
    &&& forall|i: int, j: int|
        0 <= i < m.pending.len() && 0 <= j < m.pending.len() && i != j
            ==> #[trigger] m.pending[i].id != #[trigger] m.pending[j].id
    &&& forall|i: int|
        0 <= i < m.pending.len() ==> !m.running.contains(#[trigger] m.pending[i].id)
            && !m.finished.contains_key(m.pending[i].id)
    &&& forall|id: u64| #[trigger] m.running.contains(id) ==> !m.finished.contains_key(id)
}

/// The number of jobs that `schedule` starts.
pub open spec fn started_count(m: QueueModel) -> int {
    m.pending.len() - schedule(m).0.pending.len()
}

/// A job with this identifier is among the first `k` waiting jobs.
pub open spec fn among_first(pending: Seq<JobView>, k: int, id: u64) -> bool {
    exists|i: int| 0 <= i < k && pending[i].id == id
}

proof fn lemma_schedule_shape(m: QueueModel)
    requires
        model_wf(m),
    ensures
        ({
            let r = schedule(m).0;
            let acts = schedule(m).1;
            let k = started_count(m);
            &&& 0 <= k <= m.pending.len()
            &&& r.concurrency == m.concurrency
            &&& r.finished == m.finished
            &&& r.running.finite()
            &&& r.pending == m.pending.skip(k)
            &&& acts.len() == 2 * k
            &&& forall|i: int|
                #![trigger m.pending[i]]
                0 <= i < k ==> acts[2 * i] == QueueActionView::Emit(
                    JobEventView::StatusChanged { job_id: m.pending[i].id, status: starting_status() },
                ) && acts[2 * i + 1] == QueueActionView::Start(
                    JobView { status: starting_status(), ..m.pending[i] },
                )
            &&& forall|id: u64|
                #[trigger] r.running.contains(id) == (m.running.contains(id) || among_first(m.pending, k, id))
            &&& r.running.len() <= m.running.len() + k
            &&& (m.running.len() >= m.concurrency ==> k == 0)
            &&& (m.running.len() <= m.concurrency ==> r.running.len() <= m.concurrency)
            &&& saturated(r)
        }),
    decreases m.pending.len(),
{
    if m.running.len() >= m.concurrency || m.pending.len() == 0 {
        assert(m.pending.skip(0) =~= m.pending);
        assert forall|id: u64| #[trigger] m.running.contains(id) == (m.running.contains(id) || among_first(m.pending, 0, id)) by {}
    } else {
        let job = JobView { status: starting_status(), ..m.pending[0] };
        let next = QueueModel {
            pending: m.pending.drop_first(),
            running: m.running.insert(job.id),
            ..m
        };
        lemma_schedule_shape(next);
        let r = schedule(m).0;
        let acts = schedule(m).1;
        let k2 = started_count(next);
        assert(schedule(m) == (schedule(next).0, seq![
            QueueActionView::Emit(JobEventView::StatusChanged { job_id: job.id, status: starting_status() }),
            QueueActionView::Start(job),
        ] + schedule(next).1));
        assert(started_count(m) == k2 + 1);
        assert(r.pending =~= m.pending.skip(k2 + 1));
        assert forall|i: int| 0 <= i < k2 + 1 implies acts[2 * i] == QueueActionView::Emit(
            JobEventView::StatusChanged { job_id: m.pending[i].id, status: starting_status() },
        ) && acts[2 * i + 1] == QueueActionView::Start(
            JobView { status: starting_status(), ..m.pending[i] },
        ) by {
            if i > 0 {
                assert(acts[2 * i] == schedule(next).1[2 * (i - 1)]);
                assert(acts[2 * i + 1] == schedule(next).1[2 * (i - 1) + 1]);
                assert(next.pending[i - 1] == m.pending[i]);
            }
        }
        assert forall|id: u64| #[trigger] r.running.contains(id) == (m.running.contains(id) || among_first(m.pending, k2 + 1, id)) by {
            if among_first(next.pending, k2, id) {
                let i = choose|i: int| 0 <= i < k2 && next.pending[i].id == id;
                assert(m.pending[i + 1].id == id);
            }
            if among_first(m.pending, k2 + 1, id) {
                let i = choose|i: int| 0 <= i < k2 + 1 && m.pending[i].id == id;
                if i > 0 {
                    assert(next.pending[i - 1].id == id);
                }
            }
        }
    }
}

/// Waiting jobs start in the order in which they joined the line: a scheduling
/// step starts the first `k` waiting jobs, front first, each announced as
/// `Downloading` and then handed over with that status, and the rest of the
/// line is left as it was.
pub proof fn law_scheduling_is_first_come_first_served(m: QueueModel)
    requires
        model_wf(m),
    ensures
        ({
            let k = started_count(m);
            &&& 0 <= k <= m.pending.len()
            &&& schedule(m).0.pending == m.pending.skip(k)
            &&& schedule(m).1.len() == 2 * k
            &&& forall|i: int|
                #![trigger m.pending[i]]
                0 <= i < k ==> schedule(m).1[2 * i + 1] == QueueActionView::Start(
                    JobView { status: starting_status(), ..m.pending[i] },
                )
        }),
{
    lemma_schedule_shape(m);
}

/// Scheduling never starts a job while the running jobs fill the limit, keeps
/// a state within the limit within it, and leaves no slot idle while a job
/// waits.
pub proof fn law_scheduling_respects_limit(m: QueueModel)
    requires
        model_wf(m),
    ensures
        m.running.len() >= m.concurrency ==> schedule(m).1.len() == 0,
        within_limit(m) ==> within_limit(schedule(m).0),
        saturated(schedule(m).0),
{
    lemma_schedule_shape(m);
}

/// No operation takes the running jobs past the limit: enqueueing, cancelling,
/// retrying and finishing keep a state within the limit within it, and after a
/// change of the limit the running jobs number at most the larger of their
/// former number and the new limit.
pub proof fn law_operations_respect_limit(m: QueueModel, job: JobView, id: u64, value: u32, outcome: JobOutcomeView)
    requires
        model_wf(m),
    ensures
        within_limit(m) ==> within_limit(spec_enqueue(m, job).0),
        within_limit(m) ==> within_limit(spec_cancel(m, id).0),
        within_limit(m) ==> within_limit(spec_retry(m, id).1),
        within_limit(m) ==> within_limit(spec_finish(m, job, outcome).0),
        spec_set_concurrency(m, value).0.running.len() <= m.running.len()
            || within_limit(spec_set_concurrency(m, value).0),
{
    let e = QueueModel { pending: m.pending.push(job), ..m };
    lemma_schedule_shape(e);
    let c = QueueModel { concurrency: spec_clamp_concurrency(value), ..m };
    lemma_schedule_shape(c);
    if is_failed(m, id) {
        let requeued = QueueModel {
            pending: m.pending.push(JobView { status: crate::job::JobStatusView::Queued, ..m.finished[id] }),
            finished: m.finished.remove(id),
            ..m
        };
        lemma_schedule_shape(requeued);
    }
    let done = QueueModel {
        running: m.running.remove(job.id),
        finished: m.finished.insert(job.id, JobView { status: outcome_status(outcome), ..job }),
        ..m
    };
    assert(model_wf(done));
    lemma_schedule_shape(done);
}


/// No job with this identifier is waiting, running or finished.
pub open spec fn fresh(m: QueueModel, id: u64) -> bool {
    &&& forall|i: int| 0 <= i < m.pending.len() ==> #[trigger] m.pending[i].id != id
    &&& !m.running.contains(id)
    &&& !m.finished.contains_key(id)
}

proof fn lemma_schedule_placed_once(m: QueueModel)
    requires
        model_wf(m),
        placed_once(m),
    ensures
        placed_once(schedule(m).0),
{
    lemma_schedule_shape(m);
    let r = schedule(m).0;
    let k = started_count(m);
    assert forall|i: int, j: int|
        0 <= i < r.pending.len() && 0 <= j < r.pending.len() && i != j
            implies #[trigger] r.pending[i].id != #[trigger] r.pending[j].id by {
        assert(r.pending[i] == m.pending[i + k]);
        assert(r.pending[j] == m.pending[j + k]);
    }
    assert forall|i: int| 0 <= i < r.pending.len() implies !r.running.contains(#[trigger] r.pending[i].id)
        && !r.finished.contains_key(r.pending[i].id) by {
        assert(r.pending[i] == m.pending[i + k]);
        if among_first(m.pending, k, r.pending[i].id) {
            let j = choose|j: int| 0 <= j < k && m.pending[j].id == r.pending[i].id;
            assert(m.pending[j].id != m.pending[i + k].id);
        }
    }
    assert forall|id: u64| #[trigger] r.running.contains(id) implies !r.finished.contains_key(id) by {
        if among_first(m.pending, k, id) {
            let j = choose|j: int| 0 <= j < k && m.pending[j].id == id;
            assert(!m.finished.contains_key(m.pending[j].id));
        }
    }
}

/// Every operation keeps each job in exactly one place, provided that an
/// enqueued job's identifier is new to the queue and that a job reported as
/// finished is one that runs.
pub proof fn law_operations_keep_jobs_placed_once(
    m: QueueModel,
    job: JobView,
    id: u64,
    value: u32,
    outcome: JobOutcomeView,
)
    requires
        model_wf(m),
        placed_once(m),
    ensures
        fresh(m, job.id) ==> placed_once(spec_enqueue(m, job).0),
        placed_once(spec_cancel(m, id).0),
        placed_once(spec_retry(m, id).1),
        placed_once(spec_set_concurrency(m, value).0),
        m.running.contains(job.id) ==> placed_once(spec_finish(m, job, outcome).0),
{
    if fresh(m, job.id) {
        let e = QueueModel { pending: m.pending.push(job), ..m };
        assert forall|i: int, j: int|
            0 <= i < e.pending.len() && 0 <= j < e.pending.len() && i != j
                implies #[trigger] e.pending[i].id != #[trigger] e.pending[j].id by {
            if i < m.pending.len() && j < m.pending.len() {
                assert(e.pending[i] == m.pending[i] && e.pending[j] == m.pending[j]);
            } else if i < m.pending.len() {
                assert(e.pending[i] == m.pending[i]);
            } else if j < m.pending.len() {
                assert(e.pending[j] == m.pending[j]);
            }
        }
        assert forall|i: int| 0 <= i < e.pending.len() implies !e.running.contains(#[trigger] e.pending[i].id)
            && !e.finished.contains_key(e.pending[i].id) by {
            if i < m.pending.len() {
                assert(e.pending[i] == m.pending[i]);
            }
        }
        lemma_schedule_placed_once(e);
    }
    let c = QueueModel { concurrency: spec_clamp_concurrency(value), ..m };
    lemma_schedule_placed_once(c);
    if exists|i: int| is_first_pending(m.pending, id, i) {
        let i = choose|i: int| is_first_pending(m.pending, id, i);
        let r = spec_cancel(m, id).0;
        assert forall|a: int, b: int|
            0 <= a < r.pending.len() && 0 <= b < r.pending.len() && a != b
                implies #[trigger] r.pending[a].id != #[trigger] r.pending[b].id by {
            let a2 = if a < i { a } else { a + 1 };
            let b2 = if b < i { b } else { b + 1 };
            assert(r.pending[a] == m.pending[a2]);
            assert(r.pending[b] == m.pending[b2]);
        }
        assert forall|a: int| 0 <= a < r.pending.len() implies !r.running.contains(#[trigger] r.pending[a].id)
            && !r.finished.contains_key(r.pending[a].id) by {
            let a2 = if a < i { a } else { a + 1 };
            assert(r.pending[a] == m.pending[a2]);
            assert(m.pending[a2].id != m.pending[i].id);
        }
    }
    if is_failed(m, id) {
        let requeued = QueueModel {
            pending: m.pending.push(JobView { status: JobStatusView::Queued, ..m.finished[id] }),
            finished: m.finished.remove(id),
            ..m
        };
        assert(m.finished[id].id == id);
        assert forall|i: int, j: int|
            0 <= i < requeued.pending.len() && 0 <= j < requeued.pending.len() && i != j
                implies #[trigger] requeued.pending[i].id != #[trigger] requeued.pending[j].id by {
            if i < m.pending.len() {
                assert(requeued.pending[i] == m.pending[i]);
            }
            if j < m.pending.len() {
                assert(requeued.pending[j] == m.pending[j]);
            }
        }
        assert forall|i: int| 0 <= i < requeued.pending.len() implies !requeued.running.contains(#[trigger] requeued.pending[i].id)
            && !requeued.finished.contains_key(requeued.pending[i].id) by {
            if i < m.pending.len() {
                assert(requeued.pending[i] == m.pending[i]);
            }
        }
        lemma_schedule_placed_once(requeued);
    }
    if m.running.contains(job.id) {
        let done = QueueModel {
            running: m.running.remove(job.id),
            finished: m.finished.insert(job.id, JobView { status: outcome_status(outcome), ..job }),
            ..m
        };
        assert(model_wf(done));
        lemma_schedule_placed_once(done);
    }
}

/// Cancelling never starts or stops a job: the running set, the limit and the
/// line's other jobs stay as they were. A waiting job leaves the line at once
/// and is filed as cancelled, announced by a `Cancelled` status and a failed
/// result; a running job only gets a cancellation signal.
pub proof fn law_cancel_removes_only_the_waiting_job(m: QueueModel, id: u64)
    requires
        model_wf(m),
        placed_once(m),
    ensures
        spec_cancel(m, id).0.running == m.running,
        spec_cancel(m, id).0.concurrency == m.concurrency,
        (exists|i: int| 0 <= i < m.pending.len() && m.pending[i].id == id) ==> {
            &&& forall|i: int|
                0 <= i < spec_cancel(m, id).0.pending.len() ==> #[trigger] spec_cancel(m, id).0.pending[i].id != id
            &&& spec_cancel(m, id).0.pending.len() == m.pending.len() - 1
            &&& spec_cancel(m, id).0.finished[id].status == JobStatusView::Cancelled
            &&& spec_cancel(m, id).1 == seq![
                QueueActionView::Emit(JobEventView::StatusChanged { job_id: id, status: JobStatusView::Cancelled }),
                QueueActionView::Emit(JobEventView::Finished { job_id: id, result: Err(cancelled_message()) }),
            ]
        },
        (forall|i: int| 0 <= i < m.pending.len() ==> #[trigger] m.pending[i].id != id) ==> {
            &&& spec_cancel(m, id).0 == m
            &&& spec_cancel(m, id).1 == (if m.running.contains(id) {
                seq![QueueActionView::SignalCancel(id)]
            } else {
                Seq::<QueueActionView>::empty()
            })
        },
{
    if exists|i: int| 0 <= i < m.pending.len() && m.pending[i].id == id {
        let w = choose|i: int| 0 <= i < m.pending.len() && m.pending[i].id == id;
        assert forall|j: int| 0 <= j < w implies m.pending[j].id != id by {
            assert(m.pending[j].id != m.pending[w].id);
        }
        assert(is_first_pending(m.pending, id, w));
        let i = choose|i: int| is_first_pending(m.pending, id, i);
        let r = spec_cancel(m, id).0;
        assert forall|a: int| 0 <= a < r.pending.len() implies #[trigger] r.pending[a].id != id by {
            let a2 = if a < i { a } else { a + 1 };
            assert(r.pending[a] == m.pending[a2]);
            assert(m.pending[a2].id != m.pending[i].id);
        }
    }
}

/// Retrying succeeds exactly for a job held as failed. Otherwise nothing
/// changes and nothing is done. On success the job is no longer held as
/// finished, and it either starts at once or waits last in line with status
/// `Queued`, its URL, format and output directory unchanged.
pub proof fn law_retry_requeues_only_failed_jobs(m: QueueModel, id: u64)
    requires
        model_wf(m),
        placed_once(m),
    ensures
        spec_retry(m, id).0 == is_failed(m, id),
        !is_failed(m, id) ==> spec_retry(m, id).1 == m && spec_retry(m, id).2.len() == 0,
        is_failed(m, id) ==> {
            let r = spec_retry(m, id).1;
            let again = JobView { status: JobStatusView::Queued, ..m.finished[id] };
            &&& !r.finished.contains_key(id)
            &&& r.running.contains(id) || (r.pending.len() > 0 && r.pending.last() == again)
        },
{
    if is_failed(m, id) {
        let again = JobView { status: JobStatusView::Queued, ..m.finished[id] };
        let requeued = QueueModel {
            pending: m.pending.push(again),
            finished: m.finished.remove(id),
            ..m
        };
        assert(m.finished[id].id == id);
        lemma_schedule_shape(requeued);
        let r = schedule(requeued).0;
        let k = started_count(requeued);
        if k == requeued.pending.len() {
            assert(requeued.pending[k - 1].id == id);
            assert(among_first(requeued.pending, k, id));
        } else {
            assert(r.pending.last() == requeued.pending[requeued.pending.len() - 1]);
        }
    }
}

/// A job reported as finished is filed with the status its outcome gives
/// (`Completed`, `Cancelled`, or `Failed` with the outcome's message), and the
/// status change and the result are announced first, in that order.
pub proof fn law_finish_files_the_outcome(m: QueueModel, job: JobView, outcome: JobOutcomeView)
    requires
        model_wf(m),
    ensures
        (spec_finish(m, job, outcome).0.finished[job.id] == JobView { status: outcome_status(outcome), ..job }),
        spec_finish(m, job, outcome).1.len() >= 2,
        (spec_finish(m, job, outcome).1[0] == QueueActionView::Emit(
            JobEventView::StatusChanged { job_id: job.id, status: outcome_status(outcome) },
        )),
        (spec_finish(m, job, outcome).1[1] == QueueActionView::Emit(
            JobEventView::Finished { job_id: job.id, result: crate::queue::outcome_result(outcome) },
        )),
{
    let done = QueueModel {
        running: m.running.remove(job.id),
        finished: m.finished.insert(job.id, JobView { status: outcome_status(outcome), ..job }),
        ..m
    };
    assert(model_wf(done));
    lemma_schedule_shape(done);
}

proof fn lemma_schedule_keeps_running(m: QueueModel, id: u64)
    requires
        m.running.contains(id),
    ensures
        schedule(m).0.running.contains(id),
    decreases m.pending.len(),
{
    if !(m.running.len() >= m.concurrency || m.pending.len() == 0) {
        let job = JobView { status: starting_status(), ..m.pending[0] };
        let next = QueueModel { pending: m.pending.drop_first(), running: m.running.insert(job.id), ..m };
        lemma_schedule_keeps_running(next, id);
    }
}

/// A change of the limit stops no running job: the new limit, clamped into
/// range, applies as slots come free, and every job that ran still runs.
pub proof fn law_limit_change_stops_no_running_job(m: QueueModel, value: u32, id: u64)
    requires
        model_wf(m),
        m.running.contains(id),
    ensures
        spec_set_concurrency(m, value).0.running.contains(id),
        spec_set_concurrency(m, value).0.concurrency == spec_clamp_concurrency(value),
{
    let changed = QueueModel { concurrency: spec_clamp_concurrency(value), ..m };
    lemma_schedule_keeps_running(changed, id);
    lemma_schedule_shape(changed);
}

/// A finished job is shown with what happened to it: a completed run is
/// filed and announced as `Completed` with an `Ok` result, a cancelled run as
/// `Cancelled` with the cancellation message, and a failed run as `Failed`
/// with its own message as status and result.
pub proof fn law_finished_job_shows_its_outcome(m: QueueModel, job: JobView, message: Seq<char>)
    requires
        model_wf(m),
    ensures
        spec_finish(m, job, JobOutcomeView::Completed).0.finished[job.id].status == JobStatusView::Completed,
        spec_finish(m, job, JobOutcomeView::Completed).1[0] == QueueActionView::Emit(
            JobEventView::StatusChanged { job_id: job.id, status: JobStatusView::Completed },
        ),
        spec_finish(m, job, JobOutcomeView::Completed).1[1] == QueueActionView::Emit(
            JobEventView::Finished { job_id: job.id, result: Ok(()) },
        ),
        spec_finish(m, job, JobOutcomeView::Cancelled).0.finished[job.id].status == JobStatusView::Cancelled,
        spec_finish(m, job, JobOutcomeView::Cancelled).1[0] == QueueActionView::Emit(
            JobEventView::StatusChanged { job_id: job.id, status: JobStatusView::Cancelled },
        ),
        spec_finish(m, job, JobOutcomeView::Cancelled).1[1] == QueueActionView::Emit(
            JobEventView::Finished { job_id: job.id, result: Err("キャンセルされました"@) },
        ),
        spec_finish(m, job, JobOutcomeView::Failed(message)).0.finished[job.id].status == (JobStatusView::Failed {
            message,
        }),
        spec_finish(m, job, JobOutcomeView::Failed(message)).1[0] == QueueActionView::Emit(
            JobEventView::StatusChanged { job_id: job.id, status: JobStatusView::Failed { message } },
        ),
        spec_finish(m, job, JobOutcomeView::Failed(message)).1[1] == QueueActionView::Emit(
            JobEventView::Finished { job_id: job.id, result: Err(message) },
        ),
{
    law_finish_files_the_outcome(m, job, JobOutcomeView::Completed);
    law_finish_files_the_outcome(m, job, JobOutcomeView::Cancelled);
    law_finish_files_the_outcome(m, job, JobOutcomeView::Failed(message));
}

/// Only a failed job is retried. For any other identifier (a job filed as
/// completed or cancelled, a waiting or running job, an unknown one) retry
/// answers `false`, does nothing and leaves the queue as it was; for a job
/// filed as failed it answers `true` and the job waits last in line as
/// `Queued` or has started.
pub proof fn law_retry_only_for_failed_status(m: QueueModel, id: u64)
    requires
        model_wf(m),
    ensures
        !(m.finished.contains_key(id) && m.finished[id].status is Failed) ==> spec_retry(m, id) == (
        false,
        m,
        Seq::<QueueActionView>::empty(),
        ),
        (m.finished.contains_key(id) && m.finished[id].status == JobStatusView::Cancelled) ==> !spec_retry(m, id).0,
        (m.finished.contains_key(id) && m.finished[id].status == JobStatusView::Completed) ==> !spec_retry(m, id).0,
        (m.finished.contains_key(id) && m.finished[id].status is Failed) ==> spec_retry(m, id).0
            && !spec_retry(m, id).1.finished.contains_key(id),
{
    if m.finished.contains_key(id) && m.finished[id].status is Failed {
        let job = JobView { status: JobStatusView::Queued, ..m.finished[id] };
        let requeued = QueueModel { pending: m.pending.push(job), finished: m.finished.remove(id), ..m };
        assert(model_wf(requeued));
        lemma_schedule_shape(requeued);
    }
}

} // verus!
