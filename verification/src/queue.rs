//! The job queue's scheduling decisions.
//!
//! `QueueState` holds the waiting jobs, the identifiers of the running ones and
//! the final state of the finished ones. Each operation changes that state and
//! returns, in order, the actions that the caller performs: events to send to
//! the GUI, jobs to start, and cancellation signals to raise. The caller owns
//! the executor, the tasks and the channels; the decisions are all here.
//!
//! Concurrency is bounded by comparing the number of running jobs with the
//! configured limit. A new limit takes effect the next time a slot frees up:
//! running jobs are never stopped by it.

use crate::job::{lemma_job_id_view_injective, Job, JobId, JobStatus, JobStatusView, JobView};
use std::collections::{HashMap, HashSet, VecDeque};
use vstd::prelude::*;

verus! {

broadcast use vstd::std_specs::hash::group_hash_axioms;

/// Lowest accepted concurrency.
pub const MIN_CONCURRENCY: u32 = 1;

/// Highest accepted concurrency.
pub const MAX_CONCURRENCY: u32 = 10;

/// The concurrency that the default configuration uses.
pub const DEFAULT_CONCURRENCY: u32 = 3;

pub open spec fn spec_clamp_concurrency(value: u32) -> u32 {
    if value < MIN_CONCURRENCY {
        MIN_CONCURRENCY
    } else if value > MAX_CONCURRENCY {
        MAX_CONCURRENCY
    } else {
        value
    }
}

/// Brings a requested concurrency into `MIN_CONCURRENCY..=MAX_CONCURRENCY`.
pub fn clamp_concurrency(value: u32) -> (r: u32)
    ensures
        r == spec_clamp_concurrency(value),
        MIN_CONCURRENCY <= r <= MAX_CONCURRENCY,
{
    if value < MIN_CONCURRENCY {
        MIN_CONCURRENCY
    } else if value > MAX_CONCURRENCY {
        MAX_CONCURRENCY
    } else {
        value
    }
}

/// An event for the GUI: progress, a log line, a status change, or the end of a job.
#[derive(Debug)]
#[allow(inconsistent_fields)]
pub enum JobEvent {
    Progress { job_id: JobId, status: JobStatus },
    Log { job_id: Option<JobId>, message: String },
    StatusChanged { job_id: JobId, status: JobStatus },
    Finished { job_id: JobId, result: Result<(), String> },
}

#[allow(inconsistent_fields)]
pub enum JobEventView {
    Progress { job_id: u64, status: JobStatusView },
    Log { job_id: Option<u64>, message: Seq<char> },
    StatusChanged { job_id: u64, status: JobStatusView },
    Finished { job_id: u64, result: Result<(), Seq<char>> },
}

impl View for JobEvent {
    type V = JobEventView;

    open spec fn view(&self) -> JobEventView {
        match self {
            JobEvent::Progress { job_id, status } => JobEventView::Progress {
                job_id: job_id@,
                status: status@,
            },
            JobEvent::Log { job_id, message } => JobEventView::Log {
                job_id: match job_id {
                    Some(id) => Some(id@),
                    None => None,
                },
                message: message@,
            },
            JobEvent::StatusChanged { job_id, status } => JobEventView::StatusChanged {
                job_id: job_id@,
                status: status@,
            },
            JobEvent::Finished { job_id, result } => JobEventView::Finished {
                job_id: job_id@,
                result: match result {
                    Ok(()) => Ok(()),
                    Err(m) => Err(m@),
                },
            },
        }
    }
}

impl Clone for JobEvent {
    fn clone(&self) -> (r: Self)
        ensures
            r@ == self@,
    {
        match self {
            JobEvent::Progress { job_id, status } => JobEvent::Progress { job_id: *job_id, status: status.clone() },
            JobEvent::Log { job_id, message } => JobEvent::Log { job_id: *job_id, message: message.clone() },
            JobEvent::StatusChanged { job_id, status } => JobEvent::StatusChanged {
                job_id: *job_id,
                status: status.clone(),
            },
            JobEvent::Finished { job_id, result } => JobEvent::Finished {
                job_id: *job_id,
                result: match result {
                    Ok(()) => Ok(()),
                    Err(m) => Err(m.clone()),
                },
            },
        }
    }
}

/// How one job's execution ended.
#[derive(Debug, Clone)]
pub enum JobOutcome {
    Completed,
    Cancelled,
    Failed(String),
}

pub enum JobOutcomeView {
    Completed,
    Cancelled,
    Failed(Seq<char>),
}

impl View for JobOutcome {
    type V = JobOutcomeView;

    open spec fn view(&self) -> JobOutcomeView {
        match self {
            JobOutcome::Completed => JobOutcomeView::Completed,
            JobOutcome::Cancelled => JobOutcomeView::Cancelled,
            JobOutcome::Failed(m) => JobOutcomeView::Failed(m@),
        }
    }
}

/// What the caller of a queue operation does next, in order.
#[derive(Debug)]
pub enum QueueAction {
    /// Send this event to the GUI.
    Emit(JobEvent),
    /// Start executing this job (its status is already `Downloading`).
    Start(Job),
    /// Signal the running job with this identifier to cancel.
    SignalCancel(JobId),
}

pub enum QueueActionView {
    Emit(JobEventView),
    Start(JobView),
    SignalCancel(u64),
}

impl View for QueueAction {
    type V = QueueActionView;

    open spec fn view(&self) -> QueueActionView {
        match self {
            QueueAction::Emit(e) => QueueActionView::Emit(e@),
            QueueAction::Start(j) => QueueActionView::Start(j@),
            QueueAction::SignalCancel(id) => QueueActionView::SignalCancel(id@),
        }
    }
}

pub open spec fn action_views(actions: Seq<QueueAction>) -> Seq<QueueActionView> {
    actions.map_values(|a: QueueAction| a@)
}

/// The abstract state of the queue.
pub struct QueueModel {
    pub concurrency: u32,
    pub pending: Seq<JobView>,
    pub running: Set<u64>,
    pub finished: Map<u64, JobView>,
}

/// The state behind the job queue.
pub struct QueueState {
    concurrency: u32,
    pending: VecDeque<Job>,
    running: HashSet<u64>,
    finished: HashMap<u64, Job>,
}

impl View for QueueState {
    type V = QueueModel;

    closed spec fn view(&self) -> QueueModel {
        QueueModel {
            concurrency: self.concurrency,
            pending: self.pending@.map_values(|j: Job| j@),
            running: self.running@,
            finished: self.finished@.map_values(|j: Job| j@),
        }
    }
}

/// The message of a job that ended by cancellation.
pub open spec fn cancelled_message() -> Seq<char> {
    "キャンセルされました"@
}

/// The status a job takes when it starts.
pub open spec fn starting_status() -> JobStatusView {
    JobStatusView::Downloading { progress: 0, speed: None, eta: None }
}

/// The well-formed states: the limit is in range, the running set is finite,
/// and each finished job is filed under its own identifier.
pub open spec fn model_wf(m: QueueModel) -> bool {
    &&& MIN_CONCURRENCY <= m.concurrency <= MAX_CONCURRENCY
    &&& m.running.finite()
    &&& forall|k: u64| #[trigger] m.finished.contains_key(k) ==> m.finished[k].id == k
}

/// Starts waiting jobs from the front while a slot is free.
pub open spec fn schedule(m: QueueModel) -> (QueueModel, Seq<QueueActionView>)
    decreases m.pending.len(),
{
    if m.running.len() >= m.concurrency || m.pending.len() == 0 {
        (m, seq![])
    } else {
        let job = JobView { status: starting_status(), ..m.pending[0] };
        let next = QueueModel {
            pending: m.pending.drop_first(),
            running: m.running.insert(job.id),
            ..m
        };
        let (last, rest) = schedule(next);
        (
            last,
            seq![
                QueueActionView::Emit(JobEventView::StatusChanged { job_id: job.id, status: starting_status() }),
                QueueActionView::Start(job),
            ] + rest,
        )
    }
}

pub open spec fn spec_set_concurrency(m: QueueModel, value: u32) -> (QueueModel, Seq<QueueActionView>) {
    schedule(QueueModel { concurrency: spec_clamp_concurrency(value), ..m })
}

pub open spec fn spec_enqueue(m: QueueModel, job: JobView) -> (QueueModel, Seq<QueueActionView>) {
    schedule(QueueModel { pending: m.pending.push(job), ..m })
}

/// `i` is the first position of a waiting job with identifier `id`.
pub open spec fn is_first_pending(pending: Seq<JobView>, id: u64, i: int) -> bool {
    &&& 0 <= i < pending.len()
    &&& pending[i].id == id
    &&& forall|j: int| 0 <= j < i ==> pending[j].id != id
}

pub open spec fn spec_cancel(m: QueueModel, id: u64) -> (QueueModel, Seq<QueueActionView>) {
    if exists|i: int| is_first_pending(m.pending, id, i) {
        let i = choose|i: int| is_first_pending(m.pending, id, i);
        let job = JobView { status: JobStatusView::Cancelled, ..m.pending[i] };
        (
            QueueModel { pending: m.pending.remove(i), finished: m.finished.insert(id, job), ..m },
            seq![
                QueueActionView::Emit(JobEventView::StatusChanged { job_id: id, status: JobStatusView::Cancelled }),
                QueueActionView::Emit(JobEventView::Finished { job_id: id, result: Err(cancelled_message()) }),
            ],
        )
    } else if m.running.contains(id) {
        (m, seq![QueueActionView::SignalCancel(id)])
    } else {
        (m, seq![])
    }
}

/// The job with identifier `id` is held as failed.
pub open spec fn is_failed(m: QueueModel, id: u64) -> bool {
    m.finished.contains_key(id) && m.finished[id].status is Failed
}

pub open spec fn spec_retry(m: QueueModel, id: u64) -> (bool, QueueModel, Seq<QueueActionView>) {
    if is_failed(m, id) {
        let job = JobView { status: JobStatusView::Queued, ..m.finished[id] };
        let requeued = QueueModel { pending: m.pending.push(job), finished: m.finished.remove(id), ..m };
        let (last, rest) = schedule(requeued);
        (
            true,
            last,
            seq![QueueActionView::Emit(JobEventView::StatusChanged { job_id: id, status: JobStatusView::Queued })]
                + rest,
        )
    } else {
        (false, m, seq![])
    }
}

pub open spec fn outcome_status(outcome: JobOutcomeView) -> JobStatusView {
    match outcome {
        JobOutcomeView::Completed => JobStatusView::Completed,
        JobOutcomeView::Cancelled => JobStatusView::Cancelled,
        JobOutcomeView::Failed(message) => JobStatusView::Failed { message },
    }
}

pub open spec fn outcome_result(outcome: JobOutcomeView) -> Result<(), Seq<char>> {
    match outcome {
        JobOutcomeView::Completed => Ok(()),
        JobOutcomeView::Cancelled => Err(cancelled_message()),
        JobOutcomeView::Failed(message) => Err(message),
    }
}

pub open spec fn spec_finish(m: QueueModel, job: JobView, outcome: JobOutcomeView) -> (QueueModel, Seq<QueueActionView>) {
    let id = job.id;
    let status = outcome_status(outcome);
    let done = QueueModel {
        running: m.running.remove(id),
        finished: m.finished.insert(id, JobView { status, ..job }),
        ..m
    };
    let (last, rest) = schedule(done);
    (
        last,
        seq![
            QueueActionView::Emit(JobEventView::StatusChanged { job_id: id, status }),
            QueueActionView::Emit(JobEventView::Finished { job_id: id, result: outcome_result(outcome) }),
        ] + rest,
    )
}

proof fn lemma_schedule_wf(m: QueueModel)
    requires
        model_wf(m),
    ensures
        model_wf(schedule(m).0),
        schedule(m).0.concurrency == m.concurrency,
        schedule(m).0.finished == m.finished,
    decreases m.pending.len(),
{
    if m.running.len() >= m.concurrency || m.pending.len() == 0 {
    } else {
        let job = JobView { status: starting_status(), ..m.pending[0] };
        let next = QueueModel {
            pending: m.pending.drop_first(),
            running: m.running.insert(job.id),
            ..m
        };
        lemma_schedule_wf(next);
    }
}

proof fn lemma_first_pending_unique(pending: Seq<JobView>, id: u64, i: int, j: int)
    requires
        is_first_pending(pending, id, i),
        is_first_pending(pending, id, j),
    ensures
        i == j,
{
}

/// The text of `cancelled_message`.
fn cancelled_text() -> (s: String)
    ensures
        s@ == cancelled_message(),
{
    "キャンセルされました".to_string()
}

impl QueueState {
    /// The state is well formed.
    pub open spec fn wf(&self) -> bool {
        model_wf(self@)
    }

    /// An empty queue whose limit is `concurrency`, clamped into range.
    pub fn new(concurrency: u32) -> (q: Self)
        ensures
            q.wf(),
            q@.concurrency == spec_clamp_concurrency(concurrency),
            q@.pending.len() == 0,
            q@.running.is_empty(),
            q@.finished.is_empty(),
    {
        let q = QueueState {
            concurrency: clamp_concurrency(concurrency),
            pending: VecDeque::new(),
            running: HashSet::new(),
            finished: HashMap::new(),
        };
        assert(q@.pending =~= Seq::<JobView>::empty());
        assert(q@.finished =~= Map::<u64, JobView>::empty());
        q
    }

    /// The current limit.
    pub fn concurrency(&self) -> (c: u32)
        ensures
            c == self@.concurrency,
    {
        self.concurrency
    }

    /// The number of running jobs.
    pub fn running_count(&self) -> (n: usize)
        requires
            self.wf(),
        ensures
            n == self@.running.len(),
    {
        self.running.len()
    }

    /// The identifiers of the waiting jobs, front first.
    pub fn pending_ids(&self) -> (ids: Vec<JobId>)
        ensures
            ids@.len() == self@.pending.len(),
            forall|i: int| 0 <= i < ids@.len() ==> #[trigger] ids@[i]@ == self@.pending[i].id,
    {
        let mut ids: Vec<JobId> = Vec::new();
        let n = self.pending.len();
        for i in 0..n
            invariant
                n == self.pending@.len(),
                ids@.len() == i,
                forall|k: int| 0 <= k < i ==> #[trigger] ids@[k]@ == self@.pending[k].id,
        {
            ids.push(self.pending[i].id);
        }
        ids
    }

    /// Starts waiting jobs from the front while a slot is free, appending
    /// the resulting actions.
    fn try_schedule(&mut self, actions: &mut Vec<QueueAction>)
        requires
            old(self).wf(),
        ensures
            final(self).wf(),
            final(self)@ == schedule(old(self)@).0,
            action_views(final(actions)@) == action_views(old(actions)@) + schedule(old(self)@).1,
    {
        proof {
            lemma_schedule_wf(self@);
        }
        let ghost target = schedule(self@);
        let ghost start_actions = action_views(actions@);
        loop
            invariant
                self.wf(),
                target == schedule(old(self)@),
                start_actions == action_views(old(actions)@),
                schedule(self@).0 == target.0,
                action_views(actions@) + schedule(self@).1 == start_actions + target.1,
            decreases self.pending@.len(),
        {
            if self.running.len() >= self.concurrency as usize || self.pending.len() == 0 {
                assert(self@.pending.len() == self.pending@.len());
                assert(schedule(self@).1 =~= Seq::<QueueActionView>::empty());
                assert(action_views(actions@) =~= start_actions + target.1);
                return;
            }
            let ghost before = self@;
            let popped = self.pending.pop_front();
            let mut job = match popped {
                Some(j) => j,
                None => { return; },
            };
            let job_id = job.id;
            job.status = JobStatus::Downloading { progress: 0, speed: None, eta: None };
            self.running.insert(job_id.get());
            actions.push(QueueAction::Emit(JobEvent::StatusChanged {
                job_id,
                status: JobStatus::Downloading { progress: 0, speed: None, eta: None },
            }));
            actions.push(QueueAction::Start(job));
            proof {
                let ghost next = QueueModel {
                    pending: before.pending.drop_first(),
                    running: before.running.insert(before.pending[0].id),
                    ..before
                };
                assert(self@.pending =~= next.pending);
                assert(self@.finished =~= next.finished);
                assert(self@ == next);
                lemma_schedule_wf(next);
                assert(action_views(actions@) + schedule(self@).1 =~= start_actions + target.1);
            }
        }
    }

    /// Changes the limit (clamped into range), then starts waiting jobs if
    /// slots are free. Running jobs are left alone.
    pub fn set_concurrency(&mut self, concurrency: u32) -> (actions: Vec<QueueAction>)
        requires
            old(self).wf(),
        ensures
            final(self).wf(),
            (final(self)@, action_views(actions@)) == spec_set_concurrency(old(self)@, concurrency),
    {
        let mut actions: Vec<QueueAction> = Vec::new();
        self.concurrency = clamp_concurrency(concurrency);
        self.try_schedule(&mut actions);
        assert(action_views(actions@) =~= spec_set_concurrency(old(self)@, concurrency).1);
        actions
    }

    /// Appends a job to the waiting line, then starts waiting jobs if slots are free.
    pub fn enqueue(&mut self, job: Job) -> (actions: Vec<QueueAction>)
        requires
            old(self).wf(),
        ensures
            final(self).wf(),
            (final(self)@, action_views(actions@)) == spec_enqueue(old(self)@, job@),
    {
        let mut actions: Vec<QueueAction> = Vec::new();
        self.pending.push_back(job);
        assert(self@.pending =~= old(self)@.pending.push(job@));
        self.try_schedule(&mut actions);
        assert(action_views(actions@) =~= spec_enqueue(old(self)@, job@).1);
        actions
    }

    /// Cancels a job. A waiting job leaves the line at once and is filed as
    /// cancelled; a running job is only signalled, and becomes cancelled when
    /// its execution ends; any other identifier is ignored.
    pub fn cancel(&mut self, job_id: JobId) -> (actions: Vec<QueueAction>)
        requires
            old(self).wf(),
        ensures
            final(self).wf(),
            (final(self)@, action_views(actions@)) == spec_cancel(old(self)@, job_id@),
    {
        let mut actions: Vec<QueueAction> = Vec::new();
        let n = self.pending.len();
        let mut i: usize = 0;
        while i < n
            invariant
                n == self.pending@.len(),
                n == self@.pending.len(),
                i <= n,
                forall|j: int| 0 <= j < i ==> #[trigger] self@.pending[j].id != job_id@,
            ensures
                i <= n,
                i < n ==> self@.pending[i as int].id == job_id@,
                forall|j: int| 0 <= j < i ==> #[trigger] self@.pending[j].id != job_id@,
            decreases n - i,
        {
            proof {
                lemma_job_id_view_injective(self.pending@[i as int].id, job_id);
            }
            if self.pending[i].id == job_id {
                break;
            }
            i = i + 1;
        }
        if i < n {
            proof {
                assert(is_first_pending(self@.pending, job_id@, i as int));
                let k = choose|k: int| is_first_pending(self@.pending, job_id@, k);
                lemma_first_pending_unique(self@.pending, job_id@, i as int, k);
            }
            let ghost before = self@;
            let removed = self.pending.remove(i);
            match removed {
                Some(mut job) => {
                    job.status = JobStatus::Cancelled;
                    self.finished.insert(job_id.get(), job);
                    actions.push(QueueAction::Emit(JobEvent::StatusChanged {
                        job_id,
                        status: JobStatus::Cancelled,
                    }));
                    actions.push(QueueAction::Emit(JobEvent::Finished {
                        job_id,
                        result: Err(cancelled_text()),
                    }));
                    proof {
                        assert(self@.pending =~= before.pending.remove(i as int));
                        assert(self@.finished =~= before.finished.insert(
                            job_id@,
                            JobView { status: JobStatusView::Cancelled, ..before.pending[i as int] },
                        ));
                        assert(action_views(actions@) =~= spec_cancel(before, job_id@).1);
                    }
                },
                None => {},
            }
            return actions;
        }
        if self.running.contains(&job_id.get()) {
            actions.push(QueueAction::SignalCancel(job_id));
        }
        assert(action_views(actions@) =~= spec_cancel(old(self)@, job_id@).1);
        actions
    }

    /// Puts a failed job back in line with the same URL, format and output
    /// directory. Returns `false`, and changes nothing, where the identifier is
    /// not held as failed (waiting, running, completed, cancelled or unknown).
    pub fn retry(&mut self, job_id: JobId) -> (r: (bool, Vec<QueueAction>))
        requires
            old(self).wf(),
        ensures
            final(self).wf(),
            (r.0, final(self)@, action_views(r.1@)) == spec_retry(old(self)@, job_id@),
    {
        let key = job_id.get();
        let failed = match self.finished.get(&key) {
            Some(job) => match job.status {
                JobStatus::Failed { .. } => true,
                _ => false,
            },
            None => false,
        };
        if !failed {
            let none: Vec<QueueAction> = Vec::new();
            assert(action_views(none@) =~= Seq::<QueueActionView>::empty());
            return (false, none);
        }
        let ghost before = self@;
        let removed = self.finished.remove(&key);
        let mut job = match removed {
            Some(j) => j,
            None => {
                let none: Vec<QueueAction> = Vec::new();
                return (false, none);
            },
        };
        job.status = JobStatus::Queued;
        self.pending.push_back(job);
        let mut actions: Vec<QueueAction> = Vec::new();
        actions.push(QueueAction::Emit(JobEvent::StatusChanged { job_id, status: JobStatus::Queued }));
        proof {
            let requeued = QueueModel {
                pending: before.pending.push(JobView { status: JobStatusView::Queued, ..before.finished[key] }),
                finished: before.finished.remove(key),
                ..before
            };
            assert(self@.pending =~= requeued.pending);
            assert(self@.finished =~= requeued.finished);
            assert(self@ == requeued);
        }
        self.try_schedule(&mut actions);
        assert(action_views(actions@) =~= spec_retry(old(self)@, job_id@).2);
        (true, actions)
    }

    /// Files a job whose execution has ended, reports its final status and
    /// result, and starts waiting jobs into the freed slot.
    pub fn on_job_finished(&mut self, job: Job, outcome: JobOutcome) -> (actions: Vec<QueueAction>)
        requires
            old(self).wf(),
        ensures
            final(self).wf(),
            (final(self)@, action_views(actions@)) == spec_finish(old(self)@, job@, outcome@),
    {
        let mut job = job;
        let job_id = job.id;
        let key = job_id.get();
        self.running.remove(&key);
        let (status, result) = match outcome {
            JobOutcome::Completed => (JobStatus::Completed, Ok(())),
            JobOutcome::Cancelled => (JobStatus::Cancelled, Err(cancelled_text())),
            JobOutcome::Failed(message) => (JobStatus::Failed { message: message.clone() }, Err(message)),
        };
        job.status = status.clone();
        self.finished.insert(key, job);
        let mut actions: Vec<QueueAction> = Vec::new();
        actions.push(QueueAction::Emit(JobEvent::StatusChanged { job_id, status }));
        actions.push(QueueAction::Emit(JobEvent::Finished { job_id, result }));
        proof {
            let m = old(self)@;
            let done = QueueModel {
                running: m.running.remove(key),
                finished: m.finished.insert(key, JobView { status: outcome_status(outcome@), ..job@ }),
                ..m
            };
            assert(self@.pending =~= done.pending);
            assert(self@.finished =~= done.finished);
            assert(self@ == done);
        }
        self.try_schedule(&mut actions);
        assert(action_views(actions@) =~= spec_finish(old(self)@, job@, outcome@).1);
        actions
    }
}

} // verus!
