//! What the queue and settings screens decide, apart from drawing.

use crate::job::{JobId, JobStatus, JobStatusView};
use crate::text::string_views;
use vstd::prelude::*;

verus! {

/// What the queue screen asks of its owner.
#[derive(Debug, Clone, Copy, PartialEq, Eq, Structural)]
pub enum QueueViewAction {
    /// Nothing was asked.
    NoAction,
    Cancel(JobId),
    Retry(JobId),
}

impl Default for QueueViewAction {
    fn default() -> (a: Self)
        ensures
            a == QueueViewAction::NoAction,
    {
        QueueViewAction::NoAction
    }
}

/// The label of a job's state.
pub open spec fn spec_status_label(status: JobStatusView) -> Seq<char> {
    match status {
        JobStatusView::Queued => "待機中"@,
        JobStatusView::Downloading { .. } => "取得中"@,
        JobStatusView::Converting { .. } => "変換中"@,
        JobStatusView::Completed => "完了"@,
        JobStatusView::Failed { .. } => "失敗"@,
        JobStatusView::Cancelled => "キャンセル済み"@,
    }
}

/// The label shown on a job's badge.
pub fn status_label(status: &JobStatus) -> (s: &'static str)
    ensures
        s@ == spec_status_label(status@),
{
    match status {
        JobStatus::Queued => "待機中",
        JobStatus::Downloading { .. } => "取得中",
        JobStatus::Converting { .. } => "変換中",
        JobStatus::Completed => "完了",
        JobStatus::Failed { .. } => "失敗",
        JobStatus::Cancelled => "キャンセル済み",
    }
}

/// A job can be cancelled while it waits or runs.
pub open spec fn spec_can_cancel(status: JobStatusView) -> bool {
    status is Queued || status is Downloading || status is Converting
}

/// A job can be retried once it has failed.
pub open spec fn spec_can_retry(status: JobStatusView) -> bool {
    status is Failed
}

/// Whether the job card offers "cancel".
pub fn can_cancel(status: &JobStatus) -> (b: bool)
    ensures
        b == spec_can_cancel(status@),
{
    match status {
        JobStatus::Queued | JobStatus::Downloading { .. } | JobStatus::Converting { .. } => true,
        _ => false,
    }
}

/// Whether the job card offers "retry".
pub fn can_retry(status: &JobStatus) -> (b: bool)
    ensures
        b == spec_can_retry(status@),
{
    match status {
        JobStatus::Failed { .. } => true,
        _ => false,
    }
}

/// The action of the last card that asked for one.
pub open spec fn spec_last_action(actions: Seq<QueueViewAction>) -> QueueViewAction
    decreases actions.len(),
{
    if actions.len() == 0 {
        QueueViewAction::NoAction
    } else if actions.last() != QueueViewAction::NoAction {
        actions.last()
    } else {
        spec_last_action(actions.drop_last())
    }
}

/// Of the cards' answers in one frame, the last one that asks for something.
pub fn last_action(actions: &[QueueViewAction]) -> (a: QueueViewAction)
    ensures
        a == spec_last_action(actions@),
{
    let mut a = QueueViewAction::NoAction;
    let n = actions.len();
    let mut i: usize = 0;
    while i < n
        invariant
            i <= n == actions@.len(),
            a == spec_last_action(actions@.subrange(0, i as int)),
        decreases n - i,
    {
        assert(actions@.subrange(0, i + 1).drop_last() =~= actions@.subrange(0, i as int));
        if actions[i] != QueueViewAction::NoAction {
            a = actions[i];
        }
        i = i + 1;
    }
    assert(actions@.subrange(0, n as int) =~= actions@);
    a
}

pub open spec fn str_views(v: Seq<&str>) -> Seq<Seq<char>> {
    v.map_values(|s: &str| s@)
}

/// The options of a drop-down, as owned strings.
pub fn string_options(options: &[&str]) -> (r: Vec<String>)
    ensures
        string_views(r@) == str_views(options@),
{
    let mut r: Vec<String> = Vec::new();
    let n = options.len();
    let mut i: usize = 0;
    while i < n
        invariant
            i <= n == options@.len(),
            string_views(r@) == str_views(options@.subrange(0, i as int)),
        decreases n - i,
    {
        let ghost before = r@;
        let item = options[i].to_string();
        r.push(item);
        assert(string_views(r@) =~= string_views(before).push(item@));
        assert(str_views(options@.subrange(0, i + 1)) =~= str_views(options@.subrange(0, i as int)).push(options@[i as int]@));
        i = i + 1;
    }
    assert(options@.subrange(0, n as int) =~= options@);
    r
}

} // verus!
