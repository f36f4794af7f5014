//! The application's decisions between the screens, the queue and the
//! binaries: applying job events to the job list, the log lines they and the
//! binary checks produce, the output directory, and the executables to run.

use crate::binary_manager::{
    is_managed_binary_path, BinaryManagerError, resolve_ffmpeg_path, resolve_ytdlp_path, VersionCheckResult, VersionCheckView,
    FFMPEG_EXE_NAME, YTDLP_EXE_NAME,
};
use crate::config::Config;
use crate::job::{Job, JobId, JobStatus, JobStatusView, JobView};
use crate::logs::{LogEntry, LogLevel};
use crate::paths::{path_from_str, path_text};
use crate::queue::{JobEvent, JobEventView};
use crate::runner::ProcessJobExecutor;
use crate::text::{decimal_text, string_push_str, u64_to_text};
use directories::UserDirs;
use std::path::PathBuf;
use vstd::prelude::*;

verus! {

// ---- job events ----

pub open spec fn job_views(jobs: Seq<Job>) -> Seq<JobView> {
    jobs.map_values(|j: Job| j@)
}

/// `i` is the first job in the list with number `id`.
pub open spec fn first_job_with(jobs: Seq<JobView>, id: u64, i: int) -> bool {
    &&& 0 <= i < jobs.len()
    &&& jobs[i].id == id
    &&& forall|j: int| 0 <= j < i ==> jobs[j].id != id
}

/// The list with the first job numbered `id` put in state `status`; unchanged
/// where no job has that number.
pub open spec fn with_status(jobs: Seq<JobView>, id: u64, status: JobStatusView) -> Seq<JobView> {
    if exists|i: int| first_job_with(jobs, id, i) {
        let i = choose|i: int| first_job_with(jobs, id, i);
        jobs.update(i, JobView { status, ..jobs[i] })
    } else {
        jobs
    }
}

/// `[Job #n] message`, or the message alone for a line that is about no job.
pub open spec fn job_log_text(job_id: Option<u64>, message: Seq<char>) -> Seq<char> {
    match job_id {
        Some(id) => "[Job #"@ + decimal_text(id as nat) + "] "@ + message,
        None => message,
    }
}

/// The level and text of the log line for the end of job `id`.
pub open spec fn finished_log(id: u64, result: Result<(), Seq<char>>) -> (LogLevel, Seq<char>) {
    match result {
        Ok(()) => (LogLevel::Info, "Job #"@ + decimal_text(id as nat) + " が完了しました"@),
        Err(m) => (LogLevel::Warn, "Job #"@ + decimal_text(id as nat) + " が終了しました: "@ + m),
    }
}

/// What an event does: progress and state changes update the job's state in
/// the list and log nothing; a log line is logged at `Info`; the end of a job
/// is logged, at `Warn` where it did not complete.
pub open spec fn event_effect(jobs: Seq<JobView>, event: JobEventView) -> (Seq<JobView>, Option<(LogLevel, Seq<char>)>) {
    match event {
        JobEventView::Progress { job_id, status } => (with_status(jobs, job_id, status), None),
        JobEventView::StatusChanged { job_id, status } => (with_status(jobs, job_id, status), None),
        JobEventView::Log { job_id, message } => (jobs, Some((LogLevel::Info, job_log_text(job_id, message)))),
        JobEventView::Finished { job_id, result } => (jobs, Some(finished_log(job_id, result))),
    }
}

fn set_job_status(jobs: &mut Vec<Job>, job_id: JobId, status: JobStatus)
    ensures
        job_views(final(jobs)@) == with_status(job_views(old(jobs)@), job_id@, status@),
{
    let ghost views = job_views(jobs@);
    let n = jobs.len();
    let mut k: usize = 0;
    while k < n
        invariant
            k <= n == jobs@.len(),
            jobs@ == old(jobs)@,
            views == job_views(jobs@),
            forall|j: int| 0 <= j < k ==> views[j].id != job_id@,
        decreases n - k,
    {
        assert(views[k as int] == jobs@[k as int]@);
        if jobs[k].id == job_id {
            proof {
                crate::job::lemma_job_id_view_injective(jobs@[k as int].id, job_id);
                assert(first_job_with(views, job_id@, k as int));
                assert forall|i: int| first_job_with(views, job_id@, i) implies i == k by {
                    if i < k {
                        assert(views[i].id != job_id@);
                    } else if i > k {
                        assert(views[k as int].id != job_id@);
                    }
                }
            }
            let ghost chosen = choose|i: int| first_job_with(views, job_id@, i);
            assert(chosen == k);
            let ghost expected = views.update(k as int, JobView { status: status@, ..views[k as int] });
            jobs[k].status = status;
            assert(job_views(jobs@) =~= expected);
            return;
        }
        proof {
            crate::job::lemma_job_id_view_injective(jobs@[k as int].id, job_id);
        }
        k = k + 1;
    }
    assert(!exists|i: int| first_job_with(views, job_id@, i));
    assert(job_views(jobs@) =~= views);
}

/// Applies one event from the queue to the job list, and gives the log entry
/// it calls for, if any (see `event_effect`).
pub fn apply_job_event(jobs: &mut Vec<Job>, event: JobEvent) -> (entry: Option<LogEntry>)
    ensures
        ({
            let (after, log) = event_effect(job_views(old(jobs)@), event@);
            &&& job_views(final(jobs)@) == after
            &&& match log {
                Some((level, text)) => entry is Some && entry->0.level == level && entry->0.message@ == text,
                None => entry is None,
            }
        }),
{
    match event {
        JobEvent::Progress { job_id, status } => {
            set_job_status(jobs, job_id, status);
            None
        },
        JobEvent::StatusChanged { job_id, status } => {
            set_job_status(jobs, job_id, status);
            None
        },
        JobEvent::Log { job_id, message } => {
            let text = match job_id {
                Some(id) => {
                    let mut t = String::new();
                    string_push_str(&mut t, "[Job #");
                    string_push_str(&mut t, u64_to_text(id.get()).as_str());
                    string_push_str(&mut t, "] ");
                    string_push_str(&mut t, message.as_str());
                    t
                },
                None => message,
            };
            Some(LogEntry::new(LogLevel::Info, text.as_str()))
        },
        JobEvent::Finished { job_id, result } => {
            let mut t = String::new();
            string_push_str(&mut t, "Job #");
            string_push_str(&mut t, u64_to_text(job_id.get()).as_str());
            match result {
                Ok(()) => {
                    string_push_str(&mut t, " が完了しました");
                    Some(LogEntry::new(LogLevel::Info, t.as_str()))
                },
                Err(m) => {
                    string_push_str(&mut t, " が終了しました: ");
                    string_push_str(&mut t, m.as_str());
                    Some(LogEntry::new(LogLevel::Warn, t.as_str()))
                },
            }
        },
    }
}

// ---- the binaries at start ----

/// The level and text of the log line for a version check of `name`; `Err`
/// holds the text of the error that stopped the check.
pub open spec fn update_check_log(name: Seq<char>, result: Result<VersionCheckView, Seq<char>>) -> (LogLevel, Seq<char>) {
    match result {
        Ok(VersionCheckView::UpToDate) => (LogLevel::Info, name + "は最新版です"@),
        Ok(VersionCheckView::UpdateAvailable { current, latest }) => (
            LogLevel::Warn,
            name + "の更新があります: "@ + current + " -> "@ + latest,
        ),
        Ok(VersionCheckView::NotInstalled { latest }) => (
            LogLevel::Info,
            name + "の最新版は"@ + latest + "です(まだインストールされていません)"@,
        ),
        Err(e) => (LogLevel::Error, name + "の更新確認に失敗しました: "@ + e),
    }
}

pub open spec fn check_result_view(result: Result<VersionCheckResult, String>) -> Result<VersionCheckView, Seq<char>> {
    match result {
        Ok(v) => Ok(v@),
        Err(e) => Err(e@),
    }
}

/// The log entry reporting a version check of `name`.
pub fn update_check_entry(name: &str, result: Result<VersionCheckResult, String>) -> (entry: LogEntry)
    ensures
        (entry.level, entry.message@) == update_check_log(name@, check_result_view(result)),
{
    let mut t = String::new();
    string_push_str(&mut t, name);
    match result {
        Ok(VersionCheckResult::UpToDate) => {
            string_push_str(&mut t, "は最新版です");
            LogEntry::new(LogLevel::Info, t.as_str())
        },
        Ok(VersionCheckResult::UpdateAvailable { current, latest }) => {
            string_push_str(&mut t, "の更新があります: ");
            string_push_str(&mut t, current.as_str());
            string_push_str(&mut t, " -> ");
            string_push_str(&mut t, latest.as_str());
            LogEntry::new(LogLevel::Warn, t.as_str())
        },
        Ok(VersionCheckResult::NotInstalled { latest }) => {
            string_push_str(&mut t, "の最新版は");
            string_push_str(&mut t, latest.as_str());
            string_push_str(&mut t, "です(まだインストールされていません)");
            LogEntry::new(LogLevel::Info, t.as_str())
        },
        Err(e) => {
            string_push_str(&mut t, "の更新確認に失敗しました: ");
            string_push_str(&mut t, e.as_str());
            LogEntry::new(LogLevel::Error, t.as_str())
        },
    }
}

/// The steps taken at start: install yt-dlp, install ffmpeg, then, where
/// update checks are on, check yt-dlp and then ffmpeg.
#[derive(Debug, Clone, Copy, PartialEq, Eq, Structural)]
pub enum PrepareStage {
    InstallYtdlp,
    InstallFfmpeg,
    CheckYtdlp,
    CheckFfmpeg,
    Done,
}

/// The outcome of a step, as text: the path(s) installed, the version check,
/// or the text of the error.
pub enum PrepareEvent {
    YtdlpInstalled(Result<String, String>),
    FfmpegInstalled(Result<(String, String), String>),
    YtdlpChecked(Result<VersionCheckResult, String>),
    FfmpegChecked(Result<VersionCheckResult, String>),
}

/// The stage after `stage`: the update checks are skipped where they are off.
pub open spec fn spec_next_stage(stage: PrepareStage, auto_update_check: bool) -> PrepareStage {
    match stage {
        PrepareStage::InstallYtdlp => PrepareStage::InstallFfmpeg,
        PrepareStage::InstallFfmpeg => if auto_update_check { PrepareStage::CheckYtdlp } else { PrepareStage::Done },
        PrepareStage::CheckYtdlp => PrepareStage::CheckFfmpeg,
        _ => PrepareStage::Done,
    }
}

/// The log line for an event: what was installed or why it was not, or the
/// version check.
pub open spec fn prepare_log(event: PrepareEvent) -> (LogLevel, Seq<char>) {
    match event {
        PrepareEvent::YtdlpInstalled(Ok(p)) => (LogLevel::Info, "yt-dlpを準備しました: "@ + p@),
        PrepareEvent::YtdlpInstalled(Err(e)) => (LogLevel::Error, "yt-dlpの準備に失敗しました: "@ + e@),
        PrepareEvent::FfmpegInstalled(Ok((a, b))) => (LogLevel::Info, "ffmpegを準備しました: "@ + a@ + " / "@ + b@),
        PrepareEvent::FfmpegInstalled(Err(e)) => (LogLevel::Error, "ffmpegの準備に失敗しました: "@ + e@),
        PrepareEvent::YtdlpChecked(r) => update_check_log("yt-dlp"@, check_result_view(r)),
        PrepareEvent::FfmpegChecked(r) => update_check_log("ffmpeg"@, check_result_view(r)),
    }
}

/// The log entry for the outcome of the step at `stage`, and the next stage.
pub fn prepare_step(stage: PrepareStage, auto_update_check: bool, event: PrepareEvent) -> (r: (PrepareStage, LogEntry))
    ensures
        r.0 == spec_next_stage(stage, auto_update_check),
        (r.1.level, r.1.message@) == prepare_log(event),
{
    let next = match stage {
        PrepareStage::InstallYtdlp => PrepareStage::InstallFfmpeg,
        PrepareStage::InstallFfmpeg => if auto_update_check {
            PrepareStage::CheckYtdlp
        } else {
            PrepareStage::Done
        },
        PrepareStage::CheckYtdlp => PrepareStage::CheckFfmpeg,
        _ => PrepareStage::Done,
    };
    let entry = match event {
        PrepareEvent::YtdlpInstalled(Ok(p)) => {
            let mut t = String::new();
            string_push_str(&mut t, "yt-dlpを準備しました: ");
            string_push_str(&mut t, p.as_str());
            LogEntry::new(LogLevel::Info, t.as_str())
        },
        PrepareEvent::YtdlpInstalled(Err(e)) => {
            let mut t = String::new();
            string_push_str(&mut t, "yt-dlpの準備に失敗しました: ");
            string_push_str(&mut t, e.as_str());
            LogEntry::new(LogLevel::Error, t.as_str())
        },
        PrepareEvent::FfmpegInstalled(Ok((a, b))) => {
            let mut t = String::new();
            string_push_str(&mut t, "ffmpegを準備しました: ");
            string_push_str(&mut t, a.as_str());
            string_push_str(&mut t, " / ");
            string_push_str(&mut t, b.as_str());
            LogEntry::new(LogLevel::Info, t.as_str())
        },
        PrepareEvent::FfmpegInstalled(Err(e)) => {
            let mut t = String::new();
            string_push_str(&mut t, "ffmpegの準備に失敗しました: ");
            string_push_str(&mut t, e.as_str());
            LogEntry::new(LogLevel::Error, t.as_str())
        },
        PrepareEvent::YtdlpChecked(r) => update_check_entry("yt-dlp", r),
        PrepareEvent::FfmpegChecked(r) => update_check_entry("ffmpeg", r),
    };
    (next, entry)
}

// ---- where downloads go, and what runs them ----

#[verifier::external_type_specification]
#[verifier::external_body]
pub struct ExUserDirs(UserDirs);

/// `UserDirs::new`: the user's directories, or `None` where no home directory
/// can be found. It depends on the environment; nothing is stated of it.
#[verifier::external_body]
fn user_dirs_new() -> (r: Option<UserDirs>) {
    UserDirs::new()
}

/// `UserDirs::download_dir`, as an owned path. Nothing is stated of it: it
/// was read from the environment when `dirs` was made.
#[verifier::external_body]
fn user_download_dir(dirs: &UserDirs) -> (r: Option<PathBuf>) {
    dirs.download_dir().map(PathBuf::from)
}

/// Where downloads go: the configured folder; where none is set, the user's
/// download folder `download_dir` if there is one, else the working directory.
pub fn output_dir_from(config: &Config, download_dir: Option<PathBuf>) -> (p: PathBuf)
    ensures
        config.general.save_dir@.len() > 0 ==> path_text(p) == config.general.save_dir@,
        config.general.save_dir@.len() == 0 ==> match download_dir {
            Some(d) => path_text(p) == path_text(d),
            None => path_text(p) == "."@,
        },
{
    if !config.general.save_dir.as_str().is_empty() {
        return path_from_str(config.general.save_dir.as_str());
    }
    match download_dir {
        Some(d) => d,
        None => path_from_str("."),
    }
}

/// Where downloads go under `config` (see `output_dir_from`); the user's
/// download folder is looked up only where no folder is configured.
pub fn resolve_output_dir(config: &Config) -> (p: PathBuf)
    ensures
        config.general.save_dir@.len() > 0 ==> path_text(p) == config.general.save_dir@,
{
    if !config.general.save_dir.as_str().is_empty() {
        return output_dir_from(config, None);
    }
    let download_dir = match user_dirs_new() {
        Some(dirs) => user_download_dir(&dirs),
        None => None,
    };
    output_dir_from(config, download_dir)
}

/// The path to run for a binary: the resolved one, or the bare file name
/// where resolving failed.
pub open spec fn run_path(resolved: Result<PathBuf, BinaryManagerError>, bare_name: Seq<char>) -> Seq<char> {
    match resolved {
        Ok(p) => path_text(p),
        Err(_) => bare_name,
    }
}

/// The executor for the two resolution results: each binary at its resolved
/// path, or, where resolving failed, by its bare file name.
pub fn executor_from_resolved(
    ytdlp: Result<PathBuf, BinaryManagerError>,
    ffmpeg: Result<PathBuf, BinaryManagerError>,
) -> (e: ProcessJobExecutor)
    ensures
        path_text(e.ytdlp_path) == run_path(ytdlp, YTDLP_EXE_NAME@),
        path_text(e.ffmpeg_path) == run_path(ffmpeg, FFMPEG_EXE_NAME@),
{
    let ytdlp_path = match ytdlp {
        Ok(p) => p,
        Err(_) => path_from_str(YTDLP_EXE_NAME),
    };
    let ffmpeg_path = match ffmpeg {
        Ok(p) => p,
        Err(_) => path_from_str(FFMPEG_EXE_NAME),
    };
    ProcessJobExecutor::new(ytdlp_path, ffmpeg_path)
}

/// The executor for `config`: each binary at its resolved path, or, where the
/// path cannot be resolved, by its bare file name (see `executor_from_resolved`).
pub fn executor_for_config(config: &Config) -> (e: ProcessJobExecutor)
    ensures
        config.binaries.ytdlp_path@.len() > 0 ==> path_text(e.ytdlp_path) == config.binaries.ytdlp_path@,
        config.binaries.ytdlp_path@.len() == 0 ==> is_managed_binary_path(e.ytdlp_path, YTDLP_EXE_NAME@)
            || path_text(e.ytdlp_path) == YTDLP_EXE_NAME@,
        config.binaries.ffmpeg_path@.len() > 0 ==> path_text(e.ffmpeg_path) == config.binaries.ffmpeg_path@,
        config.binaries.ffmpeg_path@.len() == 0 ==> is_managed_binary_path(e.ffmpeg_path, FFMPEG_EXE_NAME@)
            || path_text(e.ffmpeg_path) == FFMPEG_EXE_NAME@,
{
    executor_from_resolved(resolve_ytdlp_path(config), resolve_ffmpeg_path(config))
}

} // verus!
