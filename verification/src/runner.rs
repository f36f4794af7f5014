//! Running one job: the arguments for yt-dlp and ffmpeg, and the steps from
//! download to (for audio-only jobs) conversion. The processes themselves are
//! started, awaited and killed by the caller, which reports back what happened.

use crate::job::{AudioFormat, FormatSelection, FormatSelectionView, Job, JobView, VideoQuality};
use crate::paths::{joined_path_text, path_join, path_text, path_to_string};
use crate::queue::{JobOutcome, JobOutcomeView};
use crate::text::{decimal_text, string_push_str, string_views, u64_to_text};
use std::path::PathBuf;
use vstd::prelude::*;

verus! {

/// The `-f` format string for a preset quality.
pub open spec fn spec_preset_format(quality: VideoQuality) -> Seq<char> {
    match quality {
        VideoQuality::Best => "bestvideo+bestaudio/best"@,
        VideoQuality::P1080 => "bestvideo[height<=1080]+bestaudio/best[height<=1080]"@,
        VideoQuality::P720 => "bestvideo[height<=720]+bestaudio/best[height<=720]"@,
        VideoQuality::AudioOnly => "bestaudio"@,
    }
}

/// The yt-dlp format string for a preset quality.
pub fn preset_format_string(quality: VideoQuality) -> (s: &'static str)
    ensures
        s@ == spec_preset_format(quality),
{
    match quality {
        VideoQuality::Best => "bestvideo+bestaudio/best",
        VideoQuality::P1080 => "bestvideo[height<=1080]+bestaudio/best[height<=1080]",
        VideoQuality::P720 => "bestvideo[height<=720]+bestaudio/best[height<=720]",
        VideoQuality::AudioOnly => "bestaudio",
    }
}

/// The file extension for an audio format.
pub open spec fn spec_audio_extension(format: AudioFormat) -> Seq<char> {
    match format {
        AudioFormat::Mp3 => "mp3"@,
        AudioFormat::M4a => "m4a"@,
        AudioFormat::Opus => "opus"@,
    }
}

/// The file extension for an audio format.
pub fn audio_extension(format: AudioFormat) -> (s: &'static str)
    ensures
        s@ == spec_audio_extension(format),
{
    match format {
        AudioFormat::Mp3 => "mp3",
        AudioFormat::M4a => "m4a",
        AudioFormat::Opus => "opus",
    }
}

/// The format string a job asks yt-dlp for.
pub open spec fn job_format(selection: FormatSelectionView) -> Seq<char> {
    match selection {
        FormatSelectionView::Preset(q) => spec_preset_format(q),
        FormatSelectionView::Custom(raw) => raw,
    }
}

/// yt-dlp's extra arguments for a job: the format, then the output directory.
pub open spec fn spec_ytdlp_job_args(job: JobView) -> Seq<Seq<char>> {
    seq!["-f"@, job_format(job.format_selection), "-P"@, job.output_dir]
}

/// yt-dlp's extra arguments for `job`: `-f <format> -P <output directory>`.
pub fn build_ytdlp_args(job: &Job) -> (args: Vec<String>)
    ensures
        string_views(args@) == spec_ytdlp_job_args(job@),
{
    let format = match &job.format_selection {
        FormatSelection::Preset(quality) => preset_format_string(*quality).to_string(),
        FormatSelection::Custom(raw) => raw.clone(),
    };
    let args = vec!["-f".to_string(), format, "-P".to_string(), path_to_string(&job.output_dir)];
    assert(string_views(args@) =~= spec_ytdlp_job_args(job@));
    args
}

/// The converted file's name: the job's number and the format's extension.
pub open spec fn converted_file_name(id: u64, format: AudioFormat) -> Seq<char> {
    decimal_text(id as nat) + "."@ + spec_audio_extension(format)
}

/// ffmpeg's arguments for converting a job's download, read from standard
/// input, into `<output directory>/<job number>.<extension>`.
pub open spec fn spec_ffmpeg_job_args(job: JobView, format: AudioFormat) -> Seq<Seq<char>> {
    seq!["-y"@, "-i"@, "-"@, joined_path_text(job.output_dir, converted_file_name(job.id, format))]
}

/// ffmpeg's arguments for converting `job` to `audio_format`.
pub fn build_ffmpeg_args(job: &Job, audio_format: AudioFormat) -> (args: Vec<String>)
    ensures
        string_views(args@) == spec_ffmpeg_job_args(job@, audio_format),
{
    let mut name = u64_to_text(job.id.get());
    string_push_str(&mut name, ".");
    string_push_str(&mut name, audio_extension(audio_format));
    let output_path = path_join(&job.output_dir, name.as_str());
    let args = vec!["-y".to_string(), "-i".to_string(), "-".to_string(), path_to_string(&output_path)];
    assert(string_views(args@) =~= spec_ffmpeg_job_args(job@, audio_format));
    args
}

/// Runs jobs with the real yt-dlp and ffmpeg executables at these paths.
pub struct ProcessJobExecutor {
    pub ytdlp_path: PathBuf,
    pub ffmpeg_path: PathBuf,
}

impl ProcessJobExecutor {
    pub fn new(ytdlp_path: PathBuf, ffmpeg_path: PathBuf) -> (e: Self)
        ensures
            path_text(e.ytdlp_path) == path_text(ytdlp_path),
            path_text(e.ffmpeg_path) == path_text(ffmpeg_path),
    {
        ProcessJobExecutor { ytdlp_path, ffmpeg_path }
    }
}

// ---- the steps of one job ----

/// What the caller reports about the step it was asked to take.
pub enum RunEvent {
    /// The download ran to a successful end.
    DownloadSucceeded,
    /// The download could not be started or ended in error, with the message.
    DownloadFailed(String),
    /// The conversion ran to a successful end.
    ConvertSucceeded,
    /// The conversion could not be started or ended in error, with the message.
    ConvertFailed(String),
    /// Cancellation was signalled while a process ran; it has been killed.
    Cancelled,
}

/// What the caller does next.
pub enum RunStep {
    /// Start yt-dlp with these extra arguments and wait for it.
    Download(Vec<String>),
    /// Log the message, then start ffmpeg with these arguments and wait for it.
    Convert { log: String, args: Vec<String> },
    /// The job is over.
    Finish(JobOutcome),
}

pub enum RunStepView {
    Download(Seq<Seq<char>>),
    Convert { log: Seq<char>, args: Seq<Seq<char>> },
    Finish(JobOutcomeView),
}

impl View for RunStep {
    type V = RunStepView;

    open spec fn view(&self) -> RunStepView {
        match self {
            RunStep::Download(args) => RunStepView::Download(string_views(args@)),
            RunStep::Convert { log, args } => RunStepView::Convert { log: log@, args: string_views(args@) },
            RunStep::Finish(outcome) => RunStepView::Finish(outcome@),
        }
    }
}

pub open spec fn conversion_start_message() -> Seq<char> {
    "ダウンロードが完了しました。音声抽出の変換を開始します"@
}

/// The step after `event`: a failure ends the job with its message, a
/// cancellation ends it as cancelled, a finished download goes on to the
/// conversion where only the audio is wanted, and ends the job otherwise.
pub open spec fn spec_next_step(job: JobView, event: RunEvent) -> RunStepView {
    match event {
        RunEvent::DownloadSucceeded => match job.audio_only {
            Some(format) => RunStepView::Convert {
                log: conversion_start_message(),
                args: spec_ffmpeg_job_args(job, format),
            },
            None => RunStepView::Finish(JobOutcomeView::Completed),
        },
        RunEvent::DownloadFailed(m) => RunStepView::Finish(JobOutcomeView::Failed(m@)),
        RunEvent::ConvertSucceeded => RunStepView::Finish(JobOutcomeView::Completed),
        RunEvent::ConvertFailed(m) => RunStepView::Finish(JobOutcomeView::Failed(m@)),
        RunEvent::Cancelled => RunStepView::Finish(JobOutcomeView::Cancelled),
    }
}

/// A job starts with its download.
pub fn first_step(job: &Job) -> (step: RunStep)
    ensures
        step@ == RunStepView::Download(spec_ytdlp_job_args(job@)),
{
    RunStep::Download(build_ytdlp_args(job))
}

/// The step that follows `event` (see `spec_next_step`).
pub fn next_step(job: &Job, event: RunEvent) -> (step: RunStep)
    ensures
        step@ == spec_next_step(job@, event),
{
    match event {
        RunEvent::DownloadSucceeded => match job.audio_only {
            Some(format) => RunStep::Convert {
                log: "ダウンロードが完了しました。音声抽出の変換を開始します".to_string(),
                args: build_ffmpeg_args(job, format),
            },
            None => RunStep::Finish(JobOutcome::Completed),
        },
        RunEvent::DownloadFailed(m) => RunStep::Finish(JobOutcome::Failed(m)),
        RunEvent::ConvertSucceeded => RunStep::Finish(JobOutcome::Completed),
        RunEvent::ConvertFailed(m) => RunStep::Finish(JobOutcome::Failed(m)),
        RunEvent::Cancelled => RunStep::Finish(JobOutcome::Cancelled),
    }
}

} // verus!
