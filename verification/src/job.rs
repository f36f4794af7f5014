//! Jobs: one URL to download (and possibly convert), with its settings and state.

use crate::clock::{local_now, LocalTime};
use crate::paths::{path_text, path_clone};
use std::path::PathBuf;
use vstd::prelude::*;

verus! {

/// A job's identifier, unique within the process that issued it.
#[derive(Debug, Clone, Copy, PartialEq, Eq, Hash, PartialOrd, Ord, Structural)]
pub struct JobId(u64);

impl View for JobId {
    type V = u64;

    closed spec fn view(&self) -> u64 {
        self.0
    }
}

/// Two identifiers are equal exactly when their numbers are.
pub proof fn lemma_job_id_view_injective(a: JobId, b: JobId)
    ensures
        (a@ == b@) == (a == b),
{
}

impl JobId {
    /// A fresh identifier from `allocator`, the process's source of job numbers.
    pub fn new(allocator: &mut JobIdAllocator) -> (id: JobId)
        ensures
            id@ == old(allocator)@,
            final(allocator)@ == (if old(allocator)@ == u64::MAX { 0 } else { (old(allocator)@ + 1) as u64 }),
    {
        allocator.next_id()
    }

    /// The number behind the identifier.
    pub fn get(&self) -> (n: u64)
        ensures
            n == self@,
    {
        self.0
    }
}

/// Issues job identifiers in increasing order: 1, 2, 3, ...
///
/// The process keeps one allocator, so the identifiers it hands out are unique.
pub struct JobIdAllocator {
    next: u64,
}

impl View for JobIdAllocator {
    type V = u64;

    /// The number that the next identifier will carry.
    closed spec fn view(&self) -> u64 {
        self.next
    }
}

impl JobIdAllocator {
    /// An allocator whose first identifier is 1.
    pub fn new() -> (a: Self)
        ensures
            a@ == 1,
    {
        JobIdAllocator { next: 1 }
    }

    /// Issues the next identifier; the counter advances by one, wrapping at
    /// `u64::MAX` as an atomic `fetch_add` does.
    pub fn next_id(&mut self) -> (id: JobId)
        ensures
            id@ == old(self)@,
            final(self)@ == (if old(self)@ == u64::MAX { 0 } else { (old(self)@ + 1) as u64 }),
    {
        let id = JobId(self.next);
        self.next = self.next.wrapping_add(1);
        id
    }
}

/// Picture quality preset handed to yt-dlp's `-f`.
#[derive(Debug, Clone, Copy, PartialEq, Eq, Structural)]
pub enum VideoQuality {
    Best,
    P1080,
    P720,
    AudioOnly,
}

/// Output format when only the audio is extracted.
#[derive(Debug, Clone, Copy, PartialEq, Eq, Structural)]
pub enum AudioFormat {
    Mp3,
    M4a,
    Opus,
}

/// A preset quality, or a raw `-f` format string.
#[derive(Debug, PartialEq, Eq)]
pub enum FormatSelection {
    Preset(VideoQuality),
    Custom(String),
}

pub enum FormatSelectionView {
    Preset(VideoQuality),
    Custom(Seq<char>),
}

impl View for FormatSelection {
    type V = FormatSelectionView;

    open spec fn view(&self) -> FormatSelectionView {
        match self {
            FormatSelection::Preset(q) => FormatSelectionView::Preset(*q),
            FormatSelection::Custom(s) => FormatSelectionView::Custom(s@),
        }
    }
}

impl Clone for FormatSelection {
    fn clone(&self) -> (r: Self)
        ensures
            r@ == self@,
    {
        match self {
            FormatSelection::Preset(q) => FormatSelection::Preset(*q),
            FormatSelection::Custom(s) => FormatSelection::Custom(s.clone()),
        }
    }
}

/// Where a job stands. Progress is counted in hundredths of a percent
/// (0 to 10000).
#[derive(Debug, PartialEq, Eq)]
pub enum JobStatus {
    Queued,
    Downloading { progress: u32, speed: Option<String>, eta: Option<String> },
    Converting { progress: u32 },
    Completed,
    Failed { message: String },
    Cancelled,
}

pub enum JobStatusView {
    Queued,
    Downloading { progress: u32, speed: Option<Seq<char>>, eta: Option<Seq<char>> },
    Converting { progress: u32 },
    Completed,
    Failed { message: Seq<char> },
    Cancelled,
}

pub open spec fn opt_text(s: Option<String>) -> Option<Seq<char>> {
    match s {
        Some(t) => Some(t@),
        None => None,
    }
}

impl View for JobStatus {
    type V = JobStatusView;

    open spec fn view(&self) -> JobStatusView {
        match self {
            JobStatus::Queued => JobStatusView::Queued,
            JobStatus::Downloading { progress, speed, eta } => JobStatusView::Downloading {
                progress: *progress,
                speed: opt_text(*speed),
                eta: opt_text(*eta),
            },
            JobStatus::Converting { progress } => JobStatusView::Converting { progress: *progress },
            JobStatus::Completed => JobStatusView::Completed,
            JobStatus::Failed { message } => JobStatusView::Failed { message: message@ },
            JobStatus::Cancelled => JobStatusView::Cancelled,
        }
    }
}

pub fn clone_opt_string(s: &Option<String>) -> (r: Option<String>)
    ensures
        opt_text(r) == opt_text(*s),
{
    match s {
        Some(t) => Some(t.clone()),
        None => None,
    }
}

impl Clone for JobStatus {
    fn clone(&self) -> (r: Self)
        ensures
            r@ == self@,
    {
        match self {
            JobStatus::Queued => JobStatus::Queued,
            JobStatus::Downloading { progress, speed, eta } => JobStatus::Downloading {
                progress: *progress,
                speed: clone_opt_string(speed),
                eta: clone_opt_string(eta),
            },
            JobStatus::Converting { progress } => JobStatus::Converting { progress: *progress },
            JobStatus::Completed => JobStatus::Completed,
            JobStatus::Failed { message } => JobStatus::Failed { message: message.clone() },
            JobStatus::Cancelled => JobStatus::Cancelled,
        }
    }
}

/// One download (and, for audio-only jobs, conversion) task: one URL per job.
#[derive(Debug)]
pub struct Job {
    pub id: JobId,
    pub url: String,
    pub status: JobStatus,
    pub format_selection: FormatSelection,
    pub audio_only: Option<AudioFormat>,
    pub output_dir: PathBuf,
    pub created_at: LocalTime,
}

pub struct JobView {
    pub id: u64,
    pub url: Seq<char>,
    pub status: JobStatusView,
    pub format_selection: FormatSelectionView,
    pub audio_only: Option<AudioFormat>,
    pub output_dir: Seq<char>,
    pub created_at: LocalTime,
}

impl View for Job {
    type V = JobView;

    open spec fn view(&self) -> JobView {
        JobView {
            id: self.id@,
            url: self.url@,
            status: self.status@,
            format_selection: self.format_selection@,
            audio_only: self.audio_only,
            output_dir: path_text(self.output_dir),
            created_at: self.created_at,
        }
    }
}

impl Clone for Job {
    fn clone(&self) -> (r: Self)
        ensures
            r@ == self@,
    {
        Job {
            id: self.id,
            url: self.url.clone(),
            status: self.status.clone(),
            format_selection: self.format_selection.clone(),
            audio_only: self.audio_only,
            output_dir: path_clone(&self.output_dir),
            created_at: self.created_at,
        }
    }
}

impl Job {
    /// A freshly queued job: status `Queued`, no audio extraction, stamped with
    /// the current time.
    pub fn new(id: JobId, url: String, format_selection: FormatSelection, output_dir: PathBuf) -> (job: Self)
        ensures
            job.id == id,
            job@.url == url@,
            job@.status == JobStatusView::Queued,
            job@.format_selection == format_selection@,
            job@.audio_only is None,
            job@.output_dir == path_text(output_dir),
    {
        Job {
            id,
            url,
            status: JobStatus::Queued,
            format_selection,
            audio_only: None,
            output_dir,
            created_at: local_now(),
        }
    }
}

} // verus!
