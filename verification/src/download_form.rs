//! The download form: what was typed, and the jobs it makes.

use crate::job::{
    AudioFormat, FormatSelection, FormatSelectionView, Job, JobId, JobIdAllocator, JobStatusView, VideoQuality,
};
use crate::paths::{path_clone, path_text};
use crate::text::{char_vec_views, chars_to_string, lines_of, split_lines, str_to_chars, string_views, trim_chars, trim_str, trimmed};
use std::path::PathBuf;
use vstd::prelude::*;

verus! {

/// The form's input.
#[derive(Debug, Clone, PartialEq)]
pub struct DownloadFormState {
    /// One URL per line; several may be pasted at once.
    pub urls_input: String,
    /// The preset quality (or audio only).
    pub quality: VideoQuality,
    /// Whether the raw `-f` format below is used in place of `quality`.
    pub use_custom_format: bool,
    /// A raw `-f` format string, for experienced users.
    pub custom_format: String,
    /// The audio format, used when `quality` is `AudioOnly`.
    pub audio_format: AudioFormat,
    /// Whether the advanced section is unfolded.
    pub advanced_open: bool,
}

impl Default for DownloadFormState {
    fn default() -> (r: Self)
        ensures
            r.urls_input@ == Seq::<char>::empty(),
            r.quality == VideoQuality::Best,
            !r.use_custom_format,
            r.custom_format@ == Seq::<char>::empty(),
            r.audio_format == AudioFormat::Mp3,
            !r.advanced_open,
    {
        DownloadFormState {
            urls_input: String::new(),
            quality: VideoQuality::Best,
            use_custom_format: false,
            custom_format: String::new(),
            audio_format: AudioFormat::Mp3,
            advanced_open: false,
        }
    }
}

/// The lines, trimmed, without those left empty; repeated lines stay.
pub open spec fn nonblank_trimmed(lines: Seq<Seq<char>>) -> Seq<Seq<char>>
    decreases lines.len(),
{
    if lines.len() == 0 {
        seq![]
    } else {
        let front = nonblank_trimmed(lines.drop_last());
        let t = trimmed(lines.last());
        if t.len() > 0 {
            front.push(t)
        } else {
            front
        }
    }
}

/// The URLs typed: each line trimmed, blank lines skipped.
pub open spec fn spec_urls(input: Seq<char>) -> Seq<Seq<char>> {
    nonblank_trimmed(lines_of(input))
}

/// The format selection: the trimmed custom format where it is enabled and
/// not blank, else the preset.
pub open spec fn spec_format_selection(s: DownloadFormState) -> FormatSelectionView {
    if s.use_custom_format && trimmed(s.custom_format@).len() > 0 {
        FormatSelectionView::Custom(trimmed(s.custom_format@))
    } else {
        FormatSelectionView::Preset(s.quality)
    }
}

/// The audio format, where only the audio is wanted.
pub open spec fn spec_audio_only(s: DownloadFormState) -> Option<AudioFormat> {
    if s.quality == VideoQuality::AudioOnly {
        Some(s.audio_format)
    } else {
        None
    }
}

/// The number `k` places after `start`, wrapping past `u64::MAX`.
pub open spec fn id_after(start: u64, k: int) -> u64 {
    ((start as int + k) % 0x1_0000_0000_0000_0000) as u64
}

impl DownloadFormState {
    /// The URLs to download, one per non-blank line, trimmed.
    pub fn urls(&self) -> (r: Vec<String>)
        ensures
            string_views(r@) == spec_urls(self.urls_input@),
    {
        let chars = str_to_chars(self.urls_input.as_str());
        let lines = split_lines(chars.as_slice());
        let ghost line_views = char_vec_views(lines@);
        let mut urls: Vec<String> = Vec::new();
        let n = lines.len();
        let mut i: usize = 0;
        while i < n
            invariant
                i <= n == lines@.len(),
                line_views == char_vec_views(lines@),
                line_views == lines_of(self.urls_input@),
                string_views(urls@) == nonblank_trimmed(line_views.subrange(0, i as int)),
            decreases n - i,
        {
            let t = trim_chars(lines[i].as_slice());
            let ghost front = line_views.subrange(0, i as int);
            assert(line_views.subrange(0, i + 1).drop_last() =~= front);
            assert(line_views[i as int] == lines@[i as int]@);
            if t.len() > 0 {
                let u = chars_to_string(t.as_slice());
                let ghost before = urls@;
                urls.push(u);
                assert(string_views(urls@) =~= string_views(before).push(u@));
            }
            i = i + 1;
        }
        assert(line_views.subrange(0, n as int) =~= line_views);
        urls
    }

    /// The format yt-dlp is asked for. A custom format that is blank counts as
    /// a slip, and the preset is used.
    pub fn format_selection(&self) -> (r: FormatSelection)
        ensures
            r@ == spec_format_selection(*self),
    {
        if self.use_custom_format {
            let t = trim_str(self.custom_format.as_str());
            if !t.as_str().is_empty() {
                return FormatSelection::Custom(t);
            }
        }
        FormatSelection::Preset(self.quality)
    }

    /// The audio format to extract, only where `AudioOnly` is chosen.
    pub fn audio_only_format(&self) -> (r: Option<AudioFormat>)
        ensures
            r == spec_audio_only(*self),
    {
        if self.quality == VideoQuality::AudioOnly {
            Some(self.audio_format)
        } else {
            None
        }
    }

    /// Whether the form can be submitted: at least one URL is typed.
    pub fn can_submit(&self) -> (r: bool)
        ensures
            r == (spec_urls(self.urls_input@).len() > 0),
    {
        let urls = self.urls();
        urls.len() > 0
    }

    /// One queued job per URL, in order, all with the form's format and audio
    /// choice and `output_dir`, numbered by `allocator` in turn.
    pub fn build_jobs(&self, output_dir: PathBuf, allocator: &mut JobIdAllocator) -> (jobs: Vec<Job>)
        ensures
            jobs@.len() == spec_urls(self.urls_input@).len(),
            final(allocator)@ == id_after(old(allocator)@, jobs@.len() as int),
            forall|i: int|
                0 <= i < jobs@.len() ==> {
                    let j = #[trigger] jobs@[i]@;
                    &&& j.id == id_after(old(allocator)@, i)
                    &&& j.url == spec_urls(self.urls_input@)[i]
                    &&& j.status == JobStatusView::Queued
                    &&& j.format_selection == spec_format_selection(*self)
                    &&& j.audio_only == spec_audio_only(*self)
                    &&& j.output_dir == path_text(output_dir)
                },
    {
        let format_selection = self.format_selection();
        let audio_only = self.audio_only_format();
        let urls = self.urls();
        let ghost start = allocator@;
        let mut jobs: Vec<Job> = Vec::new();
        let n = urls.len();
        let mut i: usize = 0;
        while i < n
            invariant
                i <= n == urls@.len(),
                string_views(urls@) == spec_urls(self.urls_input@),
                format_selection@ == spec_format_selection(*self),
                audio_only == spec_audio_only(*self),
                start == old(allocator)@,
                jobs@.len() == i,
                allocator@ == id_after(start, i as int),
                forall|k: int|
                    0 <= k < i ==> {
                        let j = #[trigger] jobs@[k]@;
                        &&& j.id == id_after(start, k)
                        &&& j.url == spec_urls(self.urls_input@)[k]
                        &&& j.status == JobStatusView::Queued
                        &&& j.format_selection == spec_format_selection(*self)
                        &&& j.audio_only == spec_audio_only(*self)
                        &&& j.output_dir == path_text(output_dir)
                    },
            decreases n - i,
        {
            let ghost before = allocator@;
            let id = JobId::new(allocator);
            assert(allocator@ == id_after(start, i + 1)) by {
                assert(before == id_after(start, i as int));
            }
            assert(string_views(urls@)[i as int] == urls@[i as int]@);
            let mut job = Job::new(id, urls[i].clone(), format_selection.clone(), path_clone(&output_dir));
            job.audio_only = audio_only;
            jobs.push(job);
            i = i + 1;
        }
        jobs
    }
}

} // verus!
