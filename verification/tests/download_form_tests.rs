use featherpull::download_form::DownloadFormState;
use featherpull::job::{AudioFormat, FormatSelection, JobIdAllocator, JobStatus, VideoQuality};
use std::path::PathBuf;

#[test]
fn urls_trims_and_skips_blank_lines() {
    let state = DownloadFormState {
        urls_input: "  https://example.com/a  \n\n\thttps://example.com/b\n   \n".to_string(),
        ..Default::default()
    };

    assert_eq!(state.urls(), vec!["https://example.com/a".to_string(), "https://example.com/b".to_string()]);
}

#[test]
fn can_submit_requires_at_least_one_url() {
    let mut state = DownloadFormState::default();
    assert!(!state.can_submit());

    state.urls_input = "https://example.com/a".to_string();
    assert!(state.can_submit());
}

#[test]
fn format_selection_defaults_to_preset() {
    let state = DownloadFormState::default();
    assert_eq!(state.format_selection(), FormatSelection::Preset(VideoQuality::Best));
}

#[test]
fn format_selection_uses_custom_when_enabled_and_non_empty() {
    let state = DownloadFormState {
        use_custom_format: true,
        custom_format: "  bestvideo+bestaudio  ".to_string(),
        ..Default::default()
    };

    assert_eq!(state.format_selection(), FormatSelection::Custom("bestvideo+bestaudio".to_string()));
}

#[test]
fn format_selection_falls_back_to_preset_when_custom_is_blank() {
    let state = DownloadFormState {
        use_custom_format: true,
        custom_format: "   ".to_string(),
        quality: VideoQuality::P720,
        ..Default::default()
    };

    assert_eq!(state.format_selection(), FormatSelection::Preset(VideoQuality::P720));
}

#[test]
fn audio_only_format_is_none_unless_audio_only_selected() {
    let mut state = DownloadFormState {
        quality: VideoQuality::Best,
        audio_format: AudioFormat::Opus,
        ..Default::default()
    };
    assert_eq!(state.audio_only_format(), None);

    state.quality = VideoQuality::AudioOnly;
    assert_eq!(state.audio_only_format(), Some(AudioFormat::Opus));
}

#[test]
fn build_jobs_creates_one_job_per_url_with_shared_format_and_audio() {
    let state = DownloadFormState {
        urls_input: "https://example.com/a\nhttps://example.com/b".to_string(),
        quality: VideoQuality::AudioOnly,
        audio_format: AudioFormat::M4a,
        ..Default::default()
    };

    let mut allocator = JobIdAllocator::new();
    let jobs = state.build_jobs(PathBuf::from("C:/downloads"), &mut allocator);

    assert_eq!(jobs.len(), 2);
    for job in &jobs {
        assert_eq!(job.format_selection, FormatSelection::Preset(VideoQuality::AudioOnly));
        assert_eq!(job.audio_only, Some(AudioFormat::M4a));
        assert_eq!(job.output_dir, PathBuf::from("C:/downloads"));
    }
    assert_eq!(jobs[0].url, "https://example.com/a");
    assert_eq!(jobs[1].url, "https://example.com/b");
}

#[test]
fn build_jobs_is_empty_when_no_urls_entered() {
    let state = DownloadFormState::default();
    let mut allocator = JobIdAllocator::new();
    assert!(state.build_jobs(PathBuf::from("C:/downloads"), &mut allocator).is_empty());
}

// ---- further cases ----

#[test]
fn default_form_matches_its_documented_state() {
    let state = DownloadFormState::default();
    assert_eq!(state.urls_input, "");
    assert_eq!(state.quality, VideoQuality::Best);
    assert!(!state.use_custom_format);
    assert_eq!(state.custom_format, "");
    assert_eq!(state.audio_format, AudioFormat::Mp3);
    assert!(!state.advanced_open);
}

#[test]
fn carriage_returns_and_repeated_urls_are_kept_apart_correctly() {
    let state = DownloadFormState {
        urls_input: "https://a\r\nhttps://a\r\n\u{3000}\r\nhttps://b\r".to_string(),
        ..Default::default()
    };
    assert_eq!(state.urls(), vec!["https://a", "https://a", "https://b"]);
}

#[test]
fn custom_format_is_ignored_while_disabled() {
    let state = DownloadFormState {
        use_custom_format: false,
        custom_format: "worst".to_string(),
        quality: VideoQuality::P1080,
        ..Default::default()
    };
    assert_eq!(state.format_selection(), FormatSelection::Preset(VideoQuality::P1080));
}

#[test]
fn jobs_are_numbered_in_turn_and_start_queued() {
    let state = DownloadFormState {
        urls_input: "u1\nu2\nu3".to_string(),
        use_custom_format: true,
        custom_format: " best ".to_string(),
        ..Default::default()
    };
    let mut allocator = JobIdAllocator::new();
    let first = state.build_jobs(PathBuf::from("/d"), &mut allocator);
    let second = state.build_jobs(PathBuf::from("/d"), &mut allocator);
    let ids: Vec<u64> = first.iter().chain(second.iter()).map(|j| j.id.get()).collect();
    assert_eq!(ids, vec![1, 2, 3, 4, 5, 6]);
    for job in &first {
        assert_eq!(job.status, JobStatus::Queued);
        assert_eq!(job.format_selection, FormatSelection::Custom("best".to_string()));
        assert_eq!(job.audio_only, None);
    }
}
