use featherpull::job::{FormatSelection, Job, JobId, JobIdAllocator, JobStatus, VideoQuality};
use std::path::PathBuf;

#[test]
fn job_id_is_unique_across_instances() {
    let mut allocator = JobIdAllocator::new();
    let a = JobId::new(&mut allocator);
    let b = JobId::new(&mut allocator);
    assert_ne!(a, b);
    assert!(b.get() > a.get());
}

#[test]
fn new_job_starts_queued_with_no_audio_selection() {
    let mut allocator = JobIdAllocator::new();
    let job = Job::new(
        JobId::new(&mut allocator),
        "https://example.com/watch".to_string(),
        FormatSelection::Preset(VideoQuality::Best),
        PathBuf::from("C:/downloads"),
    );

    assert_eq!(job.status, JobStatus::Queued);
    assert_eq!(job.audio_only, None);
    assert_eq!(job.format_selection, FormatSelection::Preset(VideoQuality::Best));
}

#[test]
fn custom_format_selection_preserves_raw_string() {
    let selection = FormatSelection::Custom("bestvideo+bestaudio".to_string());
    match selection {
        FormatSelection::Custom(ref raw) => assert_eq!(raw, "bestvideo+bestaudio"),
        FormatSelection::Preset(_) => panic!("Custom選択がPresetとして扱われた"),
    }
}

#[test]
fn allocator_numbers_jobs_from_one_upwards() {
    let mut allocator = JobIdAllocator::new();
    let ids: Vec<u64> = (0..4).map(|_| JobId::new(&mut allocator).get()).collect();
    assert_eq!(ids, vec![1, 2, 3, 4]);
}

#[test]
fn new_job_keeps_url_and_output_dir() {
    let mut allocator = JobIdAllocator::new();
    let id = JobId::new(&mut allocator);
    let job = Job::new(
        id,
        "https://example.com/x".to_string(),
        FormatSelection::Custom("worst".to_string()),
        PathBuf::from("/tmp/out"),
    );
    assert_eq!(job.id, id);
    assert_eq!(job.url, "https://example.com/x");
    assert_eq!(job.output_dir, PathBuf::from("/tmp/out"));
    assert_eq!(job.format_selection, FormatSelection::Custom("worst".to_string()));
}
