use featherpull::binary_manager::{BinaryManagerError, VersionCheckResult};
use featherpull::config::Config;
use featherpull::control::{
    apply_job_event, executor_for_config, executor_from_resolved, output_dir_from, prepare_step, resolve_output_dir, update_check_entry,
    PrepareEvent, PrepareStage,
};
use featherpull::job::{AudioFormat, FormatSelection, Job, JobId, JobIdAllocator, JobStatus, VideoQuality};
use featherpull::logs::LogLevel;
use featherpull::queue::{JobEvent, JobOutcome};
use featherpull::runner::{
    audio_extension, build_ffmpeg_args, build_ytdlp_args, first_step, next_step, preset_format_string, RunEvent,
    RunStep,
};
use std::path::PathBuf;

fn job(allocator: &mut JobIdAllocator, url: &str, selection: FormatSelection) -> Job {
    Job::new(JobId::new(allocator), url.to_string(), selection, PathBuf::from("/out"))
}

#[test]
fn status_events_update_only_the_first_matching_job() {
    let mut allocator = JobIdAllocator::new();
    let a = job(&mut allocator, "a", FormatSelection::Preset(VideoQuality::Best));
    let b = job(&mut allocator, "b", FormatSelection::Preset(VideoQuality::Best));
    let id_b = b.id;
    let mut jobs = vec![a, b];
    let log = apply_job_event(
        &mut jobs,
        JobEvent::Progress { job_id: id_b, status: JobStatus::Downloading { progress: 2500, speed: None, eta: None } },
    );
    assert!(log.is_none());
    assert_eq!(jobs[0].status, JobStatus::Queued);
    assert_eq!(jobs[1].status, JobStatus::Downloading { progress: 2500, speed: None, eta: None });

    let unknown = JobId::new(&mut allocator);
    apply_job_event(&mut jobs, JobEvent::StatusChanged { job_id: unknown, status: JobStatus::Completed });
    assert_eq!(jobs[0].status, JobStatus::Queued);
    assert_eq!(jobs[1].status, JobStatus::Downloading { progress: 2500, speed: None, eta: None });
}

#[test]
fn log_and_finish_events_become_log_entries() {
    let mut allocator = JobIdAllocator::new();
    let mut jobs = Vec::new();
    let id = JobId::new(&mut allocator);

    let e = apply_job_event(&mut jobs, JobEvent::Log { job_id: Some(id), message: "hello".to_string() }).unwrap();
    assert_eq!((e.level, e.message.as_str()), (LogLevel::Info, "[Job #1] hello"));

    let e = apply_job_event(&mut jobs, JobEvent::Log { job_id: None, message: "plain".to_string() }).unwrap();
    assert_eq!((e.level, e.message.as_str()), (LogLevel::Info, "plain"));

    let e = apply_job_event(&mut jobs, JobEvent::Finished { job_id: id, result: Ok(()) }).unwrap();
    assert_eq!((e.level, e.message.as_str()), (LogLevel::Info, "Job #1 が完了しました"));

    let e = apply_job_event(&mut jobs, JobEvent::Finished { job_id: id, result: Err("x".to_string()) }).unwrap();
    assert_eq!((e.level, e.message.as_str()), (LogLevel::Warn, "Job #1 が終了しました: x"));
}

#[test]
fn version_checks_are_reported_in_words() {
    let e = update_check_entry("yt-dlp", Ok(VersionCheckResult::UpToDate));
    assert_eq!((e.level, e.message.as_str()), (LogLevel::Info, "yt-dlpは最新版です"));
    let e = update_check_entry(
        "ffmpeg",
        Ok(VersionCheckResult::UpdateAvailable { current: "a".to_string(), latest: "b".to_string() }),
    );
    assert_eq!((e.level, e.message.as_str()), (LogLevel::Warn, "ffmpegの更新があります: a -> b"));
    let e = update_check_entry("yt-dlp", Ok(VersionCheckResult::NotInstalled { latest: "v2".to_string() }));
    assert_eq!(e.message, "yt-dlpの最新版はv2です(まだインストールされていません)");
    let e = update_check_entry("yt-dlp", Err("network".to_string()));
    assert_eq!((e.level, e.message.as_str()), (LogLevel::Error, "yt-dlpの更新確認に失敗しました: network"));
}

#[test]
fn start_up_runs_the_update_checks_only_when_enabled() {
    let (stage, e) = prepare_step(PrepareStage::InstallYtdlp, false, PrepareEvent::YtdlpInstalled(Ok("/b/yt-dlp.exe".to_string())));
    assert_eq!(stage, PrepareStage::InstallFfmpeg);
    assert_eq!(e.message, "yt-dlpを準備しました: /b/yt-dlp.exe");
    let (stage, e) = prepare_step(PrepareStage::InstallFfmpeg, false, PrepareEvent::FfmpegInstalled(Err("boom".to_string())));
    assert_eq!(stage, PrepareStage::Done);
    assert_eq!((e.level, e.message.as_str()), (LogLevel::Error, "ffmpegの準備に失敗しました: boom"));
    let (stage, e) = prepare_step(
        PrepareStage::InstallFfmpeg,
        true,
        PrepareEvent::FfmpegInstalled(Ok(("/b/ffmpeg.exe".to_string(), "/b/ffprobe.exe".to_string()))),
    );
    assert_eq!(stage, PrepareStage::CheckYtdlp);
    assert_eq!(e.message, "ffmpegを準備しました: /b/ffmpeg.exe / /b/ffprobe.exe");
    let (stage, e) = prepare_step(PrepareStage::CheckYtdlp, true, PrepareEvent::YtdlpChecked(Ok(VersionCheckResult::UpToDate)));
    assert_eq!(stage, PrepareStage::CheckFfmpeg);
    assert_eq!(e.message, "yt-dlpは最新版です");
    let (stage, _) = prepare_step(PrepareStage::CheckFfmpeg, true, PrepareEvent::FfmpegChecked(Err("x".to_string())));
    assert_eq!(stage, PrepareStage::Done);
}

#[test]
fn output_folder_is_the_configured_one_or_a_fallback() {
    let mut config = Config::default();
    assert_eq!(output_dir_from(&config, Some(PathBuf::from("/home/u/Downloads"))), PathBuf::from("/home/u/Downloads"));
    assert_eq!(output_dir_from(&config, None), PathBuf::from("."));
    config.general.save_dir = "D:/Videos".to_string();
    assert_eq!(output_dir_from(&config, Some(PathBuf::from("/x"))), PathBuf::from("D:/Videos"));
    assert_eq!(resolve_output_dir(&config), PathBuf::from("D:/Videos"));
}

#[test]
fn executor_uses_custom_paths_when_set() {
    let mut config = Config::default();
    config.binaries.ytdlp_path = "/opt/yt-dlp".to_string();
    config.binaries.ffmpeg_path = "/opt/ffmpeg".to_string();
    let e = executor_for_config(&config);
    assert_eq!(e.ytdlp_path, PathBuf::from("/opt/yt-dlp"));
    assert_eq!(e.ffmpeg_path, PathBuf::from("/opt/ffmpeg"));
    let e = executor_for_config(&Config::default());
    assert!(e.ytdlp_path.ends_with("yt-dlp.exe"));
    assert!(e.ffmpeg_path.ends_with("ffmpeg.exe"));
}

#[test]
fn presets_and_extensions_map_to_yt_dlp_and_ffmpeg_terms() {
    assert_eq!(preset_format_string(VideoQuality::Best), "bestvideo+bestaudio/best");
    assert_eq!(preset_format_string(VideoQuality::P1080), "bestvideo[height<=1080]+bestaudio/best[height<=1080]");
    assert_eq!(preset_format_string(VideoQuality::P720), "bestvideo[height<=720]+bestaudio/best[height<=720]");
    assert_eq!(preset_format_string(VideoQuality::AudioOnly), "bestaudio");
    assert_eq!(audio_extension(AudioFormat::Mp3), "mp3");
    assert_eq!(audio_extension(AudioFormat::M4a), "m4a");
    assert_eq!(audio_extension(AudioFormat::Opus), "opus");
}

#[test]
fn job_arguments_name_format_folder_and_output_file() {
    let mut allocator = JobIdAllocator::new();
    let j = job(&mut allocator, "u", FormatSelection::Preset(VideoQuality::P720));
    assert_eq!(build_ytdlp_args(&j), vec!["-f", "bestvideo[height<=720]+bestaudio/best[height<=720]", "-P", "/out"]);
    let j = job(&mut allocator, "u", FormatSelection::Custom("worst".to_string()));
    assert_eq!(build_ytdlp_args(&j), vec!["-f", "worst", "-P", "/out"]);
    let expected_output = PathBuf::from("/out").join("2.opus").to_string_lossy().into_owned();
    assert_eq!(build_ffmpeg_args(&j, AudioFormat::Opus), vec!["-y".to_string(), "-i".to_string(), "-".to_string(), expected_output]);
}

#[test]
fn a_job_downloads_then_converts_only_for_audio() {
    let mut allocator = JobIdAllocator::new();
    let mut j = job(&mut allocator, "u", FormatSelection::Preset(VideoQuality::AudioOnly));
    match first_step(&j) {
        RunStep::Download(args) => assert_eq!(args[0], "-f"),
        _ => panic!("download first"),
    }
    assert!(matches!(next_step(&j, RunEvent::DownloadSucceeded), RunStep::Finish(JobOutcome::Completed)));
    j.audio_only = Some(AudioFormat::Mp3);
    match next_step(&j, RunEvent::DownloadSucceeded) {
        RunStep::Convert { log, args } => {
            assert_eq!(log, "ダウンロードが完了しました。音声抽出の変換を開始します");
            assert_eq!(args, build_ffmpeg_args(&j, AudioFormat::Mp3));
        },
        _ => panic!("convert next"),
    }
    assert!(matches!(next_step(&j, RunEvent::ConvertSucceeded), RunStep::Finish(JobOutcome::Completed)));
    assert!(matches!(next_step(&j, RunEvent::Cancelled), RunStep::Finish(JobOutcome::Cancelled)));
    match next_step(&j, RunEvent::ConvertFailed("bad".to_string())) {
        RunStep::Finish(JobOutcome::Failed(m)) => assert_eq!(m, "bad"),
        _ => panic!("failed"),
    }
    match next_step(&j, RunEvent::DownloadFailed("net".to_string())) {
        RunStep::Finish(JobOutcome::Failed(m)) => assert_eq!(m, "net"),
        _ => panic!("failed"),
    }
}

#[test]
fn executor_falls_back_to_bare_names_only_where_resolving_failed() {
    let e = executor_from_resolved(Ok(PathBuf::from("/m/bin/yt-dlp.exe")), Err(BinaryManagerError::InvalidJson("x".to_string())));
    assert_eq!(e.ytdlp_path, PathBuf::from("/m/bin/yt-dlp.exe"));
    assert_eq!(e.ffmpeg_path, PathBuf::from("ffmpeg.exe"));
}
