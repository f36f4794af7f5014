use featherpull::config::{
    bin_dir, config_dir, config_file_path, dirs_or_unavailable, logs_dir, path_in_dir, project_identity, Config,
    ConfigError,
};
use std::path::PathBuf;

#[test]
fn default_config_matches_documented_values() {
    let config = Config::default();

    assert_eq!(config.general.concurrency, 3);
    assert_eq!(config.general.save_dir, "");
    assert_eq!(config.binaries.ytdlp_path, "");
    assert_eq!(config.binaries.ffmpeg_path, "");
    assert!(config.binaries.auto_update_check);
    assert_eq!(config.defaults.video_quality, "best");
    assert_eq!(config.defaults.audio_format, "mp3");
    assert!(config.logging.file_logging);
}

#[test]
fn config_dir_paths_are_nested_under_the_same_root() {
    let config_dir = config_dir().expect("config dir should resolve on this OS");
    let bin_dir = bin_dir().expect("bin dir should resolve on this OS");
    let logs_dir = logs_dir().expect("logs dir should resolve on this OS");

    assert!(config_dir.is_absolute());
    assert!(bin_dir.starts_with(&config_dir));
    assert!(logs_dir.starts_with(&config_dir));
}

#[test]
fn settings_file_and_directories_sit_directly_in_the_settings_directory() {
    let dir = config_dir().expect("config dir should resolve on this OS");
    assert_eq!(config_file_path().unwrap(), dir.join("config.toml"));
    assert_eq!(bin_dir().unwrap(), dir.join("bin"));
    assert_eq!(logs_dir().unwrap(), dir.join("logs"));
}

#[test]
fn directories_are_looked_up_under_the_project_names() {
    assert_eq!(project_identity(), ("", "Harukoto Project", "featherpull"));
    assert!(matches!(dirs_or_unavailable(None), Err(ConfigError::ProjectDirsUnavailable)));
    assert_eq!(path_in_dir(&PathBuf::from("/cfg"), "bin"), PathBuf::from("/cfg/bin"));
}
