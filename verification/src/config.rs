//! Settings: their defaults, and where the settings file, the managed
//! binaries and the logs live.

use crate::paths::{joined_path_text, path_join, path_text};
use directories::ProjectDirs;
use std::path::PathBuf;
use vstd::prelude::*;

verus! {

pub const CONFIG_FILE_NAME: &'static str = "config.toml";

pub const BIN_DIR_NAME: &'static str = "bin";

pub const LOGS_DIR_NAME: &'static str = "logs";

#[verifier::external_type_specification]
#[verifier::external_body]
pub struct ExTomlDeError(toml::de::Error);

#[verifier::external_type_specification]
#[verifier::external_body]
pub struct ExTomlSerError(toml::ser::Error);

#[verifier::external_type_specification]
#[verifier::external_body]
pub struct ExProjectDirs(ProjectDirs);

/// Why the settings could not be located, read or written.
#[derive(Debug)]
pub enum ConfigError {
    /// The platform has no per-user settings directory (no home directory found).
    ProjectDirsUnavailable,
    Io(std::io::Error),
    Deserialize(toml::de::Error),
    Serialize(toml::ser::Error),
}

/// General settings. An empty `save_dir` stands for the system's download folder.
#[derive(Debug, Clone, PartialEq)]
pub struct GeneralConfig {
    pub concurrency: u32,
    pub save_dir: String,
}

impl Default for GeneralConfig {
    fn default() -> (r: Self)
        ensures
            r.concurrency == 3,
            r.save_dir@ == Seq::<char>::empty(),
    {
        GeneralConfig { concurrency: 3, save_dir: String::new() }
    }
}

/// Where the binaries are. An empty path stands for the managed copy under `bin/`.
#[derive(Debug, Clone, PartialEq)]
pub struct BinariesConfig {
    pub ytdlp_path: String,
    pub ffmpeg_path: String,
    pub auto_update_check: bool,
}

impl Default for BinariesConfig {
    fn default() -> (r: Self)
        ensures
            r.ytdlp_path@ == Seq::<char>::empty(),
            r.ffmpeg_path@ == Seq::<char>::empty(),
            r.auto_update_check,
    {
        BinariesConfig { ytdlp_path: String::new(), ffmpeg_path: String::new(), auto_update_check: true }
    }
}

/// The form's initial choices.
#[derive(Debug, Clone, PartialEq)]
pub struct DefaultsConfig {
    pub video_quality: String,
    pub audio_format: String,
}

impl Default for DefaultsConfig {
    fn default() -> (r: Self)
        ensures
            r.video_quality@ == "best"@,
            r.audio_format@ == "mp3"@,
    {
        DefaultsConfig { video_quality: "best".to_string(), audio_format: "mp3".to_string() }
    }
}

/// Whether the log is also written to a file.
#[derive(Debug, Clone, PartialEq)]
pub struct LoggingConfig {
    pub file_logging: bool,
}

impl Default for LoggingConfig {
    fn default() -> (r: Self)
        ensures
            r.file_logging,
    {
        LoggingConfig { file_logging: true }
    }
}

/// All settings, as kept in `config.toml`.
#[derive(Debug, Clone, PartialEq)]
pub struct Config {
    pub general: GeneralConfig,
    pub binaries: BinariesConfig,
    pub defaults: DefaultsConfig,
    pub logging: LoggingConfig,
}

/// The settings used on first start, when no settings file exists.
pub open spec fn is_default_config(c: Config) -> bool {
    &&& c.general.concurrency == 3
    &&& c.general.save_dir@ == Seq::<char>::empty()
    &&& c.binaries.ytdlp_path@ == Seq::<char>::empty()
    &&& c.binaries.ffmpeg_path@ == Seq::<char>::empty()
    &&& c.binaries.auto_update_check
    &&& c.defaults.video_quality@ == "best"@
    &&& c.defaults.audio_format@ == "mp3"@
    &&& c.logging.file_logging
}

impl Default for Config {
    fn default() -> (r: Self)
        ensures
            is_default_config(r),
    {
        Config {
            general: GeneralConfig::default(),
            binaries: BinariesConfig::default(),
            defaults: DefaultsConfig::default(),
            logging: LoggingConfig::default(),
        }
    }
}

/// `ProjectDirs::from`: the platform's directories for an application, or
/// `None` where no home directory can be found. The answer depends on the
/// environment, so nothing is stated of it.
#[verifier::external_body]
fn project_dirs_from(qualifier: &str, organization: &str, application: &str) -> (r: Option<ProjectDirs>) {
    ProjectDirs::from(qualifier, organization, application)
}

/// `ProjectDirs::config_dir`, as an owned path. Nothing is stated of it: the
/// directory was chosen from the environment when `dirs` was made.
#[verifier::external_body]
fn project_config_dir(dirs: &ProjectDirs) -> (p: PathBuf) {
    dirs.config_dir().to_path_buf()
}

/// The names the application's directories are looked up under: no
/// qualifier (so no reversed-domain path is forced on any platform), the
/// organization "Harukoto Project" and the application "featherpull".
pub fn project_identity() -> (ids: (&'static str, &'static str, &'static str))
    ensures
        ids.0@ == ""@,
        ids.1@ == "Harukoto Project"@,
        ids.2@ == "featherpull"@,
{
    ("", "Harukoto Project", "featherpull")
}

/// The outcome of a directory lookup as a result: the directories found, or
/// `ProjectDirsUnavailable` where none were.
pub fn dirs_or_unavailable(found: Option<ProjectDirs>) -> (r: Result<ProjectDirs, ConfigError>)
    ensures
        match found {
            Some(d) => r == Ok::<ProjectDirs, ConfigError>(d),
            None => r is Err && r->Err_0 is ProjectDirsUnavailable,
        },
{
    match found {
        Some(dirs) => Ok(dirs),
        None => Err(ConfigError::ProjectDirsUnavailable),
    }
}

/// The application's directories, looked up under `project_identity`.
fn project_dirs() -> (r: Result<ProjectDirs, ConfigError>)
    ensures
        r is Err ==> r->Err_0 is ProjectDirsUnavailable,
{
    let (qualifier, organization, application) = project_identity();
    dirs_or_unavailable(project_dirs_from(qualifier, organization, application))
}

/// The path is `name` inside some directory.
pub open spec fn is_entry_of_some_dir(p: PathBuf, name: Seq<char>) -> bool {
    exists|dir: Seq<char>| path_text(p) == joined_path_text(dir, name)
}

/// The directory that holds the settings file.
pub fn config_dir() -> (r: Result<PathBuf, ConfigError>)
    ensures
        r is Err ==> r->Err_0 is ProjectDirsUnavailable,
{
    let dirs = match project_dirs() {
        Ok(d) => d,
        Err(e) => {
            return Err(e);
        },
    };
    Ok(project_config_dir(&dirs))
}

/// `name` inside the directory `dir`.
pub fn path_in_dir(dir: &PathBuf, name: &str) -> (p: PathBuf)
    ensures
        path_text(p) == joined_path_text(path_text(*dir), name@),
{
    path_join(dir, name)
}

/// `name` inside the settings directory.
fn config_entry(name: &str) -> (r: Result<PathBuf, ConfigError>)
    ensures
        match r {
            Ok(p) => is_entry_of_some_dir(p, name@),
            Err(e) => e is ProjectDirsUnavailable,
        },
{
    let dir = match config_dir() {
        Ok(d) => d,
        Err(e) => {
            return Err(e);
        },
    };
    let p = path_in_dir(&dir, name);
    assert(path_text(p) == joined_path_text(path_text(dir), name@));
    Ok(p)
}

/// The settings file, `config.toml` inside the settings directory.
pub fn config_file_path() -> (r: Result<PathBuf, ConfigError>)
    ensures
        match r {
            Ok(p) => is_entry_of_some_dir(p, CONFIG_FILE_NAME@),
            Err(e) => e is ProjectDirsUnavailable,
        },
{
    config_entry(CONFIG_FILE_NAME)
}

/// The directory of the managed binaries, `bin` inside the settings directory.
pub fn bin_dir() -> (r: Result<PathBuf, ConfigError>)
    ensures
        match r {
            Ok(p) => is_entry_of_some_dir(p, BIN_DIR_NAME@),
            Err(e) => e is ProjectDirsUnavailable,
        },
{
    config_entry(BIN_DIR_NAME)
}

/// The directory of the log files, `logs` inside the settings directory.
pub fn logs_dir() -> (r: Result<PathBuf, ConfigError>)
    ensures
        match r {
            Ok(p) => is_entry_of_some_dir(p, LOGS_DIR_NAME@),
            Err(e) => e is ProjectDirsUnavailable,
        },
{
    config_entry(LOGS_DIR_NAME)
}

} // verus!
