//! Featherpull: the download queue, progress parsing, release selection and
//! settings logic behind a yt-dlp / ffmpeg front end.

pub mod binary_manager;
pub mod clock;
pub mod config;
pub mod control;
pub mod download_form;
pub mod errors;
pub mod ffmpeg;
pub mod flat_json;
pub mod job;
pub mod json;
pub mod laws;
pub mod logs;
pub mod numbers;
pub mod paths;
pub mod queue;
pub mod queue_laws;
pub mod runner;
pub mod text;
pub mod views;
pub mod ytdlp;
