use vstd::prelude::*;

pub mod lifecycle;
pub mod text;
pub mod segments;
pub mod audio;
pub mod incremental;
pub mod cleanup;
pub mod paste;
pub mod config;
pub mod transcript;
pub mod stt;
pub mod cli;
pub mod cleanup_cli;
pub mod history;
pub mod cancel;
pub mod platform;
pub mod recorder;
pub mod paths;
pub mod desktop;
pub mod file_job;
pub mod settings;
pub mod sounds;
pub mod media;
pub mod doctor;
