//! Execution of ffmpeg commands.

pub mod runner;
