//! Rendering of structured intents as ffmpeg command lines.

pub mod builder;

pub use builder::{BuildError, CommandBuilder};
