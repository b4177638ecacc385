//! Translation of short, fixed-grammar English phrases such as
//! `convert video.mp4 to video.avi` into ffmpeg command lines.
//!
//! A phrase is split into tokens, the tokens are parsed into an [`Intent`],
//! and the intent is rendered as a command line.

pub mod command_builder;
pub mod executor;
pub mod grammar;
pub mod intent;
pub mod session;
pub mod utils;

pub use command_builder::CommandBuilder;
pub use executor::runner::Runner;
pub use grammar::{Parser, Tokenizer};
pub use intent::types::{Intent, OperationType};
pub use utils::file_utils;
