//! Helpers on characters, texts and file paths.

pub mod file_utils;
pub mod text;
