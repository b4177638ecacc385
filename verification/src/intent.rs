//! The structured description of what the user asked for.

pub mod types;
