//! Weekly class schedule matching and session-note path derivation.

pub mod class;
mod clock;
pub mod config;
pub mod decimal;
pub mod location;
pub mod note;
pub mod obsidian;
pub mod parse_time;
pub mod prompt;
pub mod schedule;
pub mod text;
pub mod time;
