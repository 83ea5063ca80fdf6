//! A typing-practice engine: word-wrapped layout with index tracking, cursor
//! location, scrolling, per-character diff and session statistics.

pub mod types;
pub mod text;
pub mod wrap;
pub mod layout;
pub mod cursor;
pub mod scroll;
pub mod render;
pub mod words;
pub mod input;
pub mod stats;
pub mod clock;
pub mod app;
pub mod status;
pub mod frame;
pub mod source;
pub mod cli;
