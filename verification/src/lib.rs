//! Planning core of a media-library mirroring tool.
//!
//! A run walks a source tree and mirrors it under an output root: audio files
//! are converted to one target codec, images and audio already in that codec
//! are copied, and anything else is reported and left out. This crate holds the
//! decisions of such a run and the bounded channel between the discoverer and
//! its workers; it touches neither the file system nor the process table.

pub mod channel;
pub mod command;
pub mod config;
pub mod discover;
pub mod encoding;
pub mod mirror;
pub mod names;
pub mod paths;
pub mod pipeline;
pub mod resolver;
pub mod worker;
