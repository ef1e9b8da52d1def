//! The video editor: clips on a timeline, and what is built from them.

pub mod concat;
pub mod ffmpeg;
pub mod filters;
pub mod imports;
pub mod job;
pub mod probe;
pub mod sprite;
pub mod thumbnails;
pub mod timeline;
pub mod types;
pub mod waveform;
