//! The logic of a desktop video-creation tool, verified.
//!
//! At its heart is the media-composition engine: given an ordered list of
//! trimmed clips with optional cross-fades, it derives the timeline
//! arithmetic, the filter graph and the argument lists handed to the media
//! tool, and it lays out the trimming and joining as jobs whose steps a host
//! performs. Around it stand the rules of the projects the tool keeps on
//! disk, of their storyboards, and of the requests it sends to the
//! generation service.
//!
//! The library starts no process and touches no file or network. Times are
//! whole microseconds, paths are text with `/` between the components, and
//! every text that the library writes is specified character by character.

pub mod image;
pub mod json;
pub mod openai;
pub mod projects;
pub mod sorting;
pub mod text;
pub mod video_editor;
