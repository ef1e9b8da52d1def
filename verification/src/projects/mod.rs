//! Projects on disk: where their files lie, and what their metadata holds.

pub mod commands;
pub mod filesystem;
pub mod paths;
pub mod scenes;
pub mod storyboard;
pub mod types;
