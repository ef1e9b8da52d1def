//! What is sent to the remote generation service.

pub mod client;
pub mod types;
