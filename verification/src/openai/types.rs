//! The requests the remote generation service takes.

use vstd::prelude::*;

verus! {

/// A request for a generated video.
#[derive(Debug)]
pub struct VideoRequest {
    pub model: String,
    pub prompt: String,
    pub size: Option<String>,
    pub seconds: Option<String>,
}

/// One message of a conversation: who speaks, and what.
#[derive(Clone)]
pub struct Input {
    pub role: Option<String>,
    pub content: Vec<ContentPart>,
}

/// One part of a message.
#[derive(Clone)]
pub enum ContentPart {
    InputText { text: String },
    InputImage { image_url: String },
}

} // verus!
