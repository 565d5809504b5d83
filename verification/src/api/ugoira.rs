//! Metadata of an animated illustration.

use vstd::prelude::*;

verus! {

/// Where an animated illustration's archives lie, the codec of its frames
/// and how long each frame is shown.
pub struct UgoiraMeta {
    pub src: String,
    pub original_src: String,
    pub mime_type: String,
    pub frames: Vec<UgoiraFrame>,
}

/// One frame of the metadata: its display time in milliseconds.
#[derive(Clone, Copy, Debug, PartialEq, Eq, Structural)]
pub struct UgoiraFrame {
    pub delay: u16,
}

} // verus!
