//! Animated illustrations: from a streamed archive of still frames to timed,
//! decoded frames for a video encoder, and the byte sink for its output.

pub mod archive;
pub mod bridge;
pub mod bytes;
pub mod decode;
pub mod error;
pub mod sink;
pub mod timeline;
