//! Verified core of a Pixiv front end: the transcoding pipeline that turns an
//! animated illustration (still frames in a streamed archive, each with its
//! own display time) into the input of a video encoder, and the plain rules
//! of the pages around it.

pub mod api;
pub mod render;
pub mod routes;
pub mod text;
pub mod ugoira;
pub mod util;
