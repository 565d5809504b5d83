//! What the content service answers, as plain data, and the rules for
//! asking it.

pub mod artwork;
pub mod comments;
pub mod common;
pub mod de;
pub mod error;
pub mod ranking;
pub mod sample;
pub mod search;
pub mod sketch;
pub mod tags;
pub mod ugoira;
pub mod url;
pub mod user;
