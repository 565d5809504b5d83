//! The rules of the routes: what a request asks for and what is answered,
//! in plain values.

pub mod artworks;
pub mod imageproxy;
pub mod rss;
pub mod settings;
pub mod users;
