//! What the pages show, as far as it is decided before any markup is
//! written.

pub mod alt;
pub mod comment;
pub mod grid;
pub mod markup;
pub mod nav;
pub mod search;
