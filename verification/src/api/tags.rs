//! Tags of an artwork.

use vstd::prelude::*;

verus! {

pub struct Tags {
    pub tags: Vec<Tag>,
}

pub struct Tag {
    pub tag: String,
    pub translation: Option<Translation>,
}

pub struct Translation {
    pub en: Option<String>,
}

} // verus!
