//! Comments on an artwork.

use vstd::prelude::*;

verus! {

pub struct PixivComments {
    pub comments: Vec<PixivComment>,
    pub has_next: bool,
}

pub struct PixivComment {
    pub user_id: u64,
    pub user_name: String,
    pub img: String,
    pub id: u64,
    pub comment: String,
    pub stamp_id: Option<String>,
    pub comment_date: String,
    pub has_replies: Option<bool>,
}

} // verus!
