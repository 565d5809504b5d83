//! One artwork as the service describes it.

use vstd::prelude::*;
use crate::api::tags::Tags;

verus! {

pub struct PixivUrls {
    pub original: String,
}

pub struct Artwork {
    pub illust_type: u8,
    pub illust_title: String,
    pub page_count: u32,
    pub like_count: u32,
    pub bookmark_count: u32,
    pub view_count: u32,
    pub user_name: String,
    pub user_id: u64,
    pub description: String,
    pub create_date: String,
    pub width: u32,
    pub height: u32,
    pub alt: String,
    pub urls: PixivUrls,
    pub tags: Tags,
    pub comment_count: u32,
}

} // verus!
