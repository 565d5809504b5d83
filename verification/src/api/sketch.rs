//! Posts, users and live streams of the sketch service.

use vstd::prelude::*;

verus! {

pub struct SketchImage {
    pub width: u32,
    pub height: u32,
    pub url: String,
}

pub struct SketchShortMedia {
    pub url: String,
}

pub struct SketchPhotos {
    pub original: SketchImage,
    pub pxw540: SketchImage,
    pub pxsq60: SketchImage,
}

pub struct SketchMedia {
    pub photo: SketchPhotos,
}

pub struct SketchTextFragment {
    pub t: String,
    pub body: String,
    pub normalized_body: String,
}

pub struct SketchUserAccount {
    pub unique_name: String,
}

pub struct SketchUserAccounts {
    pub twitter: Option<SketchUserAccount>,
    pub pixiv: Option<SketchUserAccount>,
}

pub struct SketchUserStats {
    pub follower_count: u32,
    pub following_count: u32,
    pub heart_count: u32,
    pub resnap_count: u32,
    pub public_post_count: u32,
}

pub struct SketchUser {
    pub id: u64,
    pub pixiv_user_id: u64,
    pub name: String,
    pub description_fragments: Option<Vec<SketchTextFragment>>,
    pub icon: SketchMedia,
    pub social_accounts: Option<SketchUserAccounts>,
    pub stats: Option<SketchUserStats>,
}

pub struct SketchUserPosts {
    pub key: u64,
    pub user: SketchUser,
    pub posts: Vec<SketchItem>,
}

/// A post. `created_at` is the time of posting as the service wrote it.
pub struct SketchItem {
    pub id: u64,
    pub comment_count: u32,
    pub user: SketchUser,
    pub is_r18: bool,
    pub media: Vec<SketchMedia>,
    pub tags: Vec<String>,
    pub text_fragments: Vec<SketchTextFragment>,
    pub created_at: String,
}

pub struct SketchImpressions {
    pub feedbacks: Vec<SketchImpression>,
    pub item: SketchItem,
}

pub struct SketchImpression {
    pub id: u64,
    pub t: String,
    pub user: SketchUser,
    pub created_at: String,
}

pub struct SketchLives {
    pub lives: Vec<SketchLive>,
}

pub struct SketchLive {
    pub id: u64,
    pub created_at: String,
    pub finished_at: Option<String>,
    pub user: SketchUser,
    pub name: String,
    pub description_fragments: Vec<SketchTextFragment>,
    pub is_r18: bool,
    pub is_broadcasting: bool,
    pub audience_count: u32,
    pub total_audience_count: u32,
    pub heart_count: u32,
    pub chat_count: u32,
}

pub struct SketchWall {
    pub items: Vec<SketchItem>,
}

pub struct SketchLiveOwner {
    pub hls_movie: SketchShortMedia,
}

pub struct SketchApiResponse<T> {
    pub data: T,
}

} // verus!
