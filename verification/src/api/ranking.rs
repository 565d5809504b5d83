//! The daily ranking.

use vstd::prelude::*;

verus! {

pub struct Ranking {
    pub contents: Vec<RankingItem>,
    pub date: String,
    pub prev_date: Option<String>,
    pub next_date: Option<String>,
    pub rank_total: usize,
}

pub struct RankingItem {
    pub title: String,
    pub url: String,
    pub illust_id: u32,
    pub width: u32,
    pub height: u32,
    pub illust_page_count: String,
    pub illust_upload_timestamp: u64,
}

} // verus!
