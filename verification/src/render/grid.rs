//! The grid of works: which works of a list are shown, and what each
//! tile shows.

use vstd::prelude::*;
use crate::api::common::PixivSearchResult;
use crate::routes::artworks::{artwork_link, artwork_path, ILLUST_TYPE_UGOIRA};
use crate::routes::settings::BlockedUsers;

verus! {

/// What a tile of the grid shows besides image and title.
pub struct GridTile {
    /// Where the tile leads; nowhere for a masked work.
    pub link: Option<String>,
    /// Whether the work is marked as for adults.
    pub warn: bool,
    /// The number of pages, shown for a work of more than one.
    pub pages: Option<u32>,
    /// Whether the work is animated.
    pub plays: bool,
}

/// Decides what the tile of a work shows.
pub fn grid_tile(work: &PixivSearchResult) -> (tile: GridTile)
    ensures
        match tile.link {
            Some(link) => !work.is_masked && link@ == artwork_path(work.id),
            None => work.is_masked,
        },
        tile.warn == (work.r18 == 1),
        tile.pages == if work.page_count > 1 {
            Some(work.page_count)
        } else {
            None
        },
        tile.plays == (work.illust_type == ILLUST_TYPE_UGOIRA),
{
    GridTile {
        link: if work.is_masked {
            None
        } else {
            Some(artwork_link(work.id))
        },
        warn: work.r18 == 1,
        pages: if work.page_count > 1 {
            Some(work.page_count)
        } else {
            None
        },
        plays: work.illust_type == ILLUST_TYPE_UGOIRA,
    }
}

/// The indices of the works of a list that are shown, in the order of
/// the list: those, and only those, whose author is not blocked.
pub fn visible_works(list: &[PixivSearchResult], blocked: &BlockedUsers) -> (indices: Vec<usize>)
    ensures
        forall|k: int|
            0 <= k < indices@.len() ==> (#[trigger] indices@[k]) < list@.len()
                && !blocked@.contains(list@[indices@[k] as int].user_id),
        forall|j: int, k: int| 0 <= j < k < indices@.len() ==> indices@[j] < indices@[k],
        forall|i: int|
            0 <= i < list@.len() && !blocked@.contains((#[trigger] list@[i]).user_id)
                ==> indices@.contains(i as usize),
{
    let n: usize = list.len();
    let mut indices: Vec<usize> = Vec::new();
    let mut i: usize = 0;
    while i < n
        invariant
            0 <= i <= n,
            n == list@.len(),
            forall|k: int|
                0 <= k < indices@.len() ==> (#[trigger] indices@[k]) < i && !blocked@.contains(
                    list@[indices@[k] as int].user_id,
                ),
            forall|j: int, k: int| 0 <= j < k < indices@.len() ==> indices@[j] < indices@[k],
            forall|m: int|
                0 <= m < i && !blocked@.contains((#[trigger] list@[m]).user_id)
                    ==> indices@.contains(m as usize),
        decreases n - i,
    {
        if !blocked.contains(list[i].user_id) {
            let ghost before = indices@;
            indices.push(i);
            assert forall|m: int|
                0 <= m < i + 1 && !blocked@.contains(
                    (#[trigger] list@[m]).user_id,
                ) implies indices@.contains(m as usize) by {
                if m < i {
                    let k = choose|k: int| 0 <= k < before.len() && before[k] == m as usize;
                    assert(indices@[k] == m as usize);
                } else {
                    assert(indices@[before.len() as int] == i);
                }
            }
        }
        i += 1;
    }
    indices
}

} // verus!
