//! A user's works, page by page, newest first.

use vstd::prelude::*;

verus! {

/// How many works one page shows.
pub const PAGE_SIZE: usize = 60;

/// The offset of the first work of `page`, pages counted from 1.
pub open spec fn page_offset(page: u32) -> int {
    (page - 1) * PAGE_SIZE as int
}

/// The offset of the first work of `page`; none for page 0, which there is
/// not, and none where the offset does not fit a `u32`.
pub fn bookmark_offset(page: u32) -> (r: Option<u32>)
    ensures
        match r {
            Some(offset) => page >= 1 && offset == page_offset(page),
            None => page == 0 || page_offset(page) > u32::MAX,
        },
{
    if page == 0 {
        return None;
    }
    let offset: u64 = (page as u64 - 1) * 60;
    if offset > u32::MAX as u64 {
        None
    } else {
        Some(offset as u32)
    }
}

/// The part of a list of `count` works that `page` shows, as the index of
/// its first work and the index behind its last: sixty works, or as many
/// as are left. None for page 0 and for a page behind the end of the
/// list.
pub fn page_bounds(page: u32, count: usize) -> (r: Option<(usize, usize)>)
    ensures
        match r {
            Some((start, end)) => {
                &&& page >= 1
                &&& start == page_offset(page)
                &&& start <= end <= count
                &&& end == if start + PAGE_SIZE <= count {
                    start + PAGE_SIZE
                } else {
                    count as int
                }
            },
            None => page == 0 || page_offset(page) > count,
        },
{
    if page == 0 {
        return None;
    }
    let offset: u64 = (page as u64 - 1) * 60;
    if offset > count as u64 {
        return None;
    }
    let start: usize = offset as usize;
    let end: usize = if count - start >= PAGE_SIZE { start + PAGE_SIZE } else { count };
    Some((start, end))
}

} // verus!
