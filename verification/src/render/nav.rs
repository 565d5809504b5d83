//! The page numbers that the navigation below a list offers.

use vstd::prelude::*;

verus! {

/// What the navigation shows: a link to the first page, the pages from
/// `start` to `end`, and a link to the last page.
#[derive(Clone, Copy, Debug, PartialEq, Eq, Structural)]
pub struct NavPages {
    pub first: u32,
    pub start: u32,
    pub end: u64,
    pub last: usize,
}

/// Whether a list of `count` items, `limit` to a page, gets a navigation:
/// it does where one page does not hold it.
pub open spec fn needs_nav(count: usize, limit: usize) -> bool {
    count > limit
}

/// The first page that the navigation lists: three before the current
/// one, but no page before the first.
pub open spec fn nav_start(current_page: u32) -> int {
    if current_page > 4 {
        current_page - 3
    } else {
        1
    }
}

/// The last page that the navigation lists: seven behind the first one it
/// lists, but none behind the page after the last full one.
pub open spec fn nav_end(current_page: u32, count: usize, limit: usize) -> int
    recommends
        limit > 0,
{
    let max = count as int / limit as int + 1;
    if nav_start(current_page) + 7 < max {
        nav_start(current_page) + 7
    } else {
        max
    }
}

/// The navigation for page `current_page` of `count` items, `limit` to a
/// page; none where one page holds them all.
pub fn nav_pages(current_page: u32, count: usize, limit: usize) -> (r: Option<NavPages>)
    requires
        limit > 0,
    ensures
        match r {
            Some(nav) => {
                &&& needs_nav(count, limit)
                &&& nav.first == 1
                &&& nav.start == nav_start(current_page)
                &&& nav.end == nav_end(current_page, count, limit)
                &&& nav.last == count as int / limit as int
            },
            None => !needs_nav(count, limit),
        },
{
    if count <= limit {
        return None;
    }
    let full: usize = count / limit;
    let start: u32 = if current_page > 4 { current_page - 3 } else { 1 };
    let reach: u64 = start as u64 + 7;
    let end: u64 = if reach <= full as u64 { reach } else { full as u64 + 1 };
    Some(NavPages { first: 1, start, end, last: full })
}

} // verus!
