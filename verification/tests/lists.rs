use pixiv_proxy::api::common::PixivSearchResult;
use pixiv_proxy::api::search::{SearchMode, SearchOrder, SearchRating, SearchRequest};
use pixiv_proxy::api::user::{merge_illust_ids, order_works, PixivIllustrations};
use pixiv_proxy::render::nav::{nav_pages, NavPages};
use pixiv_proxy::routes::users::{bookmark_offset, page_bounds, PAGE_SIZE};

fn work(id: u64) -> PixivSearchResult {
    PixivSearchResult {
        id,
        title: format!("work {}", id),
        user_id: 1,
        user_name: String::new(),
        description: String::new(),
        update_date: String::new(),
        create_date: String::new(),
        r18: 0,
        page_count: 1,
        illust_type: 0,
        url: String::new(),
        width: 1,
        height: 1,
        is_masked: false,
    }
}

#[test]
fn ids_newest_first() {
    let ids = PixivIllustrations { illusts: vec![5, 90, 17], manga: vec![30, 2] };
    assert_eq!(merge_illust_ids(ids), vec![90, 30, 17, 5, 2]);
    let twice = PixivIllustrations { illusts: vec![1, 2], manga: vec![2, 3] };
    assert_eq!(merge_illust_ids(twice), vec![3, 2, 2, 1]);
    let none = PixivIllustrations { illusts: vec![], manga: vec![] };
    assert_eq!(merge_illust_ids(none), Vec::<u64>::new());
}

#[test]
fn works_newest_first() {
    let ordered = order_works(vec![(5, work(5)), (90, work(90)), (17, work(17)), (30, work(30))]);
    let ids: Vec<u64> = ordered.iter().map(|w| w.id).collect();
    assert_eq!(ids, vec![90, 30, 17, 5]);
    assert_eq!(ordered[0].title, "work 90");
    let filed = order_works(vec![(1, work(50)), (3, work(40)), (2, work(60))]);
    let ids: Vec<u64> = filed.iter().map(|w| w.id).collect();
    assert_eq!(ids, vec![40, 60, 50]);
    assert!(order_works(vec![]).is_empty());
}

#[test]
fn one_page_needs_no_navigation() {
    assert_eq!(nav_pages(1, 0, 60), None);
    assert_eq!(nav_pages(1, 60, 60), None);
    assert_eq!(nav_pages(9, 10, 50), None);
}

#[test]
fn navigation_around_the_current_page() {
    assert_eq!(nav_pages(1, 61, 60), Some(NavPages { first: 1, start: 1, end: 2, last: 1 }));
    assert_eq!(nav_pages(1, 6000, 60), Some(NavPages { first: 1, start: 1, end: 8, last: 100 }));
    assert_eq!(nav_pages(4, 6000, 60), Some(NavPages { first: 1, start: 1, end: 8, last: 100 }));
    assert_eq!(nav_pages(5, 6000, 60), Some(NavPages { first: 1, start: 2, end: 9, last: 100 }));
    assert_eq!(nav_pages(50, 6000, 60), Some(NavPages { first: 1, start: 47, end: 54, last: 100 }));
    assert_eq!(nav_pages(99, 6000, 60), Some(NavPages { first: 1, start: 96, end: 101, last: 100 }));
    assert_eq!(
        nav_pages(u32::MAX, 500, 50),
        Some(NavPages { first: 1, start: u32::MAX - 3, end: 11, last: 10 })
    );
    assert_eq!(
        nav_pages(1, usize::MAX, 1),
        Some(NavPages { first: 1, start: 1, end: 8, last: usize::MAX })
    );
}

#[test]
fn pages_of_sixty() {
    assert_eq!(PAGE_SIZE, 60);
    assert_eq!(page_bounds(1, 0), Some((0, 0)));
    assert_eq!(page_bounds(1, 59), Some((0, 59)));
    assert_eq!(page_bounds(1, 60), Some((0, 60)));
    assert_eq!(page_bounds(1, 61), Some((0, 60)));
    assert_eq!(page_bounds(2, 61), Some((60, 61)));
    assert_eq!(page_bounds(2, 60), Some((60, 60)));
    assert_eq!(page_bounds(3, 500), Some((120, 180)));
}

#[test]
fn pages_that_are_not_there() {
    assert_eq!(page_bounds(0, 100), None);
    assert_eq!(page_bounds(3, 119), None);
    assert_eq!(page_bounds(u32::MAX, 100), None);
    assert_eq!(bookmark_offset(0), None);
    assert_eq!(bookmark_offset(1), Some(0));
    assert_eq!(bookmark_offset(3), Some(120));
    assert_eq!(bookmark_offset(71582789), Some(4294967280));
    assert_eq!(bookmark_offset(71582790), None);
}

#[test]
fn search_of_a_request() {
    let all = SearchRequest::from_params(Some("3"), Some("popular_d"), Some("safe"), Some("s_tc"));
    assert_eq!(all.page, 3);
    assert_eq!(all.order, SearchOrder::Popular);
    assert_eq!(all.rating, SearchRating::Safe);
    assert_eq!(all.mode, SearchMode::TitleCaption);
    let none = SearchRequest::from_params(None, None, None, None);
    assert_eq!(none.page, 1);
    assert_eq!(none.order, SearchOrder::DateDescending);
    assert_eq!(none.rating, SearchRating::All);
    assert_eq!(none.mode, SearchMode::TagsPerfect);
    let odd = SearchRequest::from_params(Some("x"), Some("newest"), Some("s_tag"), Some("safe"));
    assert_eq!(odd.page, 1);
    assert_eq!(odd.order, SearchOrder::DateDescending);
    assert_eq!(odd.rating, SearchRating::All);
    assert_eq!(odd.mode, SearchMode::TagsPerfect);
}

#[test]
fn works_of_blocked_users_are_hidden() {
    let mut list = vec![work(1), work(2), work(3), work(4)];
    list[0].user_id = 10;
    list[1].user_id = 20;
    list[2].user_id = 10;
    list[3].user_id = 30;
    let mut blocked = pixiv_proxy::routes::settings::BlockedUsers::new();
    assert_eq!(pixiv_proxy::render::grid::visible_works(&list, &blocked), vec![0, 1, 2, 3]);
    blocked.insert(10);
    assert_eq!(pixiv_proxy::render::grid::visible_works(&list, &blocked), vec![1, 3]);
    blocked.insert(30);
    blocked.insert(20);
    assert!(pixiv_proxy::render::grid::visible_works(&list, &blocked).is_empty());
    assert!(pixiv_proxy::render::grid::visible_works(&[], &blocked).is_empty());
}

#[test]
fn tile_of_a_work() {
    let mut w = work(77);
    let tile = pixiv_proxy::render::grid::grid_tile(&w);
    assert_eq!(tile.link.as_deref(), Some("/artworks/77"));
    assert!(!tile.warn && !tile.plays);
    assert_eq!(tile.pages, None);
    w.is_masked = true;
    w.r18 = 1;
    w.page_count = 4;
    w.illust_type = 2;
    let tile = pixiv_proxy::render::grid::grid_tile(&w);
    assert_eq!(tile.link, None);
    assert!(tile.warn && tile.plays);
    assert_eq!(tile.pages, Some(4));
    w.r18 = 2;
    assert!(!pixiv_proxy::render::grid::grid_tile(&w).warn);
}
