use pixiv_proxy::api::de::strip_url_prefix;
use pixiv_proxy::api::error::ApiError;
use pixiv_proxy::api::search::{SearchMode, SearchOrder, SearchRating, SearchRequest};
use pixiv_proxy::api::url::{
    artwork_url, comments_url, fanbox_url, latest_posts_form, public_wall_url, ranking_url,
    replies_url, search_url, sketch_feedbacks_url, sketch_item_url, sketch_lives_url,
    sketch_user_url, tag_wall_url, ugoira_meta_url, user_bookmarks_url, user_ids_url,
    user_profile_url, user_works_url,
};
use pixiv_proxy::render::alt::{render_alt, render_alt_author, render_alt_search};
use pixiv_proxy::routes::artworks::{
    artwork_link, master_image_urls, page_urls, ugoira_link, user_link, work_image_urls,
};
use pixiv_proxy::routes::imageproxy::{
    content_length, imageproxy, is_forbidden_client_header, is_forbidden_server_header,
    s_imageproxy, spix_imageproxy, spxi_imageproxy, stamp,
};
use pixiv_proxy::routes::rss::{
    feed_ids, feed_item, feed_request, feed_xml, rss_item_link, rss_self_url, FeedKind, RssConfig,
};

#[test]
fn image_urls_become_local_paths() {
    assert_eq!(
        strip_url_prefix("https://i.pximg.net/img-original/img/2022/01/02/03/04/05/1_p0.png"),
        Ok("/imageproxy/img-original/img/2022/01/02/03/04/05/1_p0.png".to_string())
    );
    assert_eq!(strip_url_prefix("https://s.pximg.net/common/a.png"), Ok("/simg/common/a.png".to_string()));
    assert_eq!(strip_url_prefix("https://img-sketch.pixiv.net/x"), Ok("/spix/x".to_string()));
    assert_eq!(strip_url_prefix("https://img-sketch.pximg.net/x.net"), Ok("/spxi/x.net".to_string()));
    assert_eq!(strip_url_prefix("https://i.pximg.net"), Ok("/imageproxy".to_string()));
}

#[test]
fn urls_of_other_hosts_are_refused() {
    assert_eq!(strip_url_prefix("https://example.net/a.png"), Err("https://example".to_string()));
    assert_eq!(strip_url_prefix("http://i.pximg.net/a.png"), Err("http://i.pximg".to_string()));
    assert_eq!(strip_url_prefix("https://i.pximg.com/a.png"), Err(String::new()));
    assert_eq!(strip_url_prefix(""), Err(String::new()));
}

#[test]
fn local_paths_lead_back_to_the_hosts() {
    assert_eq!(imageproxy("/imageproxy/img/1.png"), Some("https://i.pximg.net/img/1.png".to_string()));
    assert_eq!(s_imageproxy("/simg/common/a.png"), Some("https://s.pximg.net/common/a.png".to_string()));
    assert_eq!(spix_imageproxy("/spix/x"), Some("https://img-sketch.pixiv.net/x".to_string()));
    assert_eq!(spxi_imageproxy("/spxi/"), Some("https://img-sketch.pximg.net/".to_string()));
    assert_eq!(imageproxy("/simg/a"), None);
    assert_eq!(imageproxy("/imageproxy"), None);
    assert_eq!(s_imageproxy("simg/a"), None);
    for url in ["https://i.pximg.net/a/b.jpg", "https://s.pximg.net/", "https://img-sketch.pixiv.net/x.net/y",
        "https://img-sketch.pximg.net/z"] {
        let path = strip_url_prefix(url).unwrap();
        let back = imageproxy(&path)
            .or_else(|| s_imageproxy(&path))
            .or_else(|| spix_imageproxy(&path))
            .or_else(|| spxi_imageproxy(&path));
        assert_eq!(back.as_deref(), Some(url));
    }
}

#[test]
fn stamp_address() {
    assert_eq!(stamp(301), "https://s.pximg.net/common/images/stamp/generated-stamps/301_s.jpg?20180605");
}

#[test]
fn headers_kept_back() {
    for name in ["connection", "Cookie", "USER-AGENT", "Host", "referer"] {
        assert!(is_forbidden_server_header(name), "{}", name);
    }
    for name in ["accept", "cookies", "set-cookie", "range", ""] {
        assert!(!is_forbidden_server_header(name), "{}", name);
    }
    for name in ["connection", "cookies", "set-cookie"] {
        assert!(is_forbidden_client_header(name), "{}", name);
    }
    for name in ["Connection", "cookie", "content-type", ""] {
        assert!(!is_forbidden_client_header(name), "{}", name);
    }
}

#[test]
fn declared_length() {
    assert_eq!(content_length("1024"), Some(1024));
    assert_eq!(content_length("0"), Some(0));
    assert_eq!(content_length("1024 "), None);
    assert_eq!(content_length("-1"), None);
    assert_eq!(content_length("99999999999999999999999"), None);
}

#[test]
fn service_addresses() {
    assert_eq!(artwork_url(97276742), "https://www.pixiv.net/ajax/illust/97276742");
    assert_eq!(ugoira_meta_url(44), "https://www.pixiv.net/ajax/illust/44/ugoira_meta?lang=en");
    assert_eq!(
        comments_url(97276742, 0, 3),
        "https://www.pixiv.net/ajax/illusts/comments/roots?illust_id=97276742&offset=0&limit=3&lang=en"
    );
    assert_eq!(
        replies_url(137840290, 1),
        "https://www.pixiv.net/ajax/illusts/comments/replies?comment_id=137840290&page=1&lang=en"
    );
    assert_eq!(ranking_url(None, 2), "https://www.pixiv.net/ranking.php?mode=daily&p=2&format=json");
    assert_eq!(
        ranking_url(Some("20220101"), 1),
        "https://www.pixiv.net/ranking.php?mode=daily&p=1&format=json&date=20220101"
    );
    assert_eq!(user_ids_url(3384404), "https://www.pixiv.net/ajax/user/3384404/profile/all?lang=en");
    assert_eq!(user_profile_url(38588185), "https://www.pixiv.net/ajax/user/38588185?full=1&lang=en");
    assert_eq!(
        user_bookmarks_url(42433315, "", 0, 48),
        "https://www.pixiv.net/ajax/user/42433315/illusts/bookmarks?tag=&offset=0&limit=48&rest=show&lang=en"
    );
    assert_eq!(fanbox_url(5), "https://www.pixiv.net/fanbox/creator/5");
}

#[test]
fn search_address_is_encoded() {
    let query = SearchRequest {
        page: 3,
        order: SearchOrder::DateDescending,
        rating: SearchRating::Adult,
        mode: SearchMode::TagsPartial,
    };
    assert_eq!(
        search_url("a b/c", &query),
        "https://www.pixiv.net/ajax/search/artworks/a%20b%2Fc?word=a%20b%2Fc&order=date_d&mode=r18&p=3&s_mode=s_tag&type=all&lang=en"
    );
    assert_eq!(
        search_url("狐", &query),
        "https://www.pixiv.net/ajax/search/artworks/%E7%8B%90?word=%E7%8B%90&order=date_d&mode=r18&p=3&s_mode=s_tag&type=all&lang=en"
    );
}

#[test]
fn works_address_lists_the_ids() {
    assert_eq!(user_works_url(3384404, &[]), None);
    assert_eq!(
        user_works_url(3384404, &[84485304]).unwrap(),
        "https://www.pixiv.net/ajax/user/3384404/profile/illusts?ids[]=84485304&work_category=illust&is_first_page=0&lang=en"
    );
    assert_eq!(
        user_works_url(3384404, &[84485304, 84473597]).unwrap(),
        "https://www.pixiv.net/ajax/user/3384404/profile/illusts?ids[]=84485304&ids[]=84473597&work_category=illust&is_first_page=0&lang=en"
    );
}

#[test]
fn sketch_addresses() {
    assert_eq!(sketch_item_url(3455710150565207900), "https://sketch.pixiv.net/api/items/3455710150565207900");
    assert_eq!(sketch_feedbacks_url(1), "https://sketch.pixiv.net/api/feedbacks/1");
    assert_eq!(sketch_user_url(51062509), "https://sketch.pixiv.net/api/users/51062509");
    assert_eq!(
        sketch_lives_url(20, "audience_count"),
        "https://sketch.pixiv.net/api/lives.json?count=20&order_by=audience_count"
    );
    assert_eq!(public_wall_url(None, None), "https://sketch.pixiv.net/api/walls/public.json");
    assert_eq!(public_wall_url(Some(5), None), "https://sketch.pixiv.net/api/walls/public.json?since_id=5");
    assert_eq!(public_wall_url(None, Some(6)), "https://sketch.pixiv.net/api/walls/public.json?max_id=6");
    assert_eq!(public_wall_url(Some(5), Some(6)), "https://sketch.pixiv.net/api/walls/public.json");
    assert_eq!(
        tag_wall_url("ポケモン"),
        "https://sketch.pixiv.net/api/walls/tags/%E3%83%9D%E3%82%B1%E3%83%A2%E3%83%B3.json"
    );
}

#[test]
fn latest_posts_form_counts_to_six() {
    assert_eq!(latest_posts_form(&[], 6).unwrap(), "count=6");
    assert_eq!(latest_posts_form(&[1, 22], 3).unwrap(), "count=3&users%5B%5D=1&users%5B%5D=22");
    assert!(matches!(
        latest_posts_form(&[1], 7),
        Err(ApiError::External(400, m)) if m == "count is too big"
    ));
}

#[test]
fn pages_of_an_artwork() {
    assert_eq!(page_urls("/imageproxy/1_p0.png", 1), vec!["/imageproxy/1_p0.png"]);
    assert_eq!(page_urls("/imageproxy/1_p0.png", 0), vec!["/imageproxy/1_p0.png"]);
    assert_eq!(
        page_urls("/imageproxy/1_p0.png", 3),
        vec!["/imageproxy/1_p0.png", "/imageproxy/1_p1.png", "/imageproxy/1_p2.png"]
    );
    assert_eq!(page_urls("/x_p0._p0.png", 2)[1], "/x_p1._p1.png");
    assert_eq!(page_urls("/no/page.png", 2)[1], "/no/page.png");
    assert_eq!(page_urls("/a_p0.png", 12)[11], "/a_p11.png");
}

#[test]
fn links_on_this_server() {
    assert_eq!(artwork_link(5), "/artworks/5");
    assert_eq!(user_link(6), "/users/6");
    assert_eq!(ugoira_link(7), "/ugoira/7");
}

#[test]
fn large_images_of_a_work() {
    assert_eq!(
        master_image_urls("http://h", "2022/01/02/03/04/05", 9, 0, 2),
        vec![
            "http://h/imageproxy/img-master/img/2022/01/02/03/04/05/9_p0_master1200.jpg",
            "http://h/imageproxy/img-master/img/2022/01/02/03/04/05/9_p1_master1200.jpg",
        ]
    );
    assert_eq!(
        master_image_urls("", "2022/01/02/03/04/05", 9, 2, 5),
        vec!["/imageproxy/img-master/img/2022/01/02/03/04/05/9_master1200.jpg"]
    );
    assert!(master_image_urls("", "d", 9, 1, 0).is_empty());
}

#[test]
fn links_to_other_views() {
    assert_eq!(
        render_alt("?qtype=author&q=5", 2),
        ("/scroll?qtype=author&q=5&p=2".to_string(), "/rss?qtype=author&q=5".to_string())
    );
    assert_eq!(render_alt_author(5, 2), render_alt("?qtype=author&q=5", 2));
    let query = SearchRequest {
        page: 4,
        order: SearchOrder::Popular,
        rating: SearchRating::Safe,
        mode: SearchMode::TitleCaption,
    };
    assert_eq!(
        render_alt_search("fox", &query),
        (
            "/scroll?qtype=searchq=fox&mode=safe&order=popular_d&s_mode=s_tc&p=4".to_string(),
            "/rss?qtype=searchq=fox&mode=safe&order=popular_d&s_mode=s_tc".to_string()
        )
    );
}

#[test]
fn feed_addresses() {
    let config = RssConfig { host: "http://localhost:8000".to_string() };
    assert_eq!(rss_item_link(&config, 12), "http://localhost:8000/artworks/12");
    assert_eq!(FeedKind::from_qtype("author"), FeedKind::Author);
    assert_eq!(FeedKind::from_qtype("search"), FeedKind::Search);
    assert_eq!(FeedKind::from_qtype(""), FeedKind::Search);
    assert_eq!(
        rss_self_url(&config, FeedKind::Author, "5", SearchRating::All, SearchMode::TagsPerfect),
        "http://localhost:8000/rss?type=author&q=5"
    );
    assert_eq!(
        rss_self_url(&config, FeedKind::Search, "fox", SearchRating::Safe, SearchMode::TagsPartial),
        "http://localhost:8000/rss?type=search&q=fox&mode=safe&s_mode=s_tag"
    );
}

fn feed_work(id: u64, title: &str, create_date: &str) -> pixiv_proxy::api::common::PixivSearchResult {
    pixiv_proxy::api::common::PixivSearchResult {
        id,
        title: title.to_string(),
        user_id: 1,
        user_name: String::new(),
        description: String::new(),
        update_date: String::new(),
        create_date: create_date.to_string(),
        r18: 0,
        page_count: 1,
        illust_type: 0,
        url: String::new(),
        width: 1,
        height: 1,
        is_masked: false,
    }
}

#[test]
fn feed_of_an_author_lists_sixty() {
    assert_eq!(feed_ids(vec![]), Vec::<u64>::new());
    assert_eq!(feed_ids(vec![3, 2, 1]), vec![3, 2, 1]);
    let many: Vec<u64> = (0..100).rev().collect();
    assert_eq!(feed_ids(many.clone()), many[..60].to_vec());
    assert_eq!(feed_ids(many[..60].to_vec()), many[..60].to_vec());
}

#[test]
fn feed_of_a_search_asks_for_the_newest() {
    let request = feed_request(SearchRating::Safe, SearchMode::TitleCaption);
    assert_eq!(request.page, 1);
    assert_eq!(request.order, SearchOrder::DateDescending);
    assert_eq!(request.rating, SearchRating::Safe);
    assert_eq!(request.mode, SearchMode::TitleCaption);
}

#[test]
fn feed_item_of_a_work() {
    let config = RssConfig { host: "http://h".to_string() };
    let work = feed_work(12, "A <title>", "2022-01-02T03:04:05+09:00");
    let item = feed_item(&config, &work, "<p>text</p>".to_string());
    assert_eq!(item.title, "A <title>");
    assert_eq!(item.link, "http://h/artworks/12");
    assert_eq!(item.guid, "http://h/artworks/12");
    assert!(item.permalink);
    assert_eq!(item.description, "<p>text</p>");
    assert_eq!(item.pub_date.as_deref(), Some("Sun, 2 Jan 2022 03:04:05 +0900"));
    let undated = feed_item(&config, &feed_work(13, "t", "yesterday"), String::new());
    assert_eq!(undated.pub_date, None);
    let empty = feed_item(&config, &feed_work(13, "t", ""), String::new());
    assert_eq!(empty.pub_date, None);
}

#[test]
fn feed_is_written_as_a_channel() {
    let config = RssConfig { host: "http://h".to_string() };
    let items = vec![
        feed_item(&config, &feed_work(12, "first & best", "2022-01-02T03:04:05+09:00"), "<p>a</p>".to_string()),
        feed_item(&config, &feed_work(13, "second", "no date"), String::new()),
    ];
    let xml = feed_xml(&config, FeedKind::Search, "fox", SearchRating::Safe, SearchMode::TagsPartial, &items);
    let expected = rss::Channel {
        title: "fox".to_string(),
        link: "http://h/rss?type=search&q=fox&mode=safe&s_mode=s_tag".to_string(),
        description: "Pixiv RSS".to_string(),
        items: vec![
            rss::Item {
                title: Some("first & best".to_string()),
                link: Some("http://h/artworks/12".to_string()),
                guid: Some(rss::Guid { value: "http://h/artworks/12".to_string(), permalink: true }),
                description: Some("<p>a</p>".to_string()),
                pub_date: Some("Sun, 2 Jan 2022 03:04:05 +0900".to_string()),
                ..Default::default()
            },
            rss::Item {
                title: Some("second".to_string()),
                link: Some("http://h/artworks/13".to_string()),
                guid: Some(rss::Guid { value: "http://h/artworks/13".to_string(), permalink: true }),
                description: Some(String::new()),
                pub_date: None,
                ..Default::default()
            },
        ],
        ..Default::default()
    };
    assert_eq!(xml, expected.to_string());
    assert!(xml.contains("<title>fox</title>"));
    assert!(xml.contains("http://h/artworks/12"));
    assert!(xml.contains("Pixiv RSS"));
    let none = feed_xml(&config, FeedKind::Author, "5", SearchRating::All, SearchMode::TagsPerfect, &vec![]);
    assert!(none.contains("<link>http://h/rss?type=author&amp;q=5</link>"));
    assert!(!none.contains("<item>"));
}

#[test]
fn large_images_by_the_time_of_change() {
    let mut work = feed_work(9, "t", "");
    work.update_date = "2022-01-02T03:04:05+09:00".to_string();
    work.page_count = 2;
    assert_eq!(
        work_image_urls("http://h", &work),
        Some(vec![
            "http://h/imageproxy/img-master/img/2022/01/02/03/04/05/9_p0_master1200.jpg".to_string(),
            "http://h/imageproxy/img-master/img/2022/01/02/03/04/05/9_p1_master1200.jpg".to_string(),
        ])
    );
    work.illust_type = 2;
    assert_eq!(
        work_image_urls("", &work),
        Some(vec!["/imageproxy/img-master/img/2022/01/02/03/04/05/9_master1200.jpg".to_string()])
    );
    work.update_date = "2022-01-02".to_string();
    assert_eq!(work_image_urls("", &work), None);
}
