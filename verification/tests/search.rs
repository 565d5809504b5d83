use pixiv_proxy::api::search::{SearchMode, SearchOrder, SearchRating};
use std::str::FromStr;

#[test]
fn order_words() {
    assert_eq!(SearchOrder::DateDescending.as_str(), "date_d");
    assert_eq!(SearchOrder::DateAscending.as_str(), "date");
    assert_eq!(SearchOrder::Popular.as_str(), "popular_d");
    assert_eq!(SearchOrder::PopularMale.as_str(), "popular_male_d");
    assert_eq!(SearchOrder::PopularFemale.as_str(), "popular_female_d");
}

#[test]
fn order_round_trip() {
    for order in [
        SearchOrder::DateDescending,
        SearchOrder::DateAscending,
        SearchOrder::Popular,
        SearchOrder::PopularMale,
        SearchOrder::PopularFemale,
    ] {
        assert_eq!(SearchOrder::parse(order.as_str()), Some(order));
        assert_eq!(SearchOrder::from_str(order.as_str()), Ok(order));
    }
    assert_eq!(SearchOrder::parse("date_"), None);
    assert_eq!(SearchOrder::parse(""), None);
    assert_eq!(SearchOrder::from_str("DATE"), Err(()));
}

#[test]
fn rating_words() {
    assert_eq!(SearchRating::All.as_str(), "all");
    assert_eq!(SearchRating::Adult.as_str(), "r18");
    assert_eq!(SearchRating::Safe.as_str(), "safe");
    for rating in [SearchRating::All, SearchRating::Adult, SearchRating::Safe] {
        assert_eq!(SearchRating::parse(rating.as_str()), Some(rating));
        assert_eq!(SearchRating::from_str(rating.as_str()), Ok(rating));
    }
    assert_eq!(SearchRating::parse("r-18"), None);
    assert_eq!(SearchRating::from_str("safe "), Err(()));
}

#[test]
fn mode_words() {
    assert_eq!(SearchMode::TagsPerfect.as_str(), "s_tag_full");
    assert_eq!(SearchMode::TagsPartial.as_str(), "s_tag");
    assert_eq!(SearchMode::TitleCaption.as_str(), "s_tc");
    for mode in [SearchMode::TagsPerfect, SearchMode::TagsPartial, SearchMode::TitleCaption] {
        assert_eq!(SearchMode::parse(mode.as_str()), Some(mode));
        assert_eq!(SearchMode::from_str(mode.as_str()), Ok(mode));
    }
    assert_eq!(SearchMode::parse("s_tag_"), None);
    assert_eq!(SearchMode::from_str("tc"), Err(()));
}

#[test]
fn form_selects_the_choice_in_force() {
    let ratings = pixiv_proxy::render::search::rating_choices(SearchRating::Safe);
    let shown: Vec<(&str, &str, bool)> = ratings.iter().map(|c| (c.name, c.value, c.selected)).collect();
    assert_eq!(shown, vec![("All", "all", false), ("Safe", "safe", true), ("R-18", "r18", false)]);
    let orders = pixiv_proxy::render::search::order_choices(SearchOrder::PopularFemale);
    let shown: Vec<(&str, &str, bool)> = orders.iter().map(|c| (c.name, c.value, c.selected)).collect();
    assert_eq!(
        shown,
        vec![
            ("By Upload Date (Newest)", "date_d", false),
            ("By Upload Date (Oldest)", "date", false),
            ("By Popularity (All)", "popular_d", false),
            ("By Popularity (Male)", "popular_male_d", false),
            ("By Popularity (Female)", "popular_female_d", true),
        ]
    );
    let modes = pixiv_proxy::render::search::mode_choices(SearchMode::TagsPerfect);
    let shown: Vec<(&str, &str, bool)> = modes.iter().map(|c| (c.name, c.value, c.selected)).collect();
    assert_eq!(
        shown,
        vec![
            ("Tags (perfect match)", "s_tag_full", true),
            ("Tags (partial match)", "s_tag", false),
            ("Title, Caption", "s_tc", false),
        ]
    );
}
