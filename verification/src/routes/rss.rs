//! The feed of a list.

use vstd::prelude::*;
use vstd::string::StringExecFns;
use crate::api::common::PixivSearchResult;
use crate::api::search::{SearchMode, SearchOrder, SearchRating, SearchRequest};
use crate::text::{decimal, push_decimal, str_eq};

verus! {

pub struct RssConfig {
    pub host: String,
}

/// What a feed lists.
#[derive(Clone, Copy, Debug, PartialEq, Eq, Structural)]
pub enum FeedKind {
    Author,
    Search,
}

impl FeedKind {
    /// The kind that the parameter `qtype` asks for: the works of an
    /// author for `author`, the results of a search for anything else.
    pub open spec fn of_qtype(qtype: Seq<char>) -> FeedKind {
        if qtype == "author"@ {
            FeedKind::Author
        } else {
            FeedKind::Search
        }
    }

    pub fn from_qtype(qtype: &str) -> (kind: FeedKind)
        ensures
            kind == Self::of_qtype(qtype@),
    {
        if str_eq(qtype, "author") {
            FeedKind::Author
        } else {
            FeedKind::Search
        }
    }
}

/// How many works the feed of an author lists at most.
pub const AUTHOR_FEED_LENGTH: usize = 60;

/// The address of an artwork on this server, host and all.
pub open spec fn item_link(host: Seq<char>, id: u64) -> Seq<char> {
    host + "/artworks/"@ + decimal(id as nat)
}

/// The address of an artwork on this server, which is also what the feed
/// knows the artwork by.
pub fn rss_item_link(config: &RssConfig, id: u64) -> (link: String)
    ensures
        link@ == item_link(config.host@, id),
{
    let mut link = config.host.clone();
    link.append("/artworks/");
    push_decimal(&mut link, id);
    link
}

/// The feed's own address.
pub open spec fn self_link(
    host: Seq<char>,
    kind: FeedKind,
    words: Seq<char>,
    rating: SearchRating,
    mode: SearchMode,
) -> Seq<char> {
    match kind {
        FeedKind::Author => host + "/rss?type=author&q="@ + words,
        FeedKind::Search => host + "/rss?type=search&q="@ + words + "&mode="@ + rating.word()
            + "&s_mode="@ + mode.word(),
    }
}

/// The feed's own address.
pub fn rss_self_url(
    config: &RssConfig,
    kind: FeedKind,
    words: &str,
    rating: SearchRating,
    mode: SearchMode,
) -> (url: String)
    ensures
        url@ == self_link(config.host@, kind, words@, rating, mode),
{
    let mut url = config.host.clone();
    match kind {
        FeedKind::Author => {
            url.append("/rss?type=author&q=");
            url.append(words);
        },
        FeedKind::Search => {
            url.append("/rss?type=search&q=");
            url.append(words);
            url.append("&mode=");
            url.append(rating.as_str());
            url.append("&s_mode=");
            url.append(mode.as_str());
            assert(url@ =~= self_link(config.host@, kind, words@, rating, mode));
        },
    }
    url
}

/// The ids of the works that the feed of an author lists: the first
/// sixty, or all where there are no more.
pub fn feed_ids(ids: Vec<u64>) -> (first: Vec<u64>)
    ensures
        first@ == ids@.take(
            if ids@.len() < AUTHOR_FEED_LENGTH {
                ids@.len() as int
            } else {
                AUTHOR_FEED_LENGTH as int
            },
        ),
{
    let mut first = ids;
    first.truncate(AUTHOR_FEED_LENGTH);
    assert(ids@.take(ids@.len() as int) =~= ids@);
    first
}

/// The search whose results the feed of a search lists: its first page,
/// newest first.
pub fn feed_request(rating: SearchRating, mode: SearchMode) -> (r: SearchRequest)
    ensures
        r.page == 1,
        r.order == SearchOrder::DateDescending,
        r.rating == rating,
        r.mode == mode,
{
    SearchRequest { page: 1, order: SearchOrder::DateDescending, rating, mode }
}

/// One item of a feed, in plain values.
pub struct FeedItem {
    pub title: String,
    pub link: String,
    /// What the item is known by, and whether that is an address.
    pub guid: String,
    pub permalink: bool,
    pub description: String,
    /// The day of publication as RFC 2822 writes it, where it is known.
    pub pub_date: Option<String>,
}

/// An item as mathematics.
pub struct FeedItemView {
    pub title: Seq<char>,
    pub link: Seq<char>,
    pub guid: Seq<char>,
    pub permalink: bool,
    pub description: Seq<char>,
    pub pub_date: Option<Seq<char>>,
}

impl View for FeedItem {
    type V = FeedItemView;

    open spec fn view(&self) -> FeedItemView {
        FeedItemView {
            title: self.title@,
            link: self.link@,
            guid: self.guid@,
            permalink: self.permalink,
            description: self.description@,
            pub_date: match self.pub_date {
                Some(date) => Some(date@),
                None => None,
            },
        }
    }
}

/// The views of the items, in order.
pub open spec fn item_views(items: Seq<FeedItem>) -> Seq<FeedItemView> {
    Seq::new(items.len(), |i: int| items[i]@)
}

/// A time that RFC 3339 writes, as RFC 2822 writes it: what
/// `chrono::DateTime::parse_from_rfc3339` reads and `to_rfc2822` writes;
/// nothing for a text that the first does not read.
pub uninterp spec fn rfc2822_of(date: Seq<char>) -> Option<Seq<char>>;

/// Turns a time from RFC 3339 to RFC 2822 with
/// `chrono::DateTime::parse_from_rfc3339` and `DateTime::to_rfc2822`.
/// Trusted: that the result depends on the text alone. The second never
/// fails on what the first read, whose years have four digits.
#[verifier::external_body]
fn to_rfc2822(date: &str) -> (r: Option<String>)
    ensures
        match r {
            Some(text) => rfc2822_of(date@) == Some(text@),
            None => rfc2822_of(date@) is None,
        },
{
    chrono::DateTime::parse_from_rfc3339(date).ok().map(|parsed| parsed.to_rfc2822())
}

/// The item of the feed that stands for a work: its title, its address
/// on this server as link and as what it is known by, the description
/// given, and the day the work was made, where the service wrote one that
/// can be read.
pub fn feed_item(config: &RssConfig, work: &PixivSearchResult, description: String) -> (item:
    FeedItem)
    ensures
        item@.title == work.title@,
        item@.link == item_link(config.host@, work.id),
        item@.guid == item_link(config.host@, work.id),
        item@.permalink,
        item@.description == description@,
        item@.pub_date == rfc2822_of(work.create_date@),
{
    let link = rss_item_link(config, work.id);
    FeedItem {
        title: work.title.clone(),
        guid: link.clone(),
        link,
        permalink: true,
        description,
        pub_date: to_rfc2822(work.create_date.as_str()),
    }
}

/// The feed as XML: what `rss::Channel` writes of a channel with this
/// title, link and description and these items, all else left as it is
/// by default.
pub uninterp spec fn channel_xml(
    title: Seq<char>,
    link: Seq<char>,
    description: Seq<char>,
    items: Seq<FeedItemView>,
) -> Seq<char>;

/// Writes a channel with `rss::Channel` and its `to_string`. Trusted: that
/// the text depends on title, link, description and items alone.
#[verifier::external_body]
fn write_channel(title: &str, link: &str, description: &str, items: &Vec<FeedItem>) -> (xml: String)
    ensures
        xml@ == channel_xml(title@, link@, description@, item_views(items@)),
{
    let items = items.iter().map(|item| rss::Item {
        title: Some(item.title.clone()),
        link: Some(item.link.clone()),
        guid: Some(rss::Guid { value: item.guid.clone(), permalink: item.permalink }),
        description: Some(item.description.clone()),
        pub_date: item.pub_date.clone(),
        ..Default::default()
    }).collect();
    let (title, link, description) = (title.to_owned(), link.to_owned(), description.to_owned());
    rss::Channel { title, link, description, items, ..Default::default() }.to_string()
}

/// The feed of a list: a channel that is titled with the words asked
/// for, links to the feed's own address, and holds the items.
pub fn feed_xml(
    config: &RssConfig,
    kind: FeedKind,
    words: &str,
    rating: SearchRating,
    mode: SearchMode,
    items: &Vec<FeedItem>,
) -> (xml: String)
    ensures
        xml@ == channel_xml(
            words@,
            self_link(config.host@, kind, words@, rating, mode),
            "Pixiv RSS"@,
            item_views(items@),
        ),
{
    let link = rss_self_url(config, kind, words, rating, mode);
    write_channel(words, link.as_str(), "Pixiv RSS", items)
}

} // verus!
