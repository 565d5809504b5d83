//! The links to other views of a list: the scrolling view and the feed.

use vstd::prelude::*;
use vstd::string::StringExecFns;
use crate::api::search::SearchRequest;
use crate::text::{decimal, push_decimal};

verus! {

/// The query that selects the works of an author.
pub open spec fn author_options(id: u64) -> Seq<char> {
    "?qtype=author&q="@ + decimal(id as nat)
}

/// The query that selects the results of a search.
pub open spec fn search_options(q: Seq<char>, query: SearchRequest) -> Seq<char> {
    "?qtype=searchq="@ + q + "&mode="@ + query.rating.word() + "&order="@ + query.order.word()
        + "&s_mode="@ + query.mode.word()
}

/// The address of the scrolling view of a list at a page.
pub open spec fn scroll_link(options: Seq<char>, page: u32) -> Seq<char> {
    "/scroll"@ + options + "&p="@ + decimal(page as nat)
}

/// The address of the feed of a list.
pub open spec fn rss_link(options: Seq<char>) -> Seq<char> {
    "/rss"@ + options
}

/// The two links for a list that `options` selects: to its scrolling view
/// at `page`, and to its feed.
pub fn render_alt(options: &str, page: u32) -> (links: (String, String))
    ensures
        links.0@ == scroll_link(options@, page),
        links.1@ == rss_link(options@),
{
    let mut scroll = String::from_str("/scroll");
    scroll.append(options);
    scroll.append("&p=");
    push_decimal(&mut scroll, page as u64);
    let mut rss = String::from_str("/rss");
    rss.append(options);
    (scroll, rss)
}

/// The two links for the works of an author.
pub fn render_alt_author(id: u64, page: u32) -> (links: (String, String))
    ensures
        links.0@ == scroll_link(author_options(id), page),
        links.1@ == rss_link(author_options(id)),
{
    let mut options = String::from_str("?qtype=author&q=");
    push_decimal(&mut options, id);
    render_alt(options.as_str(), page)
}

/// The two links for the results of a search.
pub fn render_alt_search(q: &str, query: &SearchRequest) -> (links: (String, String))
    ensures
        links.0@ == scroll_link(search_options(q@, *query), query.page),
        links.1@ == rss_link(search_options(q@, *query)),
{
    let mut options = String::from_str("?qtype=searchq=");
    options.append(q);
    options.append("&mode=");
    options.append(query.rating.as_str());
    options.append("&order=");
    options.append(query.order.as_str());
    options.append("&s_mode=");
    options.append(query.mode.as_str());
    assert(options@ =~= search_options(q@, *query));
    render_alt(options.as_str(), query.page)
}

} // verus!
