//! The images of an artwork and the addresses under which lists show
//! them.

use vstd::prelude::*;
use vstd::string::StringExecFns;
use crate::api::common::PixivSearchResult;
use crate::text::{decimal, push_decimal, replace_all, replaced};

verus! {

/// The image of page `i` of an artwork, given the image of its first
/// page: the same address with the page's number in place of the 0.
pub open spec fn page_url(first: Seq<char>, i: u32) -> Seq<char> {
    if i == 0 {
        first
    } else {
        replaced(first, "_p0."@, "_p"@ + decimal(i as nat) + "."@)
    }
}

/// The images of all pages of an artwork, the first page first. An
/// artwork is shown with one image even where it counts no page.
pub fn page_urls(first: &str, page_count: u32) -> (urls: Vec<String>)
    ensures
        urls@.len() == if page_count == 0 {
            1
        } else {
            page_count as int
        },
        forall|i: int| 0 <= i < urls@.len() ==> (#[trigger] urls@[i])@ == page_url(first@, i as u32),
{
    let mut urls: Vec<String> = Vec::new();
    urls.push(String::from_str(first));
    let mut i: u32 = 1;
    while i < page_count
        invariant
            1 <= i,
            i <= page_count || page_count == 0,
            page_count == 0 ==> i == 1,
            urls@.len() == i,
            forall|k: int|
                0 <= k < urls@.len() ==> (#[trigger] urls@[k])@ == page_url(first@, k as u32),
        decreases page_count - i,
    {
        let mut with = String::from_str("_p");
        push_decimal(&mut with, i as u64);
        with.append(".");
        urls.push(replace_all(first, "_p0.", with.as_str()));
        i += 1;
    }
    urls
}

/// The page on this server that shows an artwork.
pub open spec fn artwork_path(id: u64) -> Seq<char> {
    "/artworks/"@ + decimal(id as nat)
}

/// The page on this server that shows an artwork.
pub fn artwork_link(id: u64) -> (path: String)
    ensures
        path@ == artwork_path(id),
{
    let mut path = String::from_str("/artworks/");
    push_decimal(&mut path, id);
    path
}

/// The page on this server that shows a user.
pub open spec fn user_path(id: u64) -> Seq<char> {
    "/users/"@ + decimal(id as nat)
}

/// The page on this server that shows a user.
pub fn user_link(id: u64) -> (path: String)
    ensures
        path@ == user_path(id),
{
    let mut path = String::from_str("/users/");
    push_decimal(&mut path, id);
    path
}

/// The address on this server that plays an animated illustration.
pub open spec fn ugoira_path(id: u64) -> Seq<char> {
    "/ugoira/"@ + decimal(id as nat)
}

/// The address on this server that plays an animated illustration.
pub fn ugoira_link(id: u64) -> (path: String)
    ensures
        path@ == ugoira_path(id),
{
    let mut path = String::from_str("/ugoira/");
    push_decimal(&mut path, id);
    path
}

/// The kind of work that is an animated illustration.
pub const ILLUST_TYPE_UGOIRA: u8 = 2;

/// What the addresses of the large images of a work begin with: the host,
/// the proxy's folder of large images, the path of the work's date, and
/// its id.
pub open spec fn master_base(host: Seq<char>, date_path: Seq<char>, id: u64) -> Seq<char> {
    host + "/imageproxy/img-master/img/"@ + date_path + seq!['/'] + decimal(id as nat)
}

/// The large image of page `i` of a work.
pub open spec fn master_page(base: Seq<char>, i: u32) -> Seq<char> {
    base + "_p"@ + decimal(i as nat) + "_master1200.jpg"@
}

/// The large images of a work: the one poster of an animated
/// illustration, or one image for each page of any other work.
pub open spec fn master_images(base: Seq<char>, illust_type: u8, page_count: u32) -> Seq<Seq<char>> {
    if illust_type == ILLUST_TYPE_UGOIRA {
        seq![base + "_master1200.jpg"@]
    } else {
        Seq::new(page_count as nat, |i: int| master_page(base, i as u32))
    }
}

/// The addresses of the large images of a work. `date_path` is the time
/// of the work's last change as year, month, day, hour, minute and second
/// with slashes between them.
pub fn master_image_urls(
    host: &str,
    date_path: &str,
    id: u64,
    illust_type: u8,
    page_count: u32,
) -> (urls: Vec<String>)
    ensures
        urls@.len() == master_images(master_base(host@, date_path@, id), illust_type, page_count).len(),
        forall|i: int|
            0 <= i < urls@.len() ==> (#[trigger] urls@[i])@ == master_images(
                master_base(host@, date_path@, id),
                illust_type,
                page_count,
            )[i],
{
    let mut base = String::from_str(host);
    base.append("/imageproxy/img-master/img/");
    base.append(date_path);
    proof {
        reveal_strlit("/");
    }
    base.append("/");
    push_decimal(&mut base, id);
    assert(base@ =~= master_base(host@, date_path@, id));
    let mut urls: Vec<String> = Vec::new();
    if illust_type == ILLUST_TYPE_UGOIRA {
        let mut url = base.clone();
        url.append("_master1200.jpg");
        urls.push(url);
        return urls;
    }
    let mut i: u32 = 0;
    while i < page_count
        invariant
            0 <= i <= page_count,
            urls@.len() == i,
            base@ == master_base(host@, date_path@, id),
            forall|k: int| 0 <= k < urls@.len() ==> (#[trigger] urls@[k])@ == master_page(base@, k as u32),
        decreases page_count - i,
    {
        let mut url = base.clone();
        url.append("_p");
        push_decimal(&mut url, i as u64);
        url.append("_master1200.jpg");
        assert(url@ =~= master_page(base@, i));
        urls.push(url);
        i += 1;
    }
    urls
}

/// A time that RFC 3339 writes, as the path under which the large images
/// of that time lie: year, month, day, hour, minute and second with
/// slashes between them, as `chrono::DateTime::parse_from_rfc3339` reads
/// the time and `format` writes it; nothing for a text that is no such
/// time.
pub uninterp spec fn date_path_of(date: Seq<char>) -> Option<Seq<char>>;

/// Turns a time into the path of its images with
/// `chrono::DateTime::parse_from_rfc3339` and `DateTime::format`. Trusted:
/// that the result depends on the text alone.
#[verifier::external_body]
fn date_path(date: &str) -> (path: Option<String>)
    ensures
        match path {
            Some(p) => date_path_of(date@) == Some(p@),
            None => date_path_of(date@) is None,
        },
{
    let parsed = chrono::DateTime::parse_from_rfc3339(date).ok()?;
    Some(parsed.format("%Y/%m/%d/%H/%M/%S").to_string())
}

/// The large images of a work, by the time of its last change; none where
/// the service wrote no time that can be read.
pub open spec fn work_images(host: Seq<char>, work: PixivSearchResult) -> Option<Seq<Seq<char>>> {
    match date_path_of(work.update_date@) {
        Some(path) => Some(
            master_images(master_base(host, path, work.id), work.illust_type, work.page_count),
        ),
        None => None,
    }
}

/// The addresses of the large images of a work.
pub fn work_image_urls(host: &str, work: &PixivSearchResult) -> (urls: Option<Vec<String>>)
    ensures
        match urls {
            Some(list) => {
                &&& work_images(host@, *work) is Some
                &&& list@.len() == work_images(host@, *work)->Some_0.len()
                &&& forall|i: int|
                    0 <= i < list@.len() ==> (#[trigger] list@[i])@ == work_images(
                        host@,
                        *work,
                    )->Some_0[i]
            },
            None => work_images(host@, *work) is None,
        },
{
    match date_path(work.update_date.as_str()) {
        Some(path) => Some(
            master_image_urls(host, path.as_str(), work.id, work.illust_type, work.page_count),
        ),
        None => None,
    }
}

} // verus!
