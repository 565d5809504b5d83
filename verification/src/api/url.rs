//! The addresses at which the service is asked.

use vstd::prelude::*;
use vstd::string::StringExecFns;
use vstd::utf8::encode_utf8;
use crate::api::error::ApiError;
use crate::api::search::SearchRequest;
use crate::text::{decimal, push_decimal};

verus! {

/// The character of the hexadecimal digit `d`, letters in upper case.
pub open spec fn hex_digit(d: nat) -> char
    recommends
        d < 16,
{
    if d < 10 {
        (48 + d) as char
    } else {
        (55 + d) as char
    }
}

/// The byte is an ASCII letter or digit.
pub open spec fn is_alphanumeric_byte(b: u8) -> bool {
    ||| 48 <= b <= 57
    ||| 65 <= b <= 90
    ||| 97 <= b <= 122
}

/// What stands for one byte in a percent-encoded string: the byte's own
/// character for an ASCII letter or digit, for any other byte a percent
/// sign and the byte's two hexadecimal digits.
pub open spec fn encoded_byte(b: u8) -> Seq<char> {
    if is_alphanumeric_byte(b) {
        seq![b as char]
    } else {
        seq!['%', hex_digit(b as nat / 16), hex_digit(b as nat % 16)]
    }
}

/// The bytes percent-encoded one after another.
pub open spec fn percent_encoded(bytes: Seq<u8>) -> Seq<char>
    decreases bytes.len(),
{
    if bytes.len() == 0 {
        Seq::empty()
    } else {
        percent_encoded(bytes.drop_last()) + encoded_byte(bytes.last())
    }
}

/// A string as it stands in a URL: its UTF-8 bytes percent-encoded, all
/// but letters and digits.
pub open spec fn url_encoded(s: Seq<char>) -> Seq<char> {
    percent_encoded(encode_utf8(s))
}

/// Encodes a string with `percent_encoding::utf8_percent_encode` and the
/// set `NON_ALPHANUMERIC`: every byte of the string's UTF-8 form that is
/// no ASCII letter or digit becomes a percent sign and two hexadecimal
/// digits in upper case, the others stay.
#[verifier::external_body]
pub(crate) fn url_encode(s: &str) -> (out: String)
    ensures
        out@ == url_encoded(s@),
{
    percent_encoding::utf8_percent_encode(s, percent_encoding::NON_ALPHANUMERIC).to_string()
}

pub open spec fn artwork_url_of(id: u64) -> Seq<char> {
    "https://www.pixiv.net/ajax/illust/"@ + decimal(id as nat)
}

/// Where an artwork is asked for.
pub fn artwork_url(id: u64) -> (url: String)
    ensures
        url@ == artwork_url_of(id),
{
    let mut url = String::from_str("https://www.pixiv.net/ajax/illust/");
    push_decimal(&mut url, id);
    url
}

pub open spec fn ugoira_meta_url_of(id: u32) -> Seq<char> {
    "https://www.pixiv.net/ajax/illust/"@ + decimal(id as nat) + "/ugoira_meta?lang=en"@
}

/// Where the metadata of an animated illustration is asked for.
pub fn ugoira_meta_url(id: u32) -> (url: String)
    ensures
        url@ == ugoira_meta_url_of(id),
{
    let mut url = String::from_str("https://www.pixiv.net/ajax/illust/");
    push_decimal(&mut url, id as u64);
    url.append("/ugoira_meta?lang=en");
    url
}

pub open spec fn comments_url_of(id: u64, offset: u32, limit: u32) -> Seq<char> {
    "https://www.pixiv.net/ajax/illusts/comments/roots?illust_id="@ + decimal(id as nat)
        + "&offset="@ + decimal(offset as nat) + "&limit="@ + decimal(limit as nat) + "&lang=en"@
}

/// Where the comments on an artwork are asked for.
pub fn comments_url(id: u64, offset: u32, limit: u32) -> (url: String)
    ensures
        url@ == comments_url_of(id, offset, limit),
{
    let mut url = String::from_str("https://www.pixiv.net/ajax/illusts/comments/roots?illust_id=");
    push_decimal(&mut url, id);
    url.append("&offset=");
    push_decimal(&mut url, offset as u64);
    url.append("&limit=");
    push_decimal(&mut url, limit as u64);
    url.append("&lang=en");
    url
}

pub open spec fn replies_url_of(id: u64, page: u32) -> Seq<char> {
    "https://www.pixiv.net/ajax/illusts/comments/replies?comment_id="@ + decimal(id as nat)
        + "&page="@ + decimal(page as nat) + "&lang=en"@
}

/// Where the replies to a comment are asked for.
pub fn replies_url(id: u64, page: u32) -> (url: String)
    ensures
        url@ == replies_url_of(id, page),
{
    let mut url = String::from_str(
        "https://www.pixiv.net/ajax/illusts/comments/replies?comment_id=",
    );
    push_decimal(&mut url, id);
    url.append("&page=");
    push_decimal(&mut url, page as u64);
    url.append("&lang=en");
    url
}

pub open spec fn ranking_url_of(date: Option<Seq<char>>, page: u32) -> Seq<char> {
    "https://www.pixiv.net/ranking.php?mode=daily&p="@ + decimal(page as nat) + "&format=json"@
        + match date {
        Some(d) => "&date="@ + d,
        None => Seq::empty(),
    }
}

/// Where the daily ranking is asked for: of the day given, or of the
/// latest day.
pub fn ranking_url(date: Option<&str>, page: u32) -> (url: String)
    ensures
        url@ == ranking_url_of(
            match date {
                Some(d) => Some(d@),
                None => None,
            },
            page,
        ),
{
    let mut url = String::from_str("https://www.pixiv.net/ranking.php?mode=daily&p=");
    push_decimal(&mut url, page as u64);
    url.append("&format=json");
    match date {
        Some(d) => {
            url.append("&date=");
            url.append(d);
            assert(url@ =~= ranking_url_of(Some(d@), page));
        },
        None => {
            assert(url@ =~= ranking_url_of(None, page));
        },
    }
    url
}

pub open spec fn search_url_of(tags: Seq<char>, query: SearchRequest) -> Seq<char> {
    "https://www.pixiv.net/ajax/search/artworks/"@ + url_encoded(tags) + "?word="@ + url_encoded(
        tags,
    ) + "&order="@ + query.order.word() + "&mode="@ + query.rating.word() + "&p="@ + decimal(
        query.page as nat,
    ) + "&s_mode="@ + query.mode.word() + "&type=all&lang=en"@
}

/// Where a search is asked for.
pub fn search_url(tags: &str, query: &SearchRequest) -> (url: String)
    ensures
        url@ == search_url_of(tags@, *query),
{
    let encoded = url_encode(tags);
    let mut url = String::from_str("https://www.pixiv.net/ajax/search/artworks/");
    url.append(encoded.as_str());
    url.append("?word=");
    url.append(encoded.as_str());
    url.append("&order=");
    url.append(query.order.as_str());
    url.append("&mode=");
    url.append(query.rating.as_str());
    url.append("&p=");
    push_decimal(&mut url, query.page as u64);
    url.append("&s_mode=");
    url.append(query.mode.as_str());
    url.append("&type=all&lang=en");
    assert(url@ =~= search_url_of(tags@, *query));
    url
}

pub open spec fn user_ids_url_of(user_id: u64) -> Seq<char> {
    "https://www.pixiv.net/ajax/user/"@ + decimal(user_id as nat) + "/profile/all?lang=en"@
}

/// Where the ids of a user's works are asked for.
pub fn user_ids_url(user_id: u64) -> (url: String)
    ensures
        url@ == user_ids_url_of(user_id),
{
    let mut url = String::from_str("https://www.pixiv.net/ajax/user/");
    push_decimal(&mut url, user_id);
    url.append("/profile/all?lang=en");
    url
}

/// The ids as parameters of a query, an ampersand between them.
pub open spec fn id_parameters(ids: Seq<u64>) -> Seq<char>
    decreases ids.len(),
{
    if ids.len() == 0 {
        Seq::empty()
    } else if ids.len() == 1 {
        "ids[]="@ + decimal(ids[0] as nat)
    } else {
        id_parameters(ids.drop_last()) + "&ids[]="@ + decimal(ids.last() as nat)
    }
}

pub open spec fn user_works_url_of(user_id: u64, ids: Seq<u64>) -> Seq<char> {
    "https://www.pixiv.net/ajax/user/"@ + decimal(user_id as nat) + "/profile/illusts?"@
        + id_parameters(ids) + "&work_category=illust&is_first_page=0&lang=en"@
}

/// Where the works of a user with the given ids are asked for; nowhere
/// for no ids, since then there is nothing to ask.
pub fn user_works_url(user_id: u64, ids: &[u64]) -> (url: Option<String>)
    ensures
        match url {
            Some(u) => ids@.len() > 0 && u@ == user_works_url_of(user_id, ids@),
            None => ids@.len() == 0,
        },
{
    let n: usize = ids.len();
    if n == 0 {
        return None;
    }
    let mut url = String::from_str("https://www.pixiv.net/ajax/user/");
    push_decimal(&mut url, user_id);
    url.append("/profile/illusts?");
    let ghost head = url@;
    let mut i: usize = 0;
    assert(ids@.take(0) =~= Seq::<u64>::empty());
    assert(url@ =~= head + id_parameters(ids@.take(0)));
    while i < n
        invariant
            0 <= i <= n,
            n == ids@.len(),
            url@ == head + id_parameters(ids@.take(i as int)),
        decreases n - i,
    {
        proof {
            assert(ids@.take(i + 1).drop_last() =~= ids@.take(i as int));
            assert(ids@.take(i + 1).last() == ids@[i as int]);
        }
        if i > 0 {
            url.append("&ids[]=");
        } else {
            url.append("ids[]=");
        }
        push_decimal(&mut url, ids[i]);
        i += 1;
        assert(url@ =~= head + id_parameters(ids@.take(i as int)));
    }
    assert(ids@.take(n as int) =~= ids@);
    url.append("&work_category=illust&is_first_page=0&lang=en");
    assert(url@ =~= user_works_url_of(user_id, ids@));
    Some(url)
}

pub open spec fn user_bookmarks_url_of(user_id: u64, tag: Seq<char>, offset: u32, limit: u32) -> Seq<
    char,
> {
    "https://www.pixiv.net/ajax/user/"@ + decimal(user_id as nat) + "/illusts/bookmarks?tag="@
        + tag + "&offset="@ + decimal(offset as nat) + "&limit="@ + decimal(limit as nat)
        + "&rest=show&lang=en"@
}

/// Where a user's bookmarks are asked for. The tag is written as given.
pub fn user_bookmarks_url(user_id: u64, tag: &str, offset: u32, limit: u32) -> (url: String)
    ensures
        url@ == user_bookmarks_url_of(user_id, tag@, offset, limit),
{
    let mut url = String::from_str("https://www.pixiv.net/ajax/user/");
    push_decimal(&mut url, user_id);
    url.append("/illusts/bookmarks?tag=");
    url.append(tag);
    url.append("&offset=");
    push_decimal(&mut url, offset as u64);
    url.append("&limit=");
    push_decimal(&mut url, limit as u64);
    url.append("&rest=show&lang=en");
    assert(url@ =~= user_bookmarks_url_of(user_id, tag@, offset, limit));
    url
}

pub open spec fn user_profile_url_of(user_id: u64) -> Seq<char> {
    "https://www.pixiv.net/ajax/user/"@ + decimal(user_id as nat) + "?full=1&lang=en"@
}

/// Where a user's profile is asked for.
pub fn user_profile_url(user_id: u64) -> (url: String)
    ensures
        url@ == user_profile_url_of(user_id),
{
    let mut url = String::from_str("https://www.pixiv.net/ajax/user/");
    push_decimal(&mut url, user_id);
    url.append("?full=1&lang=en");
    url
}

pub open spec fn fanbox_url_of(id: u64) -> Seq<char> {
    "https://www.pixiv.net/fanbox/creator/"@ + decimal(id as nat)
}

/// Where the service redirects to a creator's fan page.
pub fn fanbox_url(id: u64) -> (url: String)
    ensures
        url@ == fanbox_url_of(id),
{
    let mut url = String::from_str("https://www.pixiv.net/fanbox/creator/");
    push_decimal(&mut url, id);
    url
}

/// The address of one thing of the sketch service by its kind and id.
pub open spec fn sketch_url_of(kind: Seq<char>, id: u64) -> Seq<char> {
    "https://sketch.pixiv.net/api/"@ + kind + seq!['/'] + decimal(id as nat)
}

fn sketch_url(kind: &str, id: u64) -> (url: String)
    ensures
        url@ == sketch_url_of(kind@, id),
{
    let mut url = String::from_str("https://sketch.pixiv.net/api/");
    url.append(kind);
    proof {
        reveal_strlit("/");
    }
    url.append("/");
    push_decimal(&mut url, id);
    assert(url@ =~= sketch_url_of(kind@, id));
    url
}

/// Where a sketch post is asked for.
pub fn sketch_item_url(id: u64) -> (url: String)
    ensures
        url@ == sketch_url_of("items"@, id),
{
    sketch_url("items", id)
}

/// Where the reactions to a sketch post are asked for.
pub fn sketch_feedbacks_url(id: u64) -> (url: String)
    ensures
        url@ == sketch_url_of("feedbacks"@, id),
{
    sketch_url("feedbacks", id)
}

/// Where a sketch user is asked for.
pub fn sketch_user_url(id: u64) -> (url: String)
    ensures
        url@ == sketch_url_of("users"@, id),
{
    sketch_url("users", id)
}

pub open spec fn sketch_lives_url_of(count: u32, order_by: Seq<char>) -> Seq<char> {
    "https://sketch.pixiv.net/api/lives.json?count="@ + decimal(count as nat) + "&order_by="@
        + order_by
}

/// Where the live streams are asked for.
pub fn sketch_lives_url(count: u32, order_by: &str) -> (url: String)
    ensures
        url@ == sketch_lives_url_of(count, order_by@),
{
    let mut url = String::from_str("https://sketch.pixiv.net/api/lives.json?count=");
    push_decimal(&mut url, count as u64);
    url.append("&order_by=");
    url.append(order_by);
    url
}

pub open spec fn public_wall_url_of(since: Option<u64>, max: Option<u64>) -> Seq<char> {
    match (since, max) {
        (Some(s), None) => "https://sketch.pixiv.net/api/walls/public.json?since_id="@ + decimal(
            s as nat,
        ),
        (None, Some(m)) => "https://sketch.pixiv.net/api/walls/public.json?max_id="@ + decimal(
            m as nat,
        ),
        _ => "https://sketch.pixiv.net/api/walls/public.json"@,
    }
}

/// Where the public wall is asked for: from an id on, up to an id, or,
/// with neither or both given, its newest part.
pub fn public_wall_url(since: Option<u64>, max: Option<u64>) -> (url: String)
    ensures
        url@ == public_wall_url_of(since, max),
{
    match (since, max) {
        (Some(s), None) => {
            let mut url = String::from_str(
                "https://sketch.pixiv.net/api/walls/public.json?since_id=",
            );
            push_decimal(&mut url, s);
            url
        },
        (None, Some(m)) => {
            let mut url = String::from_str("https://sketch.pixiv.net/api/walls/public.json?max_id=");
            push_decimal(&mut url, m);
            url
        },
        _ => String::from_str("https://sketch.pixiv.net/api/walls/public.json"),
    }
}

pub open spec fn tag_wall_url_of(tag: Seq<char>) -> Seq<char> {
    "https://sketch.pixiv.net/api/walls/tags/"@ + url_encoded(tag) + ".json"@
}

/// Where the wall of a tag is asked for.
pub fn tag_wall_url(tag: &str) -> (url: String)
    ensures
        url@ == tag_wall_url_of(tag@),
{
    let encoded = url_encode(tag);
    let mut url = String::from_str("https://sketch.pixiv.net/api/walls/tags/");
    url.append(encoded.as_str());
    url.append(".json");
    url
}

/// The users as fields of a form, each behind an ampersand.
pub open spec fn user_fields(ids: Seq<u64>) -> Seq<char>
    decreases ids.len(),
{
    if ids.len() == 0 {
        Seq::empty()
    } else {
        user_fields(ids.drop_last()) + "&users%5B%5D="@ + decimal(ids.last() as nat)
    }
}

pub open spec fn latest_posts_form_of(ids: Seq<u64>, count: u32) -> Seq<char> {
    "count="@ + decimal(count as nat) + user_fields(ids)
}

/// The most posts that can be asked for at once.
pub const MAX_LATEST_POSTS: u32 = 6;

/// The form that asks for the latest posts of some users. More than six
/// posts are refused with an external error 400.
pub fn latest_posts_form(ids: &[u64], count: u32) -> (r: Result<String, ApiError>)
    ensures
        match r {
            Ok(form) => count <= MAX_LATEST_POSTS && form@ == latest_posts_form_of(ids@, count),
            Err(e) => {
                &&& count > MAX_LATEST_POSTS
                &&& e is External
                &&& e->External_0 == 400
                &&& e->External_1@ == "count is too big"@
            },
        },
{
    if count > MAX_LATEST_POSTS {
        return Err(ApiError::External(400, String::from_str("count is too big")));
    }
    let mut form = String::from_str("count=");
    push_decimal(&mut form, count as u64);
    let ghost head = form@;
    let n: usize = ids.len();
    let mut i: usize = 0;
    assert(ids@.take(0) =~= Seq::<u64>::empty());
    assert(form@ =~= head + user_fields(ids@.take(0)));
    while i < n
        invariant
            0 <= i <= n,
            n == ids@.len(),
            form@ == head + user_fields(ids@.take(i as int)),
        decreases n - i,
    {
        proof {
            assert(ids@.take(i + 1).drop_last() =~= ids@.take(i as int));
            assert(ids@.take(i + 1).last() == ids@[i as int]);
        }
        form.append("&users%5B%5D=");
        push_decimal(&mut form, ids[i]);
        i += 1;
        assert(form@ =~= head + user_fields(ids@.take(i as int)));
    }
    assert(ids@.take(n as int) =~= ids@);
    Ok(form)
}

} // verus!
