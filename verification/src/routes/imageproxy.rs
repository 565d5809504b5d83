//! Passing images on: which URL of the service a path on this server
//! stands for, and which headers are passed along.

use vstd::prelude::*;
use vstd::string::StringExecFns;
use crate::api::de::{local_path, proxy_name, url_path, url_prefix};
use crate::text::{
    chars_of,
    decimal,
    first_from,
    lemma_first_from,
    matches_at,
    number_of,
    occurs_at,
    parse_u64,
    push_chars,
    push_decimal,
    str_eq,
};

verus! {

/// The URL that a path stands for under one proxy: the host's root and
/// what follows the proxy's prefix; none for a path without the prefix.
pub open spec fn behind_prefix(path: Seq<char>, prefix: Seq<char>, root: Seq<char>) -> Option<
    Seq<char>,
> {
    if occurs_at(path, 0, prefix) {
        Some(root + path.skip(prefix.len() as int))
    } else {
        None
    }
}

fn proxy(path: &str, prefix: &str, root: &str) -> (url: Option<String>)
    ensures
        match url {
            Some(u) => behind_prefix(path@, prefix@, root@) == Some(u@),
            None => behind_prefix(path@, prefix@, root@) is None,
        },
{
    let chars = chars_of(path);
    let pre = chars_of(prefix);
    if !matches_at(chars.as_slice(), 0, pre.as_slice()) {
        return None;
    }
    let mut url = String::from_str(root);
    push_chars(&mut url, chars.as_slice(), pre.len());
    Some(url)
}

/// The URL on the image host that a path under `/imageproxy/` stands for.
pub fn imageproxy(path: &str) -> (url: Option<String>)
    ensures
        match url {
            Some(u) => behind_prefix(path@, "/imageproxy/"@, "https://i.pximg.net/"@) == Some(u@),
            None => behind_prefix(path@, "/imageproxy/"@, "https://i.pximg.net/"@) is None,
        },
{
    proxy(path, "/imageproxy/", "https://i.pximg.net/")
}

/// The URL on the static host that a path under `/simg/` stands for.
pub fn s_imageproxy(path: &str) -> (url: Option<String>)
    ensures
        match url {
            Some(u) => behind_prefix(path@, "/simg/"@, "https://s.pximg.net/"@) == Some(u@),
            None => behind_prefix(path@, "/simg/"@, "https://s.pximg.net/"@) is None,
        },
{
    proxy(path, "/simg/", "https://s.pximg.net/")
}

/// The URL on the first sketch host that a path under `/spix/` stands for.
pub fn spix_imageproxy(path: &str) -> (url: Option<String>)
    ensures
        match url {
            Some(u) => behind_prefix(path@, "/spix/"@, "https://img-sketch.pixiv.net/"@) == Some(
                u@,
            ),
            None => behind_prefix(path@, "/spix/"@, "https://img-sketch.pixiv.net/"@) is None,
        },
{
    proxy(path, "/spix/", "https://img-sketch.pixiv.net/")
}

/// The URL on the second sketch host that a path under `/spxi/` stands
/// for.
pub fn spxi_imageproxy(path: &str) -> (url: Option<String>)
    ensures
        match url {
            Some(u) => behind_prefix(path@, "/spxi/"@, "https://img-sketch.pximg.net/"@) == Some(
                u@,
            ),
            None => behind_prefix(path@, "/spxi/"@, "https://img-sketch.pximg.net/"@) is None,
        },
{
    proxy(path, "/spxi/", "https://img-sketch.pximg.net/")
}

/// The URL of the image of stamp `id`.
pub open spec fn stamp_url(id: u32) -> Seq<char> {
    "https://s.pximg.net/common/images/stamp/generated-stamps/"@ + decimal(id as nat)
        + "_s.jpg?20180605"@
}

/// The URL of the image of stamp `id`.
pub fn stamp(id: u32) -> (url: String)
    ensures
        url@ == stamp_url(id),
{
    let mut url = String::from_str("https://s.pximg.net/common/images/stamp/generated-stamps/");
    push_decimal(&mut url, id as u64);
    url.append("_s.jpg?20180605");
    url
}

/// What `str::to_lowercase` makes of a string: each character replaced by
/// its lowercase form as Unicode defines it.
pub uninterp spec fn lowercased(s: Seq<char>) -> Seq<char>;

/// `str::to_lowercase` is a function of the string alone.
#[verifier::external_body]
fn lowercase(s: &str) -> (lower: String)
    ensures
        lower@ == lowercased(s@),
{
    s.to_lowercase()
}

/// A header of the browser's request that is not passed on to the
/// service, by its name in lowercase.
pub open spec fn forbidden_to_service(lower: Seq<char>) -> bool {
    ||| lower == "connection"@
    ||| lower == "cookie"@
    ||| lower == "user-agent"@
    ||| lower == "host"@
    ||| lower == "referer"@
}

/// A header of the service's answer that is not passed on to the browser,
/// by its name.
pub open spec fn forbidden_to_client(name: Seq<char>) -> bool {
    ||| name == "connection"@
    ||| name == "cookies"@
    ||| name == "set-cookie"@
}

/// Whether a header of the browser's request, named in any case, is kept
/// from the service.
pub fn is_forbidden_server_header(name: &str) -> (b: bool)
    ensures
        b == forbidden_to_service(lowercased(name@)),
{
    let lower = lowercase(name);
    let l = lower.as_str();
    str_eq(l, "connection") || str_eq(l, "cookie") || str_eq(l, "user-agent") || str_eq(l, "host")
        || str_eq(l, "referer")
}

/// Whether a header of the service's answer, named in lowercase as the
/// transport names it, is kept from the browser.
pub fn is_forbidden_client_header(name: &str) -> (b: bool)
    ensures
        b == forbidden_to_client(name@),
{
    str_eq(name, "connection") || str_eq(name, "cookies") || str_eq(name, "set-cookie")
}

/// The length that a `Content-Length` header declares, if its value is a
/// number that fits.
pub fn content_length(value: &str) -> (r: Option<usize>)
    ensures
        match r {
            Some(n) => number_of(value@, usize::MAX as nat) == Some(n as nat),
            None => number_of(value@, usize::MAX as nat) is None,
        },
{
    let chars = chars_of(value);
    match parse_u64(chars.as_slice()) {
        Some(n) => if n <= usize::MAX as u64 {
            Some(n as usize)
        } else {
            None
        },
        None => None,
    }
}

/// An image URL of the service can be had back from the path that stands
/// for it: where the URL's own path begins with a slash, the proxy that
/// its host's name selects turns the local path into the URL again.
pub proof fn law_local_path_leads_back(url: Seq<char>)
    requires
        local_path(url) is Ok,
        url_path(url).len() > 0,
        url_path(url)[0] == '/',
    ensures
        ({
            let path = local_path(url)->Ok_0;
            let name = proxy_name(url_prefix(url))->Some_0;
            let prefix = seq!['/'] + name + seq!['/'];
            let root = url_prefix(url) + ".net/"@;
            behind_prefix(path, prefix, root) == Some(url)
        }),
{
    reveal_strlit(".net");
    reveal_strlit(".net/");
    reveal_strlit("https://i.pximg");
    reveal_strlit("https://s.pximg");
    reveal_strlit("https://img-sketch.pixiv");
    reveal_strlit("https://img-sketch.pximg");
    lemma_first_from(url, ".net"@, 0);
    assert(url_prefix(url).len() > 0);
    let i = first_from(url, ".net"@, 0)->Some_0;
    let path = local_path(url)->Ok_0;
    let name = proxy_name(url_prefix(url))->Some_0;
    let prefix = seq!['/'] + name + seq!['/'];
    let root = url_prefix(url) + ".net/"@;
    assert(occurs_at(url, i, ".net"@));
    assert(url.subrange(i, i + 4) == ".net"@);
    assert(path.subrange(0, prefix.len() as int) =~= prefix);
    assert(root + path.skip(prefix.len() as int) =~= url) by {
        let back = root + path.skip(prefix.len() as int);
        assert(back.len() == url.len());
        assert forall|k: int| 0 <= k < url.len() implies back[k] == url[k] by {
            if i <= k < i + 4 {
                assert(url.subrange(i, i + 4)[k - i] == url[k]);
            }
        }
    }
}

} // verus!
