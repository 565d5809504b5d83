//! Values that the service writes in more than one way, read into one.

use vstd::prelude::*;
use vstd::string::StringExecFns;
use crate::text::{
    chars_of,
    copy_chars,
    find_from,
    first_from,
    is_str,
    lemma_first_from,
    occurs_at,
    push_chars,
    string_of,
};

verus! {

/// The name under which this server passes on images of a host: of the
/// host that a URL names up to its `.net`.
pub open spec fn proxy_name(prefix: Seq<char>) -> Option<Seq<char>> {
    if prefix == "https://i.pximg"@ {
        Some("imageproxy"@)
    } else if prefix == "https://s.pximg"@ {
        Some("simg"@)
    } else if prefix == "https://img-sketch.pixiv"@ {
        Some("spix"@)
    } else if prefix == "https://img-sketch.pximg"@ {
        Some("spxi"@)
    } else {
        None
    }
}

/// What stands before the first `.net` of a URL; nothing where it holds
/// none.
pub open spec fn url_prefix(url: Seq<char>) -> Seq<char> {
    match first_from(url, ".net"@, 0) {
        Some(i) => url.take(i),
        None => Seq::empty(),
    }
}

/// What stands behind the first `.net` of a URL; all of it where it holds
/// none.
pub open spec fn url_path(url: Seq<char>) -> Seq<char> {
    match first_from(url, ".net"@, 0) {
        Some(i) => url.skip(i + 4),
        None => url,
    }
}

/// The path on this server that stands for an image URL of the service:
/// a slash, the proxy's name for the host, and the URL's own path. A URL
/// of any other host has none, and what stands for its host is returned
/// as the error.
pub open spec fn local_path(url: Seq<char>) -> Result<Seq<char>, Seq<char>> {
    match proxy_name(url_prefix(url)) {
        Some(name) => Ok(seq!['/'] + name + url_path(url)),
        None => Err(url_prefix(url)),
    }
}

/// Turns an image URL of the service into the path on this server that
/// stands for it.
pub fn strip_url_prefix(value: &str) -> (r: Result<String, String>)
    ensures
        match r {
            Ok(path) => local_path(value@) == Ok::<Seq<char>, Seq<char>>(path@),
            Err(prefix) => local_path(value@) == Err::<Seq<char>, Seq<char>>(prefix@),
        },
{
    let url = chars_of(value);
    let net = chars_of(".net");
    proof {
        reveal_strlit(".net");
        lemma_first_from(url@, net@, 0);
    }
    let n: usize = url.len();
    let (end, rest): (usize, usize) = match find_from(url.as_slice(), net.as_slice(), 0) {
        Some(i) => {
            assert(occurs_at(url@, i as int, net@));
            (i, i + 4)
        },
        None => (0, 0),
    };
    let prefix = copy_chars(url.as_slice(), 0, end);
    assert(prefix@ =~= url_prefix(value@));
    assert(url@.skip(rest as int) =~= url_path(value@));
    let name: &str = if is_str(prefix.as_slice(), "https://i.pximg") {
        "imageproxy"
    } else if is_str(prefix.as_slice(), "https://s.pximg") {
        "simg"
    } else if is_str(prefix.as_slice(), "https://img-sketch.pixiv") {
        "spix"
    } else if is_str(prefix.as_slice(), "https://img-sketch.pximg") {
        "spxi"
    } else {
        let refused = string_of(prefix.as_slice(), 0, end);
        assert(refused@ =~= prefix@);
        return Err(refused);
    };
    proof {
        reveal_strlit("/");
    }
    let mut path = String::from_str("/");
    path.append(name);
    push_chars(&mut path, url.as_slice(), rest);
    assert(path@ =~= seq!['/'] + name@ + url_path(value@));
    Ok(path)
}

} // verus!
