//! Small helpers of the pages.

use vstd::prelude::*;
use vstd::string::StrSliceExecFns;
use crate::text::{chars_of, number_of, parse_u32};

verus! {

/// The first `max_chars` characters of `s`; all of `s` where it has no
/// more.
pub open spec fn truncated(s: Seq<char>, max_chars: nat) -> Seq<char> {
    if s.len() <= max_chars {
        s
    } else {
        s.take(max_chars as int)
    }
}

/// Cuts `s` to at most `max_chars` characters, never inside one.
pub fn truncate(s: &str, max_chars: usize) -> (r: &str)
    ensures
        r@ == truncated(s@, max_chars as nat),
{
    let len: usize = s.unicode_len();
    if len <= max_chars {
        s
    } else {
        s.substring_char(0, max_chars)
    }
}

/// The number that a parameter of a request gives: the one it writes, or
/// the default where the parameter is missing or writes no number that
/// fits.
pub open spec fn number_or(value: Option<Seq<char>>, default: u32) -> u32 {
    match value {
        Some(v) => match number_of(v, u32::MAX as nat) {
            Some(n) => n as u32,
            None => default,
        },
        None => default,
    }
}

/// Reads a number from a parameter of a request, with a default.
pub fn get_param_or_num(value: Option<&str>, default: u32) -> (n: u32)
    ensures
        n == number_or(
            match value {
                Some(v) => Some(v@),
                None => None,
            },
            default,
        ),
{
    match value {
        Some(v) => {
            let chars = chars_of(v);
            match parse_u32(chars.as_slice()) {
                Some(n) => n,
                None => default,
            }
        },
        None => default,
    }
}

} // verus!
