//! Text made safe for markup.

use vstd::prelude::*;

verus! {

/// What stands for one character in markup: a reference for the ampersand,
/// the angle brackets and the double quote, the character itself for any
/// other.
pub open spec fn escaped_char(c: char) -> Seq<char> {
    if c == '&' {
        "&amp;"@
    } else if c == '<' {
        "&lt;"@
    } else if c == '>' {
        "&gt;"@
    } else if c == '"' {
        "&quot;"@
    } else {
        seq![c]
    }
}

/// `s` with every character escaped.
pub open spec fn escaped(s: Seq<char>) -> Seq<char>
    decreases s.len(),
{
    if s.len() == 0 {
        Seq::empty()
    } else {
        escaped(s.drop_last()) + escaped_char(s.last())
    }
}

/// Escapes text with `maud::Escaper`, whose documentation lists the four
/// characters it replaces and says that all others pass unchanged.
#[verifier::external_body]
pub(crate) fn escape_html(input: &str) -> (out: String)
    ensures
        out@ == escaped(input@),
{
    let mut out = String::new();
    let _ = std::fmt::Write::write_str(&mut maud::Escaper::new(&mut out), input);
    out
}

} // verus!
