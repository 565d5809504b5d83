//! Strings as sequences of characters: comparison and decimal numbers.

use vstd::prelude::*;
use vstd::string::StringExecFns;
use vstd::string::StringSliceAdditionalSpecFns;
use vstd::utf8::encode_utf8;
use vstd::utf8::encode_utf8_decode_utf8;

verus! {

/// `String::push` appends the character to the end of the string, as its
/// documentation says.
pub assume_specification[ String::push ](s: &mut String, c: char)
    ensures
        final(s)@ == old(s)@.push(c),
;

/// Whether two strings hold the same characters.
pub fn str_eq(a: &str, b: &str) -> (r: bool)
    ensures
        r == (a@ == b@),
{
    let x = a.as_bytes();
    let y = b.as_bytes();
    proof {
        encode_utf8_decode_utf8(a@);
        encode_utf8_decode_utf8(b@);
        assert(x@ == encode_utf8(a@));
        assert(y@ == encode_utf8(b@));
    }
    if x.len() != y.len() {
        return false;
    }
    let n: usize = x.len();
    let mut i: usize = 0;
    while i < n
        invariant
            0 <= i <= n,
            n == x@.len(),
            n == y@.len(),
            a@ == b@ ==> x@ == y@,
            forall|j: int| 0 <= j < i ==> x@[j] == y@[j],
        decreases n - i,
    {
        if x[i] != y[i] {
            return false;
        }
        i += 1;
    }
    assert(x@ =~= y@);
    true
}

/// The character of the decimal digit `d`.
pub open spec fn digit_char(d: nat) -> char
    recommends
        d < 10,
{
    if d == 0 {
        '0'
    } else if d == 1 {
        '1'
    } else if d == 2 {
        '2'
    } else if d == 3 {
        '3'
    } else if d == 4 {
        '4'
    } else if d == 5 {
        '5'
    } else if d == 6 {
        '6'
    } else if d == 7 {
        '7'
    } else if d == 8 {
        '8'
    } else {
        '9'
    }
}

/// `n` written in decimal, without sign or leading zeros.
pub open spec fn decimal(n: nat) -> Seq<char>
    decreases n,
{
    if n < 10 {
        seq![digit_char(n)]
    } else {
        decimal(n / 10).push(digit_char(n % 10))
    }
}

/// The one-character string of the decimal digit `d`.
fn digit_str(d: u64) -> (s: &'static str)
    requires
        d < 10,
    ensures
        s@ == seq![digit_char(d as nat)],
{
    proof {
        reveal_strlit("0");
        reveal_strlit("1");
        reveal_strlit("2");
        reveal_strlit("3");
        reveal_strlit("4");
        reveal_strlit("5");
        reveal_strlit("6");
        reveal_strlit("7");
        reveal_strlit("8");
        reveal_strlit("9");
    }
    let s = if d == 0 {
        "0"
    } else if d == 1 {
        "1"
    } else if d == 2 {
        "2"
    } else if d == 3 {
        "3"
    } else if d == 4 {
        "4"
    } else if d == 5 {
        "5"
    } else if d == 6 {
        "6"
    } else if d == 7 {
        "7"
    } else if d == 8 {
        "8"
    } else {
        "9"
    };
    assert(s@ =~= seq![digit_char(d as nat)]);
    s
}

/// Appends `n` in decimal to `out`.
pub fn push_decimal(out: &mut String, n: u64)
    ensures
        final(out)@ == old(out)@ + decimal(n as nat),
    decreases n,
{
    if n >= 10 {
        push_decimal(out, n / 10);
    }
    out.append(digit_str(n % 10));
    assert(old(out)@ + decimal(n as nat) =~= final(out)@) by {
        if n >= 10 {
            assert(decimal(n as nat) == decimal((n / 10) as nat).push(digit_char((n % 10) as nat)));
        }
    }
}

/// The characters of a string.
pub fn chars_of(s: &str) -> (out: Vec<char>)
    ensures
        out@ == s@,
{
    let mut out: Vec<char> = Vec::new();
    for c in iter: s.chars()
        invariant
            iter.seq() == s@,
            out@ == s@.take(iter.index() as int),
    {
        out.push(c);
        assert(s@.take(iter.index() + 1) =~= s@.take(iter.index() as int).push(c));
    }
    assert(s@.take(s@.len() as int) =~= s@);
    out
}

/// The string of `chars[from..to]`.
pub fn string_of(chars: &[char], from: usize, to: usize) -> (out: String)
    requires
        from <= to <= chars@.len(),
    ensures
        out@ == chars@.subrange(from as int, to as int),
{
    let mut out = String::new();
    let mut i: usize = from;
    while i < to
        invariant
            from <= i <= to <= chars@.len(),
            out@ =~= chars@.subrange(from as int, i as int),
        decreases to - i,
    {
        out.push(chars[i]);
        i += 1;
    }
    out
}

/// `pat` stands in `s` at index `at`.
pub open spec fn occurs_at(s: Seq<char>, at: int, pat: Seq<char>) -> bool {
    &&& 0 <= at
    &&& at + pat.len() <= s.len()
    &&& s.subrange(at, at + pat.len()) == pat
}

/// Whether `pat` stands in `s` at index `at`.
pub fn matches_at(s: &[char], at: usize, pat: &[char]) -> (b: bool)
    ensures
        b == occurs_at(s@, at as int, pat@),
{
    let n: usize = s.len();
    let m: usize = pat.len();
    if at > n || m > n - at {
        return false;
    }
    let mut i: usize = 0;
    while i < m
        invariant
            0 <= i <= m,
            m == pat@.len(),
            n == s@.len(),
            at + m <= n,
            forall|j: int| 0 <= j < i ==> s@[at + j] == pat@[j],
        decreases m - i,
    {
        if s[at + i] != pat[i] {
            assert(s@.subrange(at as int, at + m)[i as int] != pat@[i as int]);
            return false;
        }
        i += 1;
    }
    assert(s@.subrange(at as int, at + m) =~= pat@);
    true
}

/// The first index from `from` on at which `pat` stands in `s`, if it
/// stands anywhere from there on.
pub open spec fn first_from(s: Seq<char>, pat: Seq<char>, from: int) -> Option<int>
    decreases s.len() + 1 - from,
{
    if from < 0 || from + pat.len() > s.len() {
        None
    } else if occurs_at(s, from, pat) {
        Some(from)
    } else {
        first_from(s, pat, from + 1)
    }
}

/// What `first_from` finds is the first occurrence, and where it finds
/// nothing there is none.
pub proof fn lemma_first_from(s: Seq<char>, pat: Seq<char>, from: int)
    requires
        0 <= from,
    ensures
        match first_from(s, pat, from) {
            Some(i) => from <= i && occurs_at(s, i, pat) && forall|j: int|
                from <= j < i ==> !occurs_at(s, j, pat),
            None => forall|j: int| from <= j ==> !occurs_at(s, j, pat),
        },
    decreases s.len() + 1 - from,
{
    if from + pat.len() > s.len() {
    } else if occurs_at(s, from, pat) {
    } else {
        lemma_first_from(s, pat, from + 1);
    }
}

/// Finds the first index from `from` on at which `pat` stands in `s`.
pub fn find_from(s: &[char], pat: &[char], from: usize) -> (r: Option<usize>)
    ensures
        match r {
            Some(i) => first_from(s@, pat@, from as int) == Some(i as int),
            None => first_from(s@, pat@, from as int) is None,
        },
{
    let n: usize = s.len();
    let m: usize = pat.len();
    if from > n || m > n - from {
        return None;
    }
    let last: usize = n - m;
    let mut i: usize = from;
    loop
        invariant
            from <= i <= last,
            last == n - m,
            n == s@.len(),
            m == pat@.len(),
            first_from(s@, pat@, from as int) == first_from(s@, pat@, i as int),
        decreases last - i,
    {
        if matches_at(s, i, pat) {
            return Some(i);
        }
        if i == last {
            assert(first_from(s@, pat@, i + 1) is None);
            return None;
        }
        i += 1;
    }
}

/// The character is one of the ten decimal digits.
pub open spec fn is_digit(c: char) -> bool {
    48 <= c as u32 <= 57
}

/// Every character of `s` is a decimal digit.
pub open spec fn all_digits(s: Seq<char>) -> bool {
    forall|i: int| 0 <= i < s.len() ==> is_digit(#[trigger] s[i])
}

/// The number that the digits of `s` write in decimal.
pub open spec fn digits_value(s: Seq<char>) -> nat
    decreases s.len(),
{
    if s.len() == 0 {
        0
    } else {
        digits_value(s.drop_last()) * 10 + (s.last() as u32 - 48) as nat
    }
}

/// `s` without the plus sign before it, if there is one.
pub open spec fn unsigned_part(s: Seq<char>) -> Seq<char> {
    if s.len() > 0 && s[0] == '+' {
        s.skip(1)
    } else {
        s
    }
}

/// The number that `s` writes, if it writes one that is at most `max`: one
/// or more decimal digits, with or without a plus sign before them.
pub open spec fn number_of(s: Seq<char>, max: nat) -> Option<nat> {
    let digits = unsigned_part(s);
    if digits.len() > 0 && all_digits(digits) && digits_value(digits) <= max {
        Some(digits_value(digits))
    } else {
        None
    }
}

/// The digits read so far never write more than all the digits do.
proof fn lemma_digits_grow(s: Seq<char>, k: int)
    requires
        0 <= k <= s.len(),
        all_digits(s),
    ensures
        digits_value(s.take(k)) <= digits_value(s),
    decreases s.len() - k,
{
    if k == s.len() {
        assert(s.take(k) =~= s);
    } else {
        lemma_digits_grow(s, k + 1);
        assert(s.take(k + 1).drop_last() =~= s.take(k));
        assert(is_digit(s[k]));
        assert(s.take(k + 1).last() == s[k]);
    }
}

/// Reads a decimal number: what `str::parse` reads as a `u64`.
pub fn parse_u64(s: &[char]) -> (r: Option<u64>)
    ensures
        match r {
            Some(v) => number_of(s@, u64::MAX as nat) == Some(v as nat),
            None => number_of(s@, u64::MAX as nat) is None,
        },
{
    let n: usize = s.len();
    let start: usize = if n > 0 && s[0] == '+' { 1 } else { 0 };
    if start == n {
        return None;
    }
    let ghost digits = s@.skip(start as int);
    let mut value: u64 = 0;
    let mut i: usize = start;
    assert(digits.take(0) =~= Seq::<char>::empty());
    assert(digits =~= unsigned_part(s@));
    while i < n
        invariant
            start <= i <= n,
            n == s@.len(),
            digits == s@.skip(start as int),
            digits == unsigned_part(s@),
            all_digits(digits.take(i - start)),
            value == digits_value(digits.take(i - start)),
        decreases n - i,
    {
        let c: char = s[i];
        let code: u32 = c as u32;
        assert(digits[i - start] == c);
        if code < 48 || code > 57 {
            assert(!is_digit(digits[i - start]));
            return None;
        }
        let d: u64 = (code - 48) as u64;
        proof {
            let next = digits.take(i - start + 1);
            assert(next.drop_last() =~= digits.take(i - start));
            assert(next.last() == c);
            assert(all_digits(next)) by {
                assert forall|j: int| 0 <= j < next.len() implies is_digit(#[trigger] next[j]) by {
                    if j < i - start {
                        assert(next[j] == digits.take(i - start)[j]);
                    }
                }
            }
            if all_digits(digits) {
                lemma_digits_grow(digits, i - start + 1);
            }
        }
        if value > (u64::MAX - d) / 10 {
            return None;
        }
        value = value * 10 + d;
        i += 1;
    }
    assert(digits.take(n - start) =~= digits);
    Some(value)
}

/// Reads a decimal number that fits a `u32`.
pub fn parse_u32(s: &[char]) -> (r: Option<u32>)
    ensures
        match r {
            Some(v) => number_of(s@, u32::MAX as nat) == Some(v as nat),
            None => number_of(s@, u32::MAX as nat) is None,
        },
{
    match parse_u64(s) {
        Some(v) => if v <= u32::MAX as u64 {
            Some(v as u32)
        } else {
            None
        },
        None => None,
    }
}

/// The parts of `s` between the occurrences of `sep`, found from the left:
/// all of `s` where `sep` does not occur, or is empty.
pub open spec fn split(s: Seq<char>, sep: Seq<char>) -> Seq<Seq<char>>
    decreases s.len(),
{
    match first_from(s, sep, 0) {
        Some(i) => if sep.len() > 0 && 0 <= i && i + sep.len() <= s.len() {
            seq![s.take(i)] + split(s.skip(i + sep.len()), sep)
        } else {
            seq![s]
        },
        None => seq![s],
    }
}

/// The character sequences that the vectors hold, in order.
pub open spec fn views_of(parts: Seq<Vec<char>>) -> Seq<Seq<char>> {
    Seq::new(parts.len(), |i: int| parts[i]@)
}

/// Searching `s` from `k` on finds what searching the rest of `s` behind
/// `k` finds, `k` further on.
proof fn lemma_first_from_skip(s: Seq<char>, sep: Seq<char>, k: int)
    requires
        0 <= k <= s.len(),
    ensures
        match first_from(s.skip(k), sep, 0) {
            Some(i) => first_from(s, sep, k) == Some(i + k),
            None => first_from(s, sep, k) is None,
        },
{
    lemma_first_from(s.skip(k), sep, 0);
    lemma_first_from(s, sep, k);
    assert forall|j: int| 0 <= j implies occurs_at(s.skip(k), j, sep) == occurs_at(
        s,
        j + k,
        sep,
    ) by {
        if j + sep.len() <= s.len() - k {
            assert(s.skip(k).subrange(j, j + sep.len()) =~= s.subrange(j + k, j + k + sep.len()));
        }
    }
    match first_from(s.skip(k), sep, 0) {
        Some(i) => {
            assert(occurs_at(s, i + k, sep));
            match first_from(s, sep, k) {
                Some(j) => {
                    assert(occurs_at(s.skip(k), j - k, sep));
                    if j < i + k {
                        assert(!occurs_at(s.skip(k), j - k, sep));
                    }
                    if i + k < j {
                        assert(!occurs_at(s, i + k, sep));
                    }
                },
                None => {},
            }
        },
        None => {
            match first_from(s, sep, k) {
                Some(j) => {
                    assert(occurs_at(s.skip(k), j - k, sep));
                },
                None => {},
            }
        },
    }
}

/// Cuts `s` at every occurrence of `sep`, found from the left.
pub fn split_chars(s: &[char], sep: &[char]) -> (parts: Vec<Vec<char>>)
    ensures
        views_of(parts@) == split(s@, sep@),
{
    let n: usize = s.len();
    let m: usize = sep.len();
    let mut parts: Vec<Vec<char>> = Vec::new();
    let mut start: usize = 0;
    assert(s@.skip(0) =~= s@);
    assert(views_of(parts@) + split(s@.skip(0), sep@) =~= split(s@, sep@));
    loop
        invariant
            0 <= start <= n,
            n == s@.len(),
            m == sep@.len(),
            views_of(parts@) + split(s@.skip(start as int), sep@) == split(s@, sep@),
        decreases n - start,
    {
        let ghost rest = s@.skip(start as int);
        let ghost done = views_of(parts@);
        proof {
            lemma_first_from_skip(s@, sep@, start as int);
            lemma_first_from(s@, sep@, start as int);
        }
        let found = if m > 0 { find_from(s, sep, start) } else { None };
        match found {
            Some(i) => {
                parts.push(copy_chars(s, start, i));
                proof {
                    assert(rest.take(i - start) =~= s@.subrange(start as int, i as int));
                    assert(rest.skip(i - start + m) =~= s@.skip(i + m));
                    assert(views_of(parts@) =~= done + seq![rest.take(i - start)]);
                    assert(split(rest, sep@) == seq![rest.take(i - start)] + split(
                        rest.skip(i - start + m),
                        sep@,
                    ));
                    assert(views_of(parts@) + split(s@.skip(i + m), sep@) =~= done + split(
                        rest,
                        sep@,
                    ));
                }
                start = i + m;
            },
            None => {
                parts.push(copy_chars(s, start, n));
                proof {
                    assert(rest =~= s@.subrange(start as int, n as int));
                    assert(split(rest, sep@) == seq![rest]);
                    assert(views_of(parts@) =~= done + seq![rest]);
                }
                return parts;
            },
        }
    }
}

/// A copy of `s[from..to]`.
pub fn copy_chars(s: &[char], from: usize, to: usize) -> (out: Vec<char>)
    requires
        from <= to <= s@.len(),
    ensures
        out@ == s@.subrange(from as int, to as int),
{
    let mut out: Vec<char> = Vec::new();
    let mut i: usize = from;
    while i < to
        invariant
            from <= i <= to <= s@.len(),
            out@ =~= s@.subrange(from as int, i as int),
        decreases to - i,
    {
        out.push(s[i]);
        i += 1;
    }
    out
}

/// Whether the characters are those of the string.
pub fn is_str(chars: &[char], s: &str) -> (b: bool)
    ensures
        b == (chars@ == s@),
{
    let other = chars_of(s);
    if chars.len() != other.len() {
        return false;
    }
    let b = matches_at(chars, 0, other.as_slice());
    assert(chars@.subrange(0, chars@.len() as int) =~= chars@);
    b
}

/// Appends `chars[from..]` to `out`.
pub fn push_chars(out: &mut String, chars: &[char], from: usize)
    requires
        from <= chars@.len(),
    ensures
        final(out)@ == old(out)@ + chars@.skip(from as int),
{
    let n: usize = chars.len();
    let mut i: usize = from;
    while i < n
        invariant
            from <= i <= n,
            n == chars@.len(),
            out@ =~= old(out)@ + chars@.subrange(from as int, i as int),
        decreases n - i,
    {
        out.push(chars[i]);
        i += 1;
    }
    assert(chars@.subrange(from as int, n as int) =~= chars@.skip(from as int));
}

/// The parts with `with` between them.
pub open spec fn join(parts: Seq<Seq<char>>, with: Seq<char>) -> Seq<char>
    decreases parts.len(),
{
    if parts.len() == 0 {
        Seq::empty()
    } else if parts.len() == 1 {
        parts[0]
    } else {
        join(parts.drop_last(), with) + with + parts.last()
    }
}

/// `s` with `with` in place of every occurrence of `pat`, found from the
/// left; `s` itself where `pat` is empty.
pub open spec fn replaced(s: Seq<char>, pat: Seq<char>, with: Seq<char>) -> Seq<char> {
    join(split(s, pat), with)
}

/// Puts `with` in place of every occurrence of `pat` in `s`.
pub fn replace_all(s: &str, pat: &str, with: &str) -> (out: String)
    ensures
        out@ == replaced(s@, pat@, with@),
{
    let chars = chars_of(s);
    let sep = chars_of(pat);
    let parts = split_chars(chars.as_slice(), sep.as_slice());
    let ghost all = views_of(parts@);
    let n: usize = parts.len();
    let mut out = String::new();
    let mut i: usize = 0;
    assert(all.take(0) =~= Seq::<Seq<char>>::empty());
    while i < n
        invariant
            0 <= i <= n,
            n == parts@.len(),
            all == views_of(parts@),
            out@ == join(all.take(i as int), with@),
        decreases n - i,
    {
        proof {
            assert(all.take(i + 1).drop_last() =~= all.take(i as int));
            assert(all.take(i + 1).last() == parts@[i as int]@);
            if i == 0 {
                assert(all.take(1)[0] == parts@[0]@);
            }
        }
        if i > 0 {
            out.append(with);
        }
        push_chars(&mut out, parts[i].as_slice(), 0);
        assert(parts@[i as int]@.skip(0) =~= parts@[i as int]@);
        i += 1;
        assert(out@ =~= join(all.take(i as int), with@));
    }
    assert(all.take(n as int) =~= all);
    out
}

/// The character of a digit has the digit's code.
proof fn lemma_digit_code(d: nat)
    requires
        d < 10,
    ensures
        digit_char(d) as u32 == 48 + d,
        is_digit(digit_char(d)),
{
    assert('0' as u32 == 48 && '1' as u32 == 49 && '2' as u32 == 50 && '3' as u32 == 51);
    assert('4' as u32 == 52 && '5' as u32 == 53 && '6' as u32 == 54 && '7' as u32 == 55);
    assert('8' as u32 == 56 && '9' as u32 == 57);
}

/// A number in decimal is digits only, at least one, and they write the
/// number.
pub proof fn lemma_decimal_digits(n: nat)
    ensures
        decimal(n).len() > 0,
        all_digits(decimal(n)),
        digits_value(decimal(n)) == n,
    decreases n,
{
    if n < 10 {
        lemma_digit_code(n);
        assert(decimal(n) =~= seq![digit_char(n)]);
        assert(decimal(n).drop_last() =~= Seq::<char>::empty());
        assert(decimal(n).last() == digit_char(n));
        assert(digits_value(Seq::<char>::empty()) == 0);
    } else {
        lemma_decimal_digits(n / 10);
        lemma_digit_code(n % 10);
        let s = decimal(n / 10);
        let c = digit_char(n % 10);
        assert(decimal(n) == s.push(c));
        assert(s.push(c).drop_last() =~= s);
        assert(s.push(c).last() == c);
        assert forall|i: int| 0 <= i < s.push(c).len() implies is_digit(
            #[trigger] s.push(c)[i],
        ) by {
            if i < s.len() {
                assert(s.push(c)[i] == s[i]);
            }
        }
    }
}

/// What is written in decimal is read back as the same number.
pub proof fn law_decimal_reads_back(n: nat, max: nat)
    requires
        n <= max,
    ensures
        number_of(decimal(n), max) == Some(n),
{
    lemma_decimal_digits(n);
    assert(is_digit(decimal(n)[0]));
}

/// Joining parts behind a first part puts the first part and the
/// separator before them.
proof fn lemma_join_first(first: Seq<char>, parts: Seq<Seq<char>>, with: Seq<char>)
    requires
        parts.len() > 0,
    ensures
        join(seq![first] + parts, with) == first + with + join(parts, with),
    decreases parts.len(),
{
    let all = seq![first] + parts;
    assert(all.last() == parts.last());
    assert(all.drop_last() =~= seq![first] + parts.drop_last());
    if parts.len() == 1 {
        assert(all.drop_last() =~= seq![first]);
        assert(join(all.drop_last(), with) == first);
        assert(join(parts, with) == parts[0]);
    } else {
        lemma_join_first(first, parts.drop_last(), with);
        assert(join(all, with) =~= first + with + join(parts, with));
    }
}

/// A string that is cut at a separator always has a part.
proof fn lemma_split_has_a_part(s: Seq<char>, sep: Seq<char>)
    ensures
        split(s, sep).len() > 0,
{
}

/// Cutting a string at a separator and joining the parts with it gives the
/// string back. So a string in which nothing is replaced by itself is
/// unchanged.
pub proof fn law_join_undoes_split(s: Seq<char>, sep: Seq<char>)
    ensures
        join(split(s, sep), sep) == s,
        replaced(s, sep, sep) == s,
    decreases s.len(),
{
    lemma_first_from(s, sep, 0);
    match first_from(s, sep, 0) {
        Some(i) => {
            if sep.len() > 0 && 0 <= i && i + sep.len() <= s.len() {
                let rest = s.skip(i + sep.len());
                law_join_undoes_split(rest, sep);
                lemma_split_has_a_part(rest, sep);
                lemma_join_first(s.take(i), split(rest, sep), sep);
                assert(s.take(i) + sep + rest =~= s) by {
                    assert(s.subrange(i, i + sep.len()) == sep);
                    assert forall|k: int| 0 <= k < s.len() implies (s.take(i) + sep + rest)[k]
                        == s[k] by {
                        if i <= k < i + sep.len() {
                            assert(s.subrange(i, i + sep.len())[k - i] == s[k]);
                        }
                    }
                }
            }
        },
        None => {},
    }
}

} // verus!
