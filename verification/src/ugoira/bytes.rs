//! Byte sequences laid over one another, and the copies that do it.

use vstd::prelude::*;

verus! {

/// `bytes`, with zeros added behind it until it is `len` long; unchanged if
/// it is that long already.
pub open spec fn zero_extend(bytes: Seq<u8>, len: nat) -> Seq<u8> {
    if bytes.len() >= len {
        bytes
    } else {
        bytes + Seq::new((len - bytes.len()) as nat, |i: int| 0u8)
    }
}

/// `bytes` with `data` laid over it from index `at` on. Where `data` reaches
/// past the end, the result is longer.
pub open spec fn overlay(bytes: Seq<u8>, at: nat, data: Seq<u8>) -> Seq<u8>
    recommends
        at <= bytes.len(),
{
    let end = at + data.len();
    let len = if end > bytes.len() {
        end
    } else {
        bytes.len()
    };
    Seq::new(len, |i: int| if at <= i < end { data[i - at] } else { bytes[i] })
}

/// Copies `src[from..from + n]` to the front of `buf`.
pub fn copy_to_front(buf: &mut [u8], src: &[u8], from: usize, n: usize)
    requires
        from + n <= src@.len(),
        n <= old(buf)@.len(),
    ensures
        final(buf)@ == overlay(old(buf)@, 0, src@.subrange(from as int, from + n)),
        final(buf)@.len() == old(buf)@.len(),
{
    let len: usize = src.len();
    let mut i: usize = 0;
    while i < n
        invariant
            0 <= i <= n,
            from + n <= len == src@.len(),
            n <= buf@.len(),
            buf@.len() == old(buf)@.len(),
            buf@ =~= overlay(old(buf)@, 0, src@.subrange(from as int, from + i)),
        decreases n - i,
    {
        buf[i] = src[from + i];
        i += 1;
    }
}

/// A copy of `src[from..to]`.
pub fn copy_range(src: &[u8], from: usize, to: usize) -> (out: Vec<u8>)
    requires
        from <= to <= src@.len(),
    ensures
        out@ == src@.subrange(from as int, to as int),
{
    let len: usize = src.len();
    let mut out: Vec<u8> = Vec::new();
    let mut i: usize = from;
    while i < to
        invariant
            from <= i <= to <= len == src@.len(),
            out@ =~= src@.subrange(from as int, i as int),
        decreases to - i,
    {
        out.push(src[i]);
        i += 1;
    }
    out
}

} // verus!
