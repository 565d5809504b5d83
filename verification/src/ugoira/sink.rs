//! The byte sink behind the muxer: append, seek back, overwrite.

use vstd::prelude::*;
use crate::ugoira::bytes::{copy_to_front, overlay, zero_extend};

verus! {

/// The point a seek offset is measured from.
#[derive(Clone, Copy, Debug, PartialEq, Eq, Structural)]
pub enum Whence {
    Start,
    Current,
    End,
}

impl Whence {
    /// The origin that the muxer's numeric code stands for: 0, 1 and 2 are
    /// start, current position and end; no other code names an origin.
    pub open spec fn spec_from_raw(raw: i32) -> Option<Whence> {
        if raw == 0 {
            Some(Whence::Start)
        } else if raw == 1 {
            Some(Whence::Current)
        } else if raw == 2 {
            Some(Whence::End)
        } else {
            None
        }
    }

    #[verifier::when_used_as_spec(spec_from_raw)]
    pub fn from_raw(raw: i32) -> (r: Option<Whence>)
        ensures
            r == Self::spec_from_raw(raw),
    {
        if raw == 0 {
            Some(Whence::Start)
        } else if raw == 1 {
            Some(Whence::Current)
        } else if raw == 2 {
            Some(Whence::End)
        } else {
            None
        }
    }
}

/// What a sink is, as mathematics: the bytes stored, the write cursor inside
/// them, and the distance past the end that the last seek asked for.
pub struct SinkView {
    pub bytes: Seq<u8>,
    pub cursor: nat,
    pub gap: nat,
}

impl SinkView {
    /// The cursor lies inside the stored bytes, and a gap is pending only
    /// while the cursor stands at their end.
    pub open spec fn wf(self) -> bool {
        &&& self.cursor <= self.bytes.len()
        &&& self.gap > 0 ==> self.cursor == self.bytes.len()
    }

    /// Where the next write will put its first byte.
    pub open spec fn position(self) -> nat {
        self.cursor + self.gap
    }

    /// The sink after `data` is written: a pending gap is filled with
    /// zeros, `data` replaces what it covers and extends the bytes where it
    /// reaches past their end, and the cursor stands behind `data`.
    pub open spec fn write(self, data: Seq<u8>) -> SinkView {
        SinkView {
            bytes: overlay(zero_extend(self.bytes, self.position()), self.position(), data),
            cursor: self.position() + data.len(),
            gap: 0,
        }
    }

    /// The position a seek aims at, before it is held to the stored length:
    /// the origin plus the offset, never below zero and never above `limit`.
    pub open spec fn seek_target(self, offset: int, whence: Whence, limit: nat) -> nat {
        let base: int = match whence {
            Whence::Start => 0,
            Whence::Current => self.cursor as int,
            Whence::End => self.bytes.len() as int,
        };
        let target = base + offset;
        if target < 0 {
            0
        } else if target > limit {
            limit
        } else {
            target as nat
        }
    }

    /// The sink after a seek: the bytes are untouched, the cursor is the
    /// target held to the stored length, and what the target lies past the
    /// end is kept as the gap for the next write to fill.
    pub open spec fn seek(self, offset: int, whence: Whence, limit: nat) -> SinkView {
        let target = self.seek_target(offset, whence, limit);
        if target <= self.bytes.len() {
            SinkView { bytes: self.bytes, cursor: target, gap: 0 }
        } else {
            SinkView {
                bytes: self.bytes,
                cursor: self.bytes.len(),
                gap: (target - self.bytes.len()) as nat,
            }
        }
    }

    /// The bytes that a read of at most `max` bytes returns: those from the
    /// cursor on, as far as they are stored.
    pub open spec fn readable(self, max: nat) -> Seq<u8> {
        let end = if self.cursor + max <= self.bytes.len() {
            (self.cursor + max) as int
        } else {
            self.bytes.len() as int
        };
        self.bytes.subrange(self.cursor as int, end)
    }

    /// The sink after a read of at most `max` bytes: only the cursor moves,
    /// behind what was read, and a pending gap is kept.
    pub open spec fn read(self, max: nat) -> SinkView {
        SinkView {
            bytes: self.bytes,
            cursor: self.cursor + self.readable(max).len(),
            gap: self.gap,
        }
    }
}

/// A write touches only the bytes it covers: every byte stored before, and
/// not under `data`, is the same afterwards; the bytes under `data` are
/// `data`; and the sink is as long as the further of its old end and the
/// end of `data`.
pub proof fn law_write_is_local(s: SinkView, data: Seq<u8>)
    requires
        s.wf(),
    ensures
        s.write(data).wf(),
        s.write(data).bytes.len() == if s.position() + data.len() > s.bytes.len() {
            s.position() + data.len()
        } else {
            s.bytes.len()
        },
        forall|i: int|
            0 <= i < s.bytes.len() && !(s.position() <= i < s.position() + data.len())
                ==> s.write(data).bytes[i] == s.bytes[i],
        forall|i: int|
            s.position() <= i < s.position() + data.len() ==> s.write(data).bytes[i] == data[i
                - s.position()],
        forall|i: int| s.bytes.len() <= i < s.position() ==> s.write(data).bytes[i] == 0u8,
{
}

/// A seek never changes a byte nor the length, and leaves the cursor
/// between 0 and the length.
pub proof fn law_seek_keeps_bytes(s: SinkView, offset: int, whence: Whence, limit: nat)
    requires
        s.wf(),
    ensures
        s.seek(offset, whence, limit).wf(),
        s.seek(offset, whence, limit).bytes == s.bytes,
        s.seek(offset, whence, limit).cursor <= s.bytes.len(),
{
}

/// A read never changes a byte nor the length.
pub proof fn law_read_keeps_bytes(s: SinkView, max: nat)
    requires
        s.wf(),
    ensures
        s.read(max).wf(),
        s.read(max).bytes == s.bytes,
        s.readable(max).len() <= max,
{
}

/// Write, seek to the start, read back, seek to the end: the read returns
/// what the sink holds from its start, which where the write began at 0 is
/// the data written; no byte changes after the write; and the cursor ends
/// where the stored bytes end.
pub proof fn law_write_seek_read_seek(s: SinkView, data: Seq<u8>, max: nat, limit: nat)
    requires
        s.wf(),
        s.bytes.len() <= limit,
        s.position() + data.len() <= limit,
    ensures
        ({
            let written = s.write(data);
            let rewound = written.seek(0, Whence::Start, limit);
            let read = rewound.read(max);
            let back = read.seek(0, Whence::End, limit);
            &&& rewound.cursor == 0
            &&& rewound.readable(max) == written.bytes.take(
                if max <= written.bytes.len() {
                    max as int
                } else {
                    written.bytes.len() as int
                },
            )
            &&& s.position() == 0 && max == data.len() ==> rewound.readable(max) == data
            &&& back.bytes == written.bytes
            &&& back.cursor == written.bytes.len()
            &&& back.gap == 0
        }),
{
    let written = s.write(data);
    let rewound = written.seek(0, Whence::Start, limit);
    assert(rewound.cursor == 0);
    let n = if max <= written.bytes.len() {
        max as int
    } else {
        written.bytes.len() as int
    };
    assert(rewound.readable(max) =~= written.bytes.take(n));
    if s.position() == 0 && max == data.len() {
        assert(rewound.readable(max) =~= data);
    }
}

/// What was written can be read back from where it was written: after a
/// write, a seek to the position the write began at, and a read of as many
/// bytes as were written, the read returns the data.
pub proof fn law_read_back_what_was_written(s: SinkView, data: Seq<u8>, limit: nat)
    requires
        s.wf(),
        s.position() + data.len() <= limit,
    ensures
        s.write(data).seek(s.position() as int, Whence::Start, limit).readable(data.len())
            == data,
{
    let written = s.write(data);
    let at = written.seek(s.position() as int, Whence::Start, limit);
    assert(at.cursor == s.position());
    assert(at.readable(data.len()) =~= data);
}

/// A growable byte store with a cursor: the muxer appends its output, seeks
/// back to patch what it wrote, and seeks to the end again.
pub struct VideoSink {
    buf: Vec<u8>,
    cursor: usize,
    gap: usize,
}

impl View for VideoSink {
    type V = SinkView;

    closed spec fn view(&self) -> SinkView {
        SinkView { bytes: self.buf@, cursor: self.cursor as nat, gap: self.gap as nat }
    }
}

impl VideoSink {
    /// The invariant of every sink that this module hands out.
    pub closed spec fn wf(&self) -> bool {
        &&& self@.wf()
        &&& self.cursor + self.gap <= usize::MAX
    }

    /// An empty sink with the cursor at 0.
    pub fn new() -> (s: VideoSink)
        ensures
            s.wf(),
            s@ == (SinkView { bytes: Seq::empty(), cursor: 0, gap: 0 }),
    {
        VideoSink { buf: Vec::new(), cursor: 0, gap: 0 }
    }

    /// The number of bytes stored.
    pub fn len(&self) -> (n: usize)
        ensures
            n == self@.bytes.len(),
    {
        self.buf.len()
    }

    /// The write cursor.
    pub fn position(&self) -> (p: usize)
        requires
            self.wf(),
        ensures
            p == self@.cursor,
            p <= self@.bytes.len(),
    {
        self.cursor
    }

    /// The bytes stored so far.
    pub fn as_slice(&self) -> (s: &[u8])
        ensures
            s@ == self@.bytes,
    {
        self.buf.as_slice()
    }

    /// Whether `len` more bytes can be written where the cursor stands: the
    /// end of what would be written must be an index the machine has.
    pub fn can_write(&self, len: usize) -> (b: bool)
        requires
            self.wf(),
        ensures
            b == (self@.position() + len <= usize::MAX),
    {
        len <= usize::MAX - self.cursor - self.gap
    }

    /// Writes `data` at the cursor and returns how many bytes were written,
    /// which is all of them.
    pub fn write(&mut self, data: &[u8]) -> (n: usize)
        requires
            old(self).wf(),
            old(self)@.position() + data@.len() <= usize::MAX,
        ensures
            final(self).wf(),
            final(self)@ == old(self)@.write(data@),
            n == data@.len(),
    {
        let pos: usize = self.cursor + self.gap;
        while self.buf.len() < pos
            invariant
                self.cursor == old(self).cursor,
                self.gap == old(self).gap,
                pos == self.cursor + self.gap,
                old(self).wf(),
                self.buf@.len() >= old(self).buf@.len(),
                self.buf@.len() <= pos || self.buf@ == old(self).buf@,
                self.buf@ =~= old(self).buf@ + Seq::new(
                    (self.buf@.len() - old(self).buf@.len()) as nat,
                    |i: int| 0u8,
                ),
            decreases pos - self.buf.len(),
        {
            self.buf.push(0u8);
        }
        assert(self.buf@ =~= zero_extend(old(self).buf@, pos as nat));
        let ghost filled = self.buf@;
        let mut i: usize = 0;
        while i < data.len()
            invariant
                0 <= i <= data@.len(),
                pos + data@.len() <= usize::MAX,
                pos <= filled.len(),
                self.cursor == old(self).cursor,
                self.gap == old(self).gap,
                self.buf@ =~= overlay(filled, pos as nat, data@.subrange(0, i as int)),
            decreases data@.len() - i,
        {
            let b: u8 = data[i];
            if pos + i < self.buf.len() {
                self.buf[pos + i] = b;
            } else {
                self.buf.push(b);
            }
            i += 1;
        }
        assert(data@.subrange(0, i as int) =~= data@);
        self.cursor = pos + data.len();
        self.gap = 0;
        data.len()
    }

    /// Moves the cursor to `offset` from `whence`, held between 0 and the
    /// stored length, and returns it. A target past the end is remembered:
    /// the next write fills the gap with zeros first.
    pub fn seek(&mut self, offset: i64, whence: Whence) -> (p: u64)
        requires
            old(self).wf(),
        ensures
            final(self).wf(),
            final(self)@ == old(self)@.seek(offset as int, whence, usize::MAX as nat),
            p == final(self)@.cursor,
    {
        let len: usize = self.buf.len();
        let base: usize = match whence {
            Whence::Start => 0,
            Whence::Current => self.cursor,
            Whence::End => len,
        };
        let target: usize = if offset < 0 {
            let back: u64 = if offset == i64::MIN {
                0x8000_0000_0000_0000u64
            } else {
                (0 - offset) as u64
            };
            if back >= base as u64 {
                0
            } else {
                base - back as usize
            }
        } else {
            let forth: u64 = offset as u64;
            if forth >= (usize::MAX - base) as u64 {
                usize::MAX
            } else {
                base + forth as usize
            }
        };
        if target <= len {
            self.cursor = target;
            self.gap = 0;
        } else {
            self.cursor = len;
            self.gap = target - len;
        }
        self.cursor as u64
    }

    /// Copies the stored bytes from the cursor on into `buf`, as many as
    /// there are and as `buf` holds, moves the cursor behind them and
    /// returns their number.
    pub fn read(&mut self, buf: &mut [u8]) -> (n: usize)
        requires
            old(self).wf(),
        ensures
            final(self).wf(),
            final(self)@ == old(self)@.read(old(buf)@.len()),
            n == old(self)@.readable(old(buf)@.len()).len(),
            final(buf)@ == overlay(old(buf)@, 0, old(self)@.readable(old(buf)@.len())),
    {
        let avail: usize = self.buf.len() - self.cursor;
        let n: usize = if buf.len() < avail { buf.len() } else { avail };
        let start: usize = self.cursor;
        copy_to_front(buf, self.buf.as_slice(), start, n);
        self.cursor = start + n;
        n
    }

    /// Gives up the sink for the bytes stored in it.
    pub fn into_bytes(self) -> (bytes: Vec<u8>)
        ensures
            bytes@ == self@.bytes,
    {
        self.buf
    }
}

} // verus!
