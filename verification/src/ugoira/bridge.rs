//! The bridge between the archive, the decoder and the encoder: one context
//! for one transcode, driven from outside call by call.

use vstd::prelude::*;
use crate::api::ugoira::UgoiraFrame;
use crate::ugoira::archive::{
    entry_content,
    entry_header,
    has_local_signature,
    header_offset,
    law_arrivals_keep_the_entries,
    payload,
    ArchiveFrameSource,
    SourceView,
};
use crate::ugoira::bytes::overlay;
use crate::ugoira::decode::{
    decode_frame,
    decodes_to,
    may_decode,
    signature_matches,
    DecodedFrame,
    FrameView,
    ImageCodec,
};
use crate::ugoira::error::{
    ArchiveError,
    DecodeError,
    EncodeError,
    MetadataError,
    TranscodeError,
};
use crate::ugoira::sink::{SinkView, VideoSink, Whence};
use crate::ugoira::timeline::{
    describe_frames,
    descriptors_of,
    in_order,
    law_windows_tile_the_timeline,
    lemma_start_of_bound,
    lemma_start_of_next,
    start_of,
    total_duration,
    FrameDescriptor,
};

verus! {

/// The place of one frame on the timeline: its index, when it begins and
/// how long it stays visible before the next one begins.
#[derive(Clone, Copy, Debug, PartialEq, Eq, Structural)]
pub struct FrameSlot {
    pub index: u32,
    pub start_ms: u64,
    pub duration_ms: u16,
}

/// A decoded frame with its place on the timeline.
pub struct TimedFrame {
    pub slot: FrameSlot,
    pub frame: DecodedFrame,
}

/// The slot of frame `i` of `frames`.
pub open spec fn slot_of(frames: Seq<FrameDescriptor>, i: int) -> FrameSlot
    recommends
        0 <= i < frames.len(),
{
    FrameSlot {
        index: i as u32,
        start_ms: start_of(frames, i) as u64,
        duration_ms: frames[i].duration_ms,
    }
}

/// A transcode context as mathematics.
pub struct ContextView {
    pub source: SourceView,
    pub sink: SinkView,
    pub frames: Seq<FrameDescriptor>,
    pub codec: ImageCodec,
    /// How many frames have been advanced to.
    pub next: nat,
    /// The error that ended the transcode, if one did.
    pub failed: Option<TranscodeError>,
}

impl ContextView {
    /// The context at the start of a transcode.
    pub open spec fn start(stream: Seq<u8>, codec: ImageCodec, frames: Seq<UgoiraFrame>) -> ContextView {
        ContextView {
            source: SourceView::opened(stream),
            sink: SinkView { bytes: Seq::empty(), cursor: 0, gap: 0 },
            frames: descriptors_of(frames),
            codec,
            next: 0,
            failed: None,
        }
    }

    /// There is a frame; the frames are in order; and, as long as nothing
    /// failed, the source has opened one entry for each frame advanced to
    /// and stands in the last of them.
    pub open spec fn wf(self) -> bool {
        &&& self.source.wf()
        &&& self.sink.wf()
        &&& in_order(self.frames)
        &&& 0 < self.frames.len()
        &&& self.next <= self.frames.len()
        &&& self.failed is None ==> {
            &&& self.source.next_header == header_offset(self.source.stream, self.next)
            &&& forall|j: nat| j < self.next ==> (#[trigger] entry_header(self.source.stream, j)) is Ok
            &&& self.next == 0 ==> self.source.entry is None
            &&& self.next > 0 ==> self.source.entry is Some && entry_header(
                self.source.stream,
                (self.next - 1) as nat,
            ) == Ok::<_, ArchiveError>(self.source.entry.unwrap().header)
        }
    }

    /// What `advance` returns: the error that ended the transcode earlier;
    /// `CountMismatch` where every frame of the metadata has been advanced
    /// to; the archive's error with the index of the frame that was due;
    /// else that frame's slot.
    pub open spec fn advance_result(self) -> Result<FrameSlot, TranscodeError> {
        match self.failed {
            Some(e) => Err(e),
            None => if self.next == self.frames.len() {
                Err(TranscodeError::Metadata(MetadataError::CountMismatch))
            } else {
                match self.source.advance_result() {
                    Ok(_) => Ok(slot_of(self.frames, self.next as int)),
                    Err(e) => Err(TranscodeError::Archive(self.next as u32, e)),
                }
            },
        }
    }

    /// The context after `advance`.
    pub open spec fn advance(self) -> ContextView {
        match self.failed {
            Some(_) => self,
            None => if self.next == self.frames.len() {
                ContextView {
                    failed: Some(TranscodeError::Metadata(MetadataError::CountMismatch)),
                    ..self
                }
            } else {
                match self.source.advance_result() {
                    Ok(_) => ContextView {
                        source: self.source.advance(),
                        next: self.next + 1,
                        ..self
                    },
                    Err(e) => ContextView {
                        source: self.source.advance(),
                        failed: Some(TranscodeError::Archive(self.next as u32, e)),
                        ..self
                    },
                }
            },
        }
    }

    /// What `read` returns for a buffer of `room` bytes: the error that
    /// ended the transcode earlier; the archive's error with the index of
    /// the current frame; else the number of bytes read.
    pub open spec fn read_result(self, room: nat) -> Result<nat, TranscodeError> {
        match self.failed {
            Some(e) => Err(e),
            None => match self.source.read_result(room) {
                Ok(n) => Ok(n),
                Err(e) => Err(TranscodeError::Archive((self.next - 1) as u32, e)),
            },
        }
    }

    /// The context after `read` into a buffer of `room` bytes.
    pub open spec fn read(self, room: nat) -> ContextView {
        match self.failed {
            Some(_) => self,
            None => match self.source.read_result(room) {
                Ok(_) => ContextView { source: self.source.read(room), ..self },
                Err(e) => ContextView {
                    failed: Some(TranscodeError::Archive((self.next - 1) as u32, e)),
                    ..self
                },
            },
        }
    }

    /// The bytes of the frame that is due next, before they are decoded, or
    /// why there are none: the error that ended the transcode earlier;
    /// `CountMismatch` where no frame is due; the archive's error; or
    /// `UnsupportedFormat` where the bytes lack the codec's signature.
    pub open spec fn next_frame_bytes(self) -> Result<Seq<u8>, TranscodeError> {
        match self.failed {
            Some(e) => Err(e),
            None => if self.next == self.frames.len() {
                Err(TranscodeError::Metadata(MetadataError::CountMismatch))
            } else {
                match entry_content(self.source.stream, self.next) {
                    Ok(bytes) => if signature_matches(self.codec, bytes) {
                        Ok(bytes)
                    } else {
                        Err(TranscodeError::Decode(self.next as u32, DecodeError::UnsupportedFormat))
                    },
                    Err(e) => Err(TranscodeError::Archive(self.next as u32, e)),
                }
            },
        }
    }

    /// What `finish` returns for the encoder's completion status: the
    /// error that ended the transcode earlier; the encoder's status where
    /// it is not 0; `CountMismatch` where the metadata lists frames that
    /// were not advanced to, or the archive holds an entry behind the last
    /// frame; else every byte of the sink.
    pub open spec fn finish_result(self, status: i32) -> Result<Seq<u8>, TranscodeError> {
        match self.failed {
            Some(e) => Err(e),
            None => if status != 0 {
                Err(TranscodeError::Encode(EncodeError { status }))
            } else if self.next < self.frames.len() || has_local_signature(
                self.source.stream,
                self.source.next_header as int,
            ) {
                Err(TranscodeError::Metadata(MetadataError::CountMismatch))
            } else {
                Ok(self.sink.bytes)
            },
        }
    }
}

/// The state of one transcode: the archive source, the video sink, and the
/// frame descriptors with the place reached in them. It lives for one
/// transcode and is owned by whoever drives it.
pub struct TranscodeContext {
    source: ArchiveFrameSource,
    sink: VideoSink,
    frames: Vec<FrameDescriptor>,
    codec: ImageCodec,
    next: usize,
    elapsed_ms: u64,
    failed: Option<TranscodeError>,
}

impl View for TranscodeContext {
    type V = ContextView;

    closed spec fn view(&self) -> ContextView {
        ContextView {
            source: self.source@,
            sink: self.sink@,
            frames: self.frames@,
            codec: self.codec,
            next: self.next as nat,
            failed: self.failed,
        }
    }
}

impl TranscodeContext {
    /// The invariant of every context that this module hands out.
    pub closed spec fn wf(&self) -> bool {
        &&& self@.wf()
        &&& self.source.wf()
        &&& self.sink.wf()
        &&& self.elapsed_ms == start_of(self.frames@, self.next as int)
    }

    /// A context that keeps its invariant is well-formed as mathematics.
    pub proof fn lemma_wf(&self)
        requires
            self.wf(),
        ensures
            self@.wf(),
    {
    }

    /// Sets up a transcode of the archive whose first bytes, or all, are
    /// in `stream`, and whose frames the metadata lists in `frames`. Fails before any byte is read or written
    /// where the metadata lists no frame, or more than can be numbered.
    pub fn new(stream: Vec<u8>, codec: ImageCodec, frames: &[UgoiraFrame]) -> (r: Result<
        TranscodeContext,
        TranscodeError,
    >)
        ensures
            match r {
                Ok(ctx) => {
                    &&& 0 < frames@.len() <= u32::MAX
                    &&& ctx.wf()
                    &&& ctx@ == ContextView::start(stream@, codec, frames@)
                },
                Err(e) => {
                    &&& e == TranscodeError::Metadata(MetadataError::NoFrames) <==> frames@.len()
                        == 0
                    &&& e == TranscodeError::Metadata(MetadataError::TooManyFrames)
                        <==> frames@.len() > u32::MAX
                    &&& frames@.len() == 0 || frames@.len() > u32::MAX
                },
            },
    {
        match describe_frames(frames) {
            Err(e) => Err(TranscodeError::Metadata(e)),
            Ok(descriptors) => {
                proof {
                    assert(descriptors@.take(0) =~= Seq::<FrameDescriptor>::empty());
                }
                Ok(
                    TranscodeContext {
                        source: ArchiveFrameSource::open(stream),
                        sink: VideoSink::new(),
                        frames: descriptors,
                        codec,
                        next: 0,
                        elapsed_ms: 0,
                        failed: None,
                    },
                )
            },
        }
    }

    /// The number of bytes in the sink.
    pub fn output_len(&self) -> (n: usize)
        ensures
            n == self@.sink.bytes.len(),
    {
        self.sink.len()
    }

    /// How many frames have been advanced to.
    pub fn frames_done(&self) -> (n: usize)
        ensures
            n == self@.next,
    {
        self.next
    }

    /// The error that ended the transcode, if one did.
    pub fn failure(&self) -> (e: Option<TranscodeError>)
        ensures
            e == self@.failed,
    {
        self.failed
    }

    /// Moves to the next frame: closes the current archive entry, opens
    /// the next one and returns the slot of its frame, whose duration is
    /// the time until the frame after it begins. The first error ends the
    /// transcode: it is kept, and every later call returns it.
    pub fn advance(&mut self) -> (r: Result<FrameSlot, TranscodeError>)
        requires
            old(self).wf(),
        ensures
            final(self).wf(),
            final(self)@ == old(self)@.advance(),
            r == old(self)@.advance_result(),
    {
        proof {
            self.source.lemma_wf();
        }
        match self.failed {
            Some(e) => {
                return Err(e);
            },
            None => {},
        }
        if self.next == self.frames.len() {
            let e = TranscodeError::Metadata(MetadataError::CountMismatch);
            self.failed = Some(e);
            return Err(e);
        }
        let index: usize = self.next;
        match self.source.advance() {
            Err(a) => {
                let e = TranscodeError::Archive(index as u32, a);
                self.failed = Some(e);
                Err(e)
            },
            Ok(_) => {
                let descriptor: FrameDescriptor = self.frames[index];
                let slot = FrameSlot {
                    index: index as u32,
                    start_ms: self.elapsed_ms,
                    duration_ms: descriptor.duration_ms,
                };
                proof {
                    lemma_start_of_bound(self.frames@, index as int);
                    lemma_start_of_bound(self.frames@, index + 1);
                    lemma_start_of_next(self.frames@, index as int);
                    let stream = self.source@.stream;
                    assert forall|j: nat| j < index + 1 implies (#[trigger] entry_header(
                        stream,
                        j,
                    )) is Ok by {
                        if j < index {
                            assert(old(self)@.wf());
                        }
                    }
                }
                self.elapsed_ms = self.elapsed_ms + descriptor.duration_ms as u64;
                self.next = index + 1;
                Ok(slot)
            },
        }
    }

    /// Reads raw bytes of the current frame into `buf` and returns their
    /// number, 0 at the frame's end. An error of the archive ends the
    /// transcode and carries the current frame's index.
    pub fn read(&mut self, buf: &mut [u8]) -> (r: Result<usize, TranscodeError>)
        requires
            old(self).wf(),
        ensures
            final(self).wf(),
            final(self)@ == old(self)@.read(old(buf)@.len()),
            match r {
                Ok(n) => {
                    &&& old(self)@.read_result(old(buf)@.len()) == Ok::<nat, TranscodeError>(
                        n as nat,
                    )
                    &&& final(buf)@ == overlay(
                        old(buf)@,
                        0,
                        old(self)@.source.read_bytes(old(buf)@.len()),
                    )
                },
                Err(e) => {
                    &&& old(self)@.read_result(old(buf)@.len()) == Err::<nat, TranscodeError>(e)
                    &&& final(buf)@ == old(buf)@
                },
            },
    {
        proof {
            self.source.lemma_wf();
        }
        match self.failed {
            Some(e) => {
                return Err(e);
            },
            None => {},
        }
        match self.source.read(buf) {
            Ok(n) => Ok(n),
            Err(a) => {
                let e = TranscodeError::Archive((self.next - 1) as u32, a);
                self.failed = Some(e);
                Err(e)
            },
        }
    }

    /// Moves to the next frame, reads its entry to the end and decodes it.
    /// Which bytes are decoded, and every error before the decoder is
    /// reached, is as `next_frame_bytes` says; the frame, or the decoder's
    /// error, is a result of decoding those bytes. The first error ends
    /// the transcode.
    pub fn next_frame(&mut self) -> (r: Result<TimedFrame, TranscodeError>)
        requires
            old(self).wf(),
        ensures
            final(self).wf(),
            final(self)@.sink == old(self)@.sink,
            final(self)@.frames == old(self)@.frames,
            final(self)@.codec == old(self)@.codec,
            final(self)@.source.stream == old(self)@.source.stream,
            match r {
                Ok(t) => {
                    &&& old(self)@.next_frame_bytes() is Ok
                    &&& decodes_to(
                        old(self)@.codec,
                        old(self)@.next_frame_bytes()->Ok_0,
                        Ok(t.frame@),
                    )
                    &&& t.slot == slot_of(old(self)@.frames, old(self)@.next as int)
                    &&& t.frame.wf()
                    &&& t.frame@.channels == old(self)@.codec.spec_channels()
                    &&& final(self)@.next == old(self)@.next + 1
                    &&& final(self)@.failed is None
                },
                Err(e) => {
                    &&& final(self)@.failed == Some(e)
                    &&& match old(self)@.next_frame_bytes() {
                        Ok(bytes) => {
                            &&& e is Decode
                            &&& e->Decode_0 == old(self)@.next as u32
                            &&& decodes_to(old(self)@.codec, bytes, Err(e->Decode_1))
                        },
                        Err(due) => e == due,
                    }
                },
            },
    {
        let ghost before = self@;
        let slot = match self.advance() {
            Ok(slot) => slot,
            Err(e) => {
                return Err(e);
            },
        };
        proof {
            self.source.lemma_wf();
        }
        let ghost opened = self.source@;
        let bytes = match self.source.read_to_end() {
            Ok(bytes) => bytes,
            Err(a) => {
                let e = TranscodeError::Archive(slot.index, a);
                self.failed = Some(e);
                return Err(e);
            },
        };
        proof {
            let h = opened.entry.unwrap().header;
            assert(entry_header(before.source.stream, before.next) == Ok::<_, ArchiveError>(h));
            assert(opened.pending() =~= payload(opened.stream, h).unwrap());
        }
        match decode_frame(self.codec, bytes.as_slice()) {
            Ok(frame) => Ok(TimedFrame { slot, frame }),
            Err(d) => {
                let e = TranscodeError::Decode(slot.index, d);
                self.failed = Some(e);
                Err(e)
            },
        }
    }

    /// How many bytes of the stream are missing before the next frame's
    /// entry can be opened whole, as far as a `usize` counts. Whoever
    /// holds the stream reads that many, hands them over with `extend`,
    /// and asks again, until nothing is missing or the stream has ended.
    pub fn wanted(&self) -> (n: usize)
        requires
            self.wf(),
        ensures
            n == if self@.source.wanted() <= usize::MAX {
                self@.source.wanted()
            } else {
                usize::MAX as nat
            },
    {
        self.source.wanted()
    }

    /// Takes bytes of the stream that arrived. Nothing that was opened,
    /// read or written changes. Returns whether they were taken, which
    /// they are unless the open entry was cut short.
    pub fn extend(&mut self, more: &[u8]) -> (taken: bool)
        requires
            old(self).wf(),
        ensures
            final(self).wf(),
            taken == old(self)@.source.takes_more(),
            final(self)@ == (ContextView { source: old(self)@.source.extend(more@), ..old(self)@ }),
    {
        let ghost before = self@;
        proof {
            self.source.lemma_wf();
        }
        let taken = self.source.extend(more);
        proof {
            self.source.lemma_wf();
            if taken && before.failed is None {
                let stream = before.source.stream;
                let longer = stream + more@;
                law_arrivals_keep_the_entries(stream, more@, before.next);
                assert(header_offset(longer, before.next) == header_offset(stream, before.next));
                assert forall|j: nat| j < before.next implies (#[trigger] entry_header(
                    longer,
                    j,
                )) is Ok by {
                    assert(entry_header(stream, j) is Ok);
                }
                if before.next > 0 {
                    let last = (before.next - 1) as nat;
                    assert(entry_header(stream, last) is Ok);
                    assert(entry_header(longer, last) == entry_header(stream, last));
                }
            }
        }
        taken
    }

    /// Moves to the next frame as `advance` does, and decodes the frame
    /// once to see that it is one, leaving its entry unread for `read`.
    /// So the encoder is never handed bytes that are no frame, and what is
    /// wrong with them is reported as the decoder's error with the frame's
    /// index. The first error ends the transcode.
    pub fn advance_checked(&mut self) -> (r: Result<FrameSlot, TranscodeError>)
        requires
            old(self).wf(),
        ensures
            final(self).wf(),
            final(self)@.sink == old(self)@.sink,
            final(self)@.frames == old(self)@.frames,
            final(self)@.codec == old(self)@.codec,
            final(self)@.source.stream == old(self)@.source.stream,
            match r {
                Ok(slot) => {
                    &&& old(self)@.next_frame_bytes() is Ok
                    &&& may_decode(old(self)@.codec, old(self)@.next_frame_bytes()->Ok_0)
                    &&& slot == slot_of(old(self)@.frames, old(self)@.next as int)
                    &&& final(self)@ == old(self)@.advance()
                },
                Err(e) => {
                    &&& final(self)@.failed == Some(e)
                    &&& match old(self)@.next_frame_bytes() {
                        Ok(bytes) => {
                            &&& e is Decode
                            &&& e->Decode_0 == old(self)@.next as u32
                            &&& decodes_to(old(self)@.codec, bytes, Err(e->Decode_1))
                        },
                        Err(due) => e == due,
                    }
                },
            },
    {
        let ghost before = self@;
        let slot = match self.advance() {
            Ok(slot) => slot,
            Err(e) => {
                return Err(e);
            },
        };
        proof {
            self.source.lemma_wf();
            let h = self.source@.entry.unwrap().header;
            assert(entry_header(before.source.stream, before.next) == Ok::<_, ArchiveError>(h));
        }
        let bytes = match self.source.content() {
            Ok(bytes) => bytes,
            Err(a) => {
                let e = TranscodeError::Archive(slot.index, a);
                self.failed = Some(e);
                return Err(e);
            },
        };
        match decode_frame(self.codec, bytes.as_slice()) {
            Ok(_) => Ok(slot),
            Err(d) => {
                let e = TranscodeError::Decode(slot.index, d);
                self.failed = Some(e);
                Err(e)
            },
        }
    }

    /// Whether `len` more bytes can be written to the sink.
    pub fn can_write(&self, len: usize) -> (b: bool)
        requires
            self.wf(),
        ensures
            b == (self@.sink.position() + len <= usize::MAX),
    {
        self.sink.can_write(len)
    }

    /// Writes the muxer's output at the sink's cursor.
    pub fn write(&mut self, data: &[u8]) -> (n: usize)
        requires
            old(self).wf(),
            old(self)@.sink.position() + data@.len() <= usize::MAX,
        ensures
            final(self).wf(),
            final(self)@ == (ContextView { sink: old(self)@.sink.write(data@), ..old(self)@ }),
            n == data@.len(),
    {
        self.sink.write(data)
    }

    /// Moves the sink's cursor for the muxer and returns it.
    pub fn seek(&mut self, offset: i64, whence: Whence) -> (p: u64)
        requires
            old(self).wf(),
        ensures
            final(self).wf(),
            final(self)@ == (ContextView {
                sink: old(self)@.sink.seek(offset as int, whence, usize::MAX as nat),
                ..old(self)@
            }),
            p == final(self)@.sink.cursor,
    {
        self.sink.seek(offset, whence)
    }

    /// Ends the transcode with the encoder's completion status and hands
    /// out the finished bytes, all or none.
    pub fn finish(self, status: i32) -> (r: Result<Vec<u8>, TranscodeError>)
        requires
            self.wf(),
        ensures
            match r {
                Ok(bytes) => self@.finish_result(status) == Ok::<Seq<u8>, TranscodeError>(
                    bytes@,
                ),
                Err(e) => self@.finish_result(status) == Err::<Seq<u8>, TranscodeError>(e),
            },
    {
        match self.failed {
            Some(e) => {
                return Err(e);
            },
            None => {},
        }
        if status != 0 {
            return Err(TranscodeError::Encode(EncodeError { status }));
        }
        if self.next < self.frames.len() || self.source.at_local_header() {
            return Err(TranscodeError::Metadata(MetadataError::CountMismatch));
        }
        Ok(self.sink.into_bytes())
    }
}

/// The first `k` entries of the stream can be had whole, and each can
/// decode as `codec`: it begins with the codec's signature, and where its
/// bytes fix what it decodes to, that is a frame.
pub open spec fn frames_ready(stream: Seq<u8>, codec: ImageCodec, k: nat) -> bool {
    forall|j: nat|
        j < k ==> (#[trigger] entry_content(stream, j)) is Ok && may_decode(
            codec,
            entry_content(stream, j)->Ok_0,
        )
}

/// What `collect_frames` may return for a stream, a codec and the frames
/// of the metadata. Each frame handed out is a result of decoding its
/// entry, and an error of the decoder is a result of decoding the entry
/// it names. So for PNG the inputs fix the whole result; for JPEG they fix
/// all but what the decoder makes of bytes that carry the signature.
pub open spec fn collected(
    stream: Seq<u8>,
    codec: ImageCodec,
    frames: Seq<UgoiraFrame>,
    r: Result<Seq<TimedFrame>, TranscodeError>,
) -> bool {
    match r {
        Ok(out) => {
            &&& 0 < frames.len() <= u32::MAX
            &&& out.len() == frames.len()
            &&& forall|i: int|
                0 <= i < out.len() ==> {
                    &&& (#[trigger] out[i]).slot == slot_of(descriptors_of(frames), i)
                    &&& out[i].frame.wf()
                    &&& out[i].frame@.channels == codec.spec_channels()
                    &&& entry_content(stream, i as nat) is Ok
                    &&& decodes_to(codec, entry_content(stream, i as nat)->Ok_0, Ok(out[i].frame@))
                }
            &&& frames_ready(stream, codec, frames.len())
            &&& !has_local_signature(stream, header_offset(stream, frames.len()) as int)
        },
        Err(TranscodeError::Metadata(MetadataError::NoFrames)) => frames.len() == 0,
        Err(TranscodeError::Metadata(MetadataError::TooManyFrames)) => frames.len() > u32::MAX,
        Err(TranscodeError::Metadata(MetadataError::CountMismatch)) => {
            &&& 0 < frames.len() <= u32::MAX
            &&& frames_ready(stream, codec, frames.len())
            &&& has_local_signature(stream, header_offset(stream, frames.len()) as int)
        },
        Err(TranscodeError::Archive(k, e)) => {
            &&& k < frames.len() <= u32::MAX
            &&& frames_ready(stream, codec, k as nat)
            &&& entry_content(stream, k as nat) == Err::<Seq<u8>, ArchiveError>(e)
        },
        Err(TranscodeError::Decode(k, e)) => {
            &&& k < frames.len() <= u32::MAX
            &&& frames_ready(stream, codec, k as nat)
            &&& entry_content(stream, k as nat) is Ok
            &&& decodes_to(codec, entry_content(stream, k as nat)->Ok_0, Err(e))
        },
        Err(TranscodeError::Encode(_)) => false,
    }
}

/// The error at which `next_frame` stops a run is one that `collected`
/// allows.
proof fn lemma_stopping_error_is_allowed(c: ContextView, frames: Seq<UgoiraFrame>, e: TranscodeError)
    requires
        c.wf(),
        c.failed is None,
        c.next < c.frames.len(),
        c.frames == descriptors_of(frames),
        frames_ready(c.source.stream, c.codec, c.next),
        match c.next_frame_bytes() {
            Ok(bytes) => {
                &&& e is Decode
                &&& e->Decode_0 == c.next as u32
                &&& decodes_to(c.codec, bytes, Err(e->Decode_1))
            },
            Err(due) => e == due,
        },
    ensures
        collected(c.source.stream, c.codec, frames, Err(e)),
{
    let k = c.next as u32;
    assert(k as nat == c.next);
    assert(frames.len() == c.frames.len());
    match entry_content(c.source.stream, c.next) {
        Ok(bytes) => {
            if signature_matches(c.codec, bytes) {
                assert(c.next_frame_bytes() == Ok::<Seq<u8>, TranscodeError>(bytes));
            } else {
                assert(e == TranscodeError::Decode(k, DecodeError::UnsupportedFormat));
            }
        },
        Err(a) => {
            assert(e == TranscodeError::Archive(k, a));
        },
    }
}

/// A frame that was decoded from the bytes that were due makes one more
/// entry ready.
proof fn lemma_one_more_ready(c: ContextView, frame: FrameView)
    requires
        c.next_frame_bytes() is Ok,
        decodes_to(c.codec, c.next_frame_bytes()->Ok_0, Ok(frame)),
        frames_ready(c.source.stream, c.codec, c.next),
    ensures
        frames_ready(c.source.stream, c.codec, c.next + 1),
        entry_content(c.source.stream, c.next) == Ok::<Seq<u8>, ArchiveError>(
            c.next_frame_bytes()->Ok_0,
        ),
{
    assert(entry_content(c.source.stream, c.next) is Ok);
}

/// Runs the pipeline up to the encoder: takes the frames out of the
/// archive one by one, in the order of the metadata, decodes each and
/// gives it its slot. The first error ends the run, and then no frame is
/// handed out. With no frame in the metadata it fails before it reads a
/// byte. An archive with an entry behind the last frame is a
/// `CountMismatch`, one with too few entries fails as the archive does at
/// the first entry that is missing.
pub fn collect_frames(stream: Vec<u8>, codec: ImageCodec, frames: &[UgoiraFrame]) -> (r: Result<
    Vec<TimedFrame>,
    TranscodeError,
>)
    ensures
        collected(
            stream@,
            codec,
            frames@,
            match r {
                Ok(out) => Ok(out@),
                Err(e) => Err(e),
            },
        ),
        frames@.len() == 0 ==> r is Err,
{
    let ghost bytes = stream@;
    let n: usize = frames.len();
    let mut ctx = match TranscodeContext::new(stream, codec, frames) {
        Ok(ctx) => ctx,
        Err(e) => {
            return Err(e);
        },
    };
    let mut out: Vec<TimedFrame> = Vec::new();
    while out.len() < n
        invariant
            ctx.wf(),
            ctx@.failed is None,
            ctx@.next == out@.len(),
            ctx@.frames == descriptors_of(frames@),
            ctx@.codec == codec,
            ctx@.source.stream == bytes,
            bytes == stream@,
            n == frames@.len(),
            0 < n <= u32::MAX,
            out@.len() <= n,
            frames_ready(bytes, codec, out@.len()),
            forall|i: int|
                0 <= i < out@.len() ==> {
                    &&& (#[trigger] out@[i]).slot == slot_of(descriptors_of(frames@), i)
                    &&& out@[i].frame.wf()
                    &&& out@[i].frame@.channels == codec.spec_channels()
                    &&& entry_content(bytes, i as nat) is Ok
                    &&& decodes_to(codec, entry_content(bytes, i as nat)->Ok_0, Ok(out@[i].frame@))
                },
        decreases n - out@.len(),
    {
        proof {
            ctx.lemma_wf();
        }
        let ghost before = ctx@;
        match ctx.next_frame() {
            Ok(t) => {
                proof {
                    lemma_one_more_ready(before, t.frame@);
                }
                out.push(t);
            },
            Err(e) => {
                proof {
                    lemma_stopping_error_is_allowed(before, frames@, e);
                }
                return Err(e);
            },
        }
    }
    proof {
        ctx.lemma_wf();
    }
    match ctx.finish(0) {
        Ok(_) => Ok(out),
        Err(e) => Err(e),
    }
}

/// A run that succeeds hands out one frame for each frame of the
/// metadata, in its order, and the frames fill the timeline: the first
/// begins at 0, each begins when the one before it has been shown for its
/// duration, none is dropped, the last included, and the last ends at the
/// sum of all durations.
pub proof fn law_collected_frames_fill_the_timeline(
    stream: Seq<u8>,
    codec: ImageCodec,
    frames: Seq<UgoiraFrame>,
    out: Seq<TimedFrame>,
)
    requires
        collected(stream, codec, frames, Ok(out)),
    ensures
        out.len() == frames.len(),
        out[0].slot.start_ms == 0,
        forall|i: int|
            0 <= i < out.len() ==> (#[trigger] out[i]).slot.index == i && out[i].slot.duration_ms
                == frames[i].delay,
        forall|i: int|
            0 <= i < out.len() - 1 ==> (#[trigger] out[i + 1]).slot.start_ms
                == out[i].slot.start_ms + out[i].slot.duration_ms,
        out.last().slot.start_ms + out.last().slot.duration_ms == total_duration(
            descriptors_of(frames),
        ),
{
    let d = descriptors_of(frames);
    law_windows_tile_the_timeline(d);
    assert forall|i: int| 0 <= i <= d.len() implies start_of(d, i) <= u64::MAX by {
        lemma_start_of_bound(d, i);
    }
    assert forall|i: int| 0 <= i < out.len() implies (#[trigger] out[i]).slot.start_ms
        == start_of(d, i) by {
        assert(out[i].slot == slot_of(d, i));
    }
    assert forall|i: int| 0 <= i < out.len() - 1 implies (#[trigger] out[i + 1]).slot.start_ms
        == out[i].slot.start_ms + out[i].slot.duration_ms by {
        assert(out[i].slot == slot_of(d, i));
        assert(out[i + 1].slot == slot_of(d, i + 1));
        assert(start_of(d, i + 1) == start_of(d, i) + d[i].duration_ms);
    }
    let n = out.len() as int;
    assert(out[n - 1].slot == slot_of(d, n - 1));
    assert(start_of(d, n - 1 + 1) == start_of(d, n - 1) + d[n - 1].duration_ms);
}

/// Over an archive that holds, for each frame of the metadata, a whole
/// entry that can decode, and no entry behind them, a run of PNG frames
/// succeeds, and a run of JPEG frames succeeds unless the decoder refuses
/// a frame: nothing else can make it fail.
pub proof fn law_only_the_decoder_fails_a_sound_archive(
    stream: Seq<u8>,
    codec: ImageCodec,
    frames: Seq<UgoiraFrame>,
    r: Result<Seq<TimedFrame>, TranscodeError>,
)
    requires
        0 < frames.len() <= u32::MAX,
        frames_ready(stream, codec, frames.len()),
        !has_local_signature(stream, header_offset(stream, frames.len()) as int),
        collected(stream, codec, frames, r),
    ensures
        r is Ok || (codec == ImageCodec::Jpeg && r->Err_0 is Decode && r->Err_0->Decode_1
            == DecodeError::Corrupt),
{
    match r {
        Ok(_) => {},
        Err(TranscodeError::Archive(k, e)) => {
            assert(entry_content(stream, k as nat) is Ok);
        },
        Err(TranscodeError::Decode(k, e)) => {
            assert(entry_content(stream, k as nat) is Ok);
        },
        Err(_) => {},
    }
}

/// An entry that cannot be had, or whose PNG bytes decode to an error, is
/// not among the entries that are ready.
proof fn lemma_failure_is_not_ready(stream: Seq<u8>, ready: nat, k: nat)
    requires
        frames_ready(stream, ImageCodec::Png, ready),
        entry_content(stream, k) is Err || decodes_to(
            ImageCodec::Png,
            entry_content(stream, k)->Ok_0,
            Err(DecodeError::Corrupt),
        ) || decodes_to(
            ImageCodec::Png,
            entry_content(stream, k)->Ok_0,
            Err(DecodeError::UnsupportedFormat),
        ),
    ensures
        ready <= k,
{
    if k < ready {
        assert(entry_content(stream, k) is Ok);
    }
}

/// The same PNG frames give the same result: two runs over one stream and
/// one list of frames end with the same error, or hand out frames that
/// agree in number, in each slot and in each frame's pixels and shape.
pub proof fn law_png_runs_agree(
    stream: Seq<u8>,
    frames: Seq<UgoiraFrame>,
    a: Result<Seq<TimedFrame>, TranscodeError>,
    b: Result<Seq<TimedFrame>, TranscodeError>,
)
    requires
        collected(stream, ImageCodec::Png, frames, a),
        collected(stream, ImageCodec::Png, frames, b),
    ensures
        a is Ok <==> b is Ok,
        a is Err ==> a->Err_0 == b->Err_0,
        a is Ok ==> a->Ok_0.len() == b->Ok_0.len() && forall|i: int|
            0 <= i < a->Ok_0.len() ==> (#[trigger] a->Ok_0[i]).slot == b->Ok_0[i].slot
                && a->Ok_0[i].frame@ == b->Ok_0[i].frame@,
{
    let n = frames.len();
    match a {
        Ok(x) => {
            lemma_run_ends_one_way(stream, frames, x, b);
        },
        Err(e) => {
            match b {
                Ok(y) => {
                    lemma_run_ends_one_way(stream, frames, y, a);
                },
                Err(f) => {
                    lemma_errors_agree(stream, frames, e, f);
                },
            }
        },
    }
}

/// A run of PNG frames that handed out frames could not have ended in an
/// error, and any other run handed out the same frames.
proof fn lemma_run_ends_one_way(
    stream: Seq<u8>,
    frames: Seq<UgoiraFrame>,
    x: Seq<TimedFrame>,
    b: Result<Seq<TimedFrame>, TranscodeError>,
)
    requires
        collected(stream, ImageCodec::Png, frames, Ok(x)),
        collected(stream, ImageCodec::Png, frames, b),
    ensures
        b is Ok,
        b->Ok_0.len() == x.len(),
        forall|i: int|
            0 <= i < x.len() ==> (#[trigger] x[i]).slot == b->Ok_0[i].slot && x[i].frame@
                == b->Ok_0[i].frame@,
{
    match b {
        Ok(y) => {
            assert forall|i: int| 0 <= i < x.len() implies (#[trigger] x[i]).slot == y[i].slot
                && x[i].frame@ == y[i].frame@ by {
                assert(y[i].slot == slot_of(descriptors_of(frames), i));
            }
        },
        Err(TranscodeError::Archive(k, e)) => {
            assert(entry_content(stream, k as nat) is Ok);
        },
        Err(TranscodeError::Decode(k, e)) => {
            assert(x[k as int].slot == slot_of(descriptors_of(frames), k as int));
        },
        Err(_) => {},
    }
}

/// Two runs of PNG frames that ended in errors ended in the same error.
proof fn lemma_errors_agree(
    stream: Seq<u8>,
    frames: Seq<UgoiraFrame>,
    e: TranscodeError,
    f: TranscodeError,
)
    requires
        collected(stream, ImageCodec::Png, frames, Err(e)),
        collected(stream, ImageCodec::Png, frames, Err(f)),
    ensures
        e == f,
{
    let n = frames.len();
    match (e, f) {
        (TranscodeError::Archive(j, _), TranscodeError::Archive(k, _)) => {
            lemma_failure_is_not_ready(stream, j as nat, k as nat);
            lemma_failure_is_not_ready(stream, k as nat, j as nat);
        },
        (TranscodeError::Archive(j, _), TranscodeError::Decode(k, _)) => {
            lemma_failure_is_not_ready(stream, j as nat, k as nat);
            lemma_failure_is_not_ready(stream, k as nat, j as nat);
        },
        (TranscodeError::Decode(j, _), TranscodeError::Archive(k, _)) => {
            lemma_failure_is_not_ready(stream, j as nat, k as nat);
            lemma_failure_is_not_ready(stream, k as nat, j as nat);
        },
        (TranscodeError::Decode(j, _), TranscodeError::Decode(k, _)) => {
            lemma_failure_is_not_ready(stream, j as nat, k as nat);
            lemma_failure_is_not_ready(stream, k as nat, j as nat);
        },
        (TranscodeError::Archive(j, _), TranscodeError::Metadata(_)) => {
            lemma_failure_is_not_ready(stream, n, j as nat);
        },
        (TranscodeError::Decode(j, _), TranscodeError::Metadata(_)) => {
            lemma_failure_is_not_ready(stream, n, j as nat);
        },
        (TranscodeError::Metadata(_), TranscodeError::Archive(k, _)) => {
            lemma_failure_is_not_ready(stream, n, k as nat);
        },
        (TranscodeError::Metadata(_), TranscodeError::Decode(k, _)) => {
            lemma_failure_is_not_ready(stream, n, k as nat);
        },
        _ => {},
    }
}

/// A transcode of no frames produces nothing: with an empty frame list no
/// context comes to be, so no byte is read from the archive and none is
/// written to a sink.
pub proof fn law_no_frames_no_output(stream: Seq<u8>, codec: ImageCodec, r: Result<
    Seq<TimedFrame>,
    TranscodeError,
>)
    requires
        collected(stream, codec, Seq::<UgoiraFrame>::empty(), r),
    ensures
        r == Err::<Seq<TimedFrame>, TranscodeError>(
            TranscodeError::Metadata(MetadataError::NoFrames),
        ),
{
}

/// No partial output: whatever the sink holds, a transcode that failed, or
/// whose encoder ended with a status other than 0, hands out no bytes; and
/// one that hands out bytes hands out all the sink holds.
pub proof fn law_output_is_all_or_nothing(c: ContextView, status: i32)
    ensures
        c.failed is Some ==> c.finish_result(status) is Err,
        status != 0 ==> c.finish_result(status) is Err,
        c.finish_result(status) matches Ok(bytes) ==> bytes == c.sink.bytes && c.failed is None
            && status == 0 && c.next >= c.frames.len(),
{
}

} // verus!
