//! Frame descriptors and the timeline they lay out: each frame is shown
//! from the end of the one before it, for its own duration.

use vstd::prelude::*;
use crate::api::ugoira::UgoiraFrame;
use crate::ugoira::error::MetadataError;

verus! {

/// One frame of the metadata: its place in the sequence and how long it is
/// shown, in milliseconds.
#[derive(Clone, Copy, Debug, PartialEq, Eq, Structural)]
pub struct FrameDescriptor {
    pub sequence_index: u32,
    pub duration_ms: u16,
}

/// The time during which one frame is shown, from `start_ms` up to but not
/// including `end_ms`.
#[derive(Clone, Copy, Debug, PartialEq, Eq, Structural)]
pub struct FrameWindow {
    pub start_ms: u64,
    pub end_ms: u64,
}

/// The descriptors of the frames that the metadata lists, in its order.
pub open spec fn descriptors_of(frames: Seq<UgoiraFrame>) -> Seq<FrameDescriptor> {
    Seq::new(
        frames.len(),
        |i: int| FrameDescriptor { sequence_index: i as u32, duration_ms: frames[i].delay },
    )
}

/// The descriptors are numbered from 0 in steps of 1, and a `u32` can
/// number them all.
pub open spec fn in_order(frames: Seq<FrameDescriptor>) -> bool {
    &&& frames.len() <= u32::MAX
    &&& forall|i: int| 0 <= i < frames.len() ==> (#[trigger] frames[i]).sequence_index == i
}

/// The sum of the frames' durations, in milliseconds.
pub open spec fn total_duration(frames: Seq<FrameDescriptor>) -> nat
    decreases frames.len(),
{
    if frames.len() == 0 {
        0
    } else {
        total_duration(frames.drop_last()) + frames.last().duration_ms as nat
    }
}

/// When frame `i` begins: after the durations of all frames before it. For
/// `i` the number of frames, when the video ends.
pub open spec fn start_of(frames: Seq<FrameDescriptor>, i: int) -> nat
    recommends
        0 <= i <= frames.len(),
{
    total_duration(frames.take(i))
}

/// The window of frame `i`.
pub open spec fn window_of(frames: Seq<FrameDescriptor>, i: int) -> FrameWindow
    recommends
        0 <= i < frames.len(),
{
    FrameWindow { start_ms: start_of(frames, i) as u64, end_ms: start_of(frames, i + 1) as u64 }
}

/// Each frame begins where the one before it ends and lasts its own
/// duration.
pub proof fn lemma_start_of_next(frames: Seq<FrameDescriptor>, i: int)
    requires
        0 <= i < frames.len(),
    ensures
        start_of(frames, i + 1) == start_of(frames, i) + frames[i].duration_ms,
{
    assert(frames.take(i + 1).drop_last() =~= frames.take(i));
    assert(frames.take(i + 1).last() == frames[i]);
}

/// No frame begins later than 65535 ms times the frames before it.
pub proof fn lemma_start_of_bound(frames: Seq<FrameDescriptor>, i: int)
    requires
        0 <= i <= frames.len(),
    ensures
        start_of(frames, i) <= i * 0xffff,
    decreases i,
{
    if i == 0 {
        assert(frames.take(0) =~= Seq::<FrameDescriptor>::empty());
    } else {
        lemma_start_of_bound(frames, i - 1);
        lemma_start_of_next(frames, i - 1);
    }
}

/// The windows tile the timeline: the first begins at 0, each begins where
/// the one before it ends and is as long as its frame's duration, and the
/// last ends at the sum of all durations. So a video of N frames shows N
/// frames, none for no time unless its duration is 0, and lasts the sum of
/// their durations.
pub proof fn law_windows_tile_the_timeline(frames: Seq<FrameDescriptor>)
    ensures
        start_of(frames, 0) == 0,
        forall|i: int|
            0 <= i < frames.len() ==> #[trigger] start_of(frames, i + 1) == start_of(frames, i)
                + frames[i].duration_ms,
        start_of(frames, frames.len() as int) == total_duration(frames),
{
    assert(frames.take(0) =~= Seq::<FrameDescriptor>::empty());
    assert(frames.take(frames.len() as int) =~= frames);
    assert forall|i: int| 0 <= i < frames.len() implies #[trigger] start_of(frames, i + 1)
        == start_of(frames, i) + frames[i].duration_ms by {
        lemma_start_of_next(frames, i);
    }
}

/// Builds the descriptors of the frames that the metadata lists. Fails
/// where it lists none, and where it lists more than a `u32` can number.
pub fn describe_frames(frames: &[UgoiraFrame]) -> (r: Result<Vec<FrameDescriptor>, MetadataError>)
    ensures
        match r {
            Ok(d) => {
                &&& 0 < frames@.len() <= u32::MAX
                &&& d@ == descriptors_of(frames@)
                &&& in_order(d@)
            },
            Err(e) => {
                &&& e == MetadataError::NoFrames <==> frames@.len() == 0
                &&& e == MetadataError::TooManyFrames <==> frames@.len() > u32::MAX
                &&& e != MetadataError::CountMismatch
            },
        },
{
    let n: usize = frames.len();
    if n == 0 {
        return Err(MetadataError::NoFrames);
    }
    if n > u32::MAX as usize {
        return Err(MetadataError::TooManyFrames);
    }
    let mut out: Vec<FrameDescriptor> = Vec::new();
    let mut i: usize = 0;
    while i < n
        invariant
            0 <= i <= n,
            n == frames@.len(),
            n <= u32::MAX,
            out@ =~= descriptors_of(frames@).take(i as int),
        decreases n - i,
    {
        out.push(FrameDescriptor { sequence_index: i as u32, duration_ms: frames[i].delay });
        i += 1;
    }
    assert(out@ =~= descriptors_of(frames@));
    Ok(out)
}

/// The sum of the frames' durations, in milliseconds.
pub fn total_duration_ms(frames: &[FrameDescriptor]) -> (total: u64)
    requires
        frames@.len() <= u32::MAX,
    ensures
        total == total_duration(frames@),
{
    let n: usize = frames.len();
    let mut total: u64 = 0;
    let mut i: usize = 0;
    while i < n
        invariant
            0 <= i <= n,
            n == frames@.len(),
            n <= u32::MAX,
            total == start_of(frames@, i as int),
        decreases n - i,
    {
        proof {
            lemma_start_of_bound(frames@, i as int);
            lemma_start_of_next(frames@, i as int);
        }
        total = total + frames[i].duration_ms as u64;
        i += 1;
    }
    assert(frames@.take(n as int) =~= frames@);
    assert(frames@.take(0) =~= Seq::<FrameDescriptor>::empty());
    total
}

/// The window of every frame, in order.
pub fn frame_windows(frames: &[FrameDescriptor]) -> (windows: Vec<FrameWindow>)
    requires
        frames@.len() <= u32::MAX,
    ensures
        windows@.len() == frames@.len(),
        forall|i: int| 0 <= i < frames@.len() ==> windows@[i] == window_of(frames@, i),
        forall|i: int|
            0 <= i < frames@.len() ==> (#[trigger] windows@[i]).start_ms == start_of(frames@, i)
                && windows@[i].end_ms == start_of(frames@, i) + frames@[i].duration_ms,
{
    let n: usize = frames.len();
    let mut windows: Vec<FrameWindow> = Vec::new();
    let mut start: u64 = 0;
    let mut i: usize = 0;
    assert(frames@.take(0) =~= Seq::<FrameDescriptor>::empty());
    while i < n
        invariant
            0 <= i <= n,
            n == frames@.len(),
            n <= u32::MAX,
            start == start_of(frames@, i as int),
            windows@.len() == i,
            forall|j: int| 0 <= j < i ==> windows@[j] == window_of(frames@, j),
            forall|j: int|
                0 <= j < i ==> (#[trigger] windows@[j]).start_ms == start_of(frames@, j)
                    && windows@[j].end_ms == start_of(frames@, j) + frames@[j].duration_ms,
        decreases n - i,
    {
        proof {
            lemma_start_of_bound(frames@, i as int);
            lemma_start_of_bound(frames@, i + 1);
            lemma_start_of_next(frames@, i as int);
        }
        let end: u64 = start + frames[i].duration_ms as u64;
        windows.push(FrameWindow { start_ms: start, end_ms: end });
        start = end;
        i += 1;
    }
    windows
}

} // verus!
