//! The errors of the transcoding pipeline, stage by stage.

use vstd::prelude::*;
use vstd::string::StringExecFns;
use crate::text::{decimal, push_decimal};

verus! {

/// The frame metadata cannot describe a video.
#[derive(Clone, Copy, Debug, PartialEq, Eq, Structural)]
pub enum MetadataError {
    /// The metadata lists no frame.
    NoFrames,
    /// The metadata lists more frames than a frame index can number.
    TooManyFrames,
    /// The archive does not hold as many entries as the metadata lists
    /// frames.
    CountMismatch,
}

/// The archive stream is not what the archive format promises.
#[derive(Clone, Copy, Debug, PartialEq, Eq, Structural)]
pub enum ArchiveError {
    /// No local file header stands where one is expected, or it declares no
    /// usable size.
    MalformedHeader,
    /// The entry is neither stored nor deflated, or it is encrypted.
    UnsupportedCompression,
    /// The stream ends before the header or the declared data of an entry
    /// is complete.
    Truncated,
}

/// A frame's bytes are not an image of the declared codec.
#[derive(Clone, Copy, Debug, PartialEq, Eq, Structural)]
pub enum DecodeError {
    /// The bytes carry the codec's signature but do not decode.
    Corrupt,
    /// The bytes do not begin with the signature of the declared codec.
    UnsupportedFormat,
}

/// The encoder ended with a status other than success.
#[derive(Clone, Copy, Debug, PartialEq, Eq, Structural)]
pub struct EncodeError {
    pub status: i32,
}

/// Why a transcode was abandoned. An error of the archive or of the decoder
/// comes with the index of the frame at which it arose.
#[derive(Clone, Copy, Debug, PartialEq, Eq, Structural)]
pub enum TranscodeError {
    Metadata(MetadataError),
    Archive(u32, ArchiveError),
    Decode(u32, DecodeError),
    Encode(EncodeError),
}

impl MetadataError {
    /// The error in words.
    pub open spec fn text(self) -> Seq<char> {
        match self {
            MetadataError::NoFrames => "metadata lists no frames"@,
            MetadataError::TooManyFrames => "metadata lists too many frames"@,
            MetadataError::CountMismatch => "archive and metadata disagree on the number of frames"@,
        }
    }

    pub fn as_str(&self) -> (s: &'static str)
        ensures
            s@ == self.text(),
    {
        match self {
            MetadataError::NoFrames => "metadata lists no frames",
            MetadataError::TooManyFrames => "metadata lists too many frames",
            MetadataError::CountMismatch => "archive and metadata disagree on the number of frames",
        }
    }
}

impl ArchiveError {
    /// The error in words.
    pub open spec fn text(self) -> Seq<char> {
        match self {
            ArchiveError::MalformedHeader => "malformed archive header"@,
            ArchiveError::UnsupportedCompression => "unsupported compression"@,
            ArchiveError::Truncated => "archive truncated"@,
        }
    }

    pub fn as_str(&self) -> (s: &'static str)
        ensures
            s@ == self.text(),
    {
        match self {
            ArchiveError::MalformedHeader => "malformed archive header",
            ArchiveError::UnsupportedCompression => "unsupported compression",
            ArchiveError::Truncated => "archive truncated",
        }
    }
}

impl DecodeError {
    /// The error in words.
    pub open spec fn text(self) -> Seq<char> {
        match self {
            DecodeError::Corrupt => "corrupt image"@,
            DecodeError::UnsupportedFormat => "unsupported image format"@,
        }
    }

    pub fn as_str(&self) -> (s: &'static str)
        ensures
            s@ == self.text(),
    {
        match self {
            DecodeError::Corrupt => "corrupt image",
            DecodeError::UnsupportedFormat => "unsupported image format",
        }
    }
}

/// A status in decimal, with a minus sign where it is negative.
pub open spec fn signed_decimal(status: i32) -> Seq<char> {
    if status < 0 {
        seq!['-'] + decimal((-(status as int)) as nat)
    } else {
        decimal(status as nat)
    }
}

/// The words before a frame's error: which frame it is.
pub open spec fn at_frame(frame: u32) -> Seq<char> {
    "frame "@ + decimal(frame as nat) + ": "@
}

impl TranscodeError {
    /// The status under which the error is answered: not found where the
    /// metadata is at fault, bad gateway where the archive or an image
    /// that came from upstream is, and internal error where the encoder
    /// failed.
    pub open spec fn status(self) -> u16 {
        match self {
            TranscodeError::Metadata(_) => 404,
            TranscodeError::Archive(_, _) => 502,
            TranscodeError::Decode(_, _) => 502,
            TranscodeError::Encode(_) => 500,
        }
    }

    /// The error in words, with the frame at which it arose.
    pub open spec fn text(self) -> Seq<char> {
        match self {
            TranscodeError::Metadata(e) => e.text(),
            TranscodeError::Archive(frame, e) => at_frame(frame) + e.text(),
            TranscodeError::Decode(frame, e) => at_frame(frame) + e.text(),
            TranscodeError::Encode(e) => "encoder failed with status "@ + signed_decimal(e.status),
        }
    }

    /// The index of the frame at which the error arose, where it arose at
    /// one.
    pub fn frame(&self) -> (frame: Option<u32>)
        ensures
            frame == match self {
                TranscodeError::Archive(k, _) => Some(*k),
                TranscodeError::Decode(k, _) => Some(*k),
                _ => None,
            },
    {
        match self {
            TranscodeError::Archive(k, _) => Some(*k),
            TranscodeError::Decode(k, _) => Some(*k),
            _ => None,
        }
    }

    /// The status under which the error is answered.
    pub fn status_code(&self) -> (code: u16)
        ensures
            code == self.status(),
    {
        match self {
            TranscodeError::Metadata(_) => 404,
            TranscodeError::Archive(_, _) => 502,
            TranscodeError::Decode(_, _) => 502,
            TranscodeError::Encode(_) => 500,
        }
    }

    /// The reason of the failure as text.
    pub fn reason(&self) -> (s: String)
        ensures
            s@ == self.text(),
    {
        match self {
            TranscodeError::Metadata(e) => String::from_str(e.as_str()),
            TranscodeError::Archive(frame, e) => {
                let mut s = String::from_str("frame ");
                push_decimal(&mut s, *frame as u64);
                s.append(": ");
                s.append(e.as_str());
                s
            },
            TranscodeError::Decode(frame, e) => {
                let mut s = String::from_str("frame ");
                push_decimal(&mut s, *frame as u64);
                s.append(": ");
                s.append(e.as_str());
                s
            },
            TranscodeError::Encode(e) => {
                let mut s = String::from_str("encoder failed with status ");
                let ghost head = s@;
                if e.status < 0 {
                    proof {
                        reveal_strlit("-");
                    }
                    s.append("-");
                    let size: u64 = (0 - e.status as i64) as u64;
                    push_decimal(&mut s, size);
                    assert(s@ =~= head + signed_decimal(e.status));
                } else {
                    push_decimal(&mut s, e.status as u64);
                }
                s
            },
        }
    }
}

} // verus!
