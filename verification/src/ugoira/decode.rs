//! Decoding one frame: the codec's signature is checked here, the pixels
//! come from the `image` crate, and what comes back is checked again.

use vstd::prelude::*;
use crate::text::str_eq;
use crate::ugoira::error::DecodeError;

verus! {

/// The image codec of an asset's frames. One asset has one codec.
#[derive(Clone, Copy, Debug, PartialEq, Eq, Structural)]
pub enum ImageCodec {
    Jpeg,
    Png,
}

impl ImageCodec {
    /// Bytes per pixel of a decoded frame: RGB for JPEG, RGBA for PNG.
    pub open spec fn spec_channels(self) -> u8 {
        match self {
            ImageCodec::Jpeg => 3,
            ImageCodec::Png => 4,
        }
    }

    /// The codec that a media type names, if it names one of the two.
    pub open spec fn of_mime_type(mime: Seq<char>) -> Option<ImageCodec> {
        if mime == "image/jpeg"@ {
            Some(ImageCodec::Jpeg)
        } else if mime == "image/png"@ {
            Some(ImageCodec::Png)
        } else {
            None
        }
    }

    /// Reads the codec from the media type that the metadata gives.
    pub fn from_mime_type(mime: &str) -> (codec: Option<ImageCodec>)
        ensures
            codec == Self::of_mime_type(mime@),
    {
        if str_eq(mime, "image/jpeg") {
            Some(ImageCodec::Jpeg)
        } else if str_eq(mime, "image/png") {
            Some(ImageCodec::Png)
        } else {
            None
        }
    }

    #[verifier::when_used_as_spec(spec_channels)]
    pub fn channels(self) -> (c: u8)
        ensures
            c == self.spec_channels(),
    {
        match self {
            ImageCodec::Jpeg => 3,
            ImageCodec::Png => 4,
        }
    }
}

/// `bytes` begins with the JPEG start-of-image marker and the lead byte of
/// the marker behind it.
pub open spec fn jpeg_signature(bytes: Seq<u8>) -> bool {
    &&& bytes.len() >= 3
    &&& bytes[0] == 0xffu8
    &&& bytes[1] == 0xd8u8
    &&& bytes[2] == 0xffu8
}

/// `bytes` begins with the eight-byte PNG signature.
pub open spec fn png_signature(bytes: Seq<u8>) -> bool {
    &&& bytes.len() >= 8
    &&& bytes[0] == 0x89u8
    &&& bytes[1] == 0x50u8
    &&& bytes[2] == 0x4eu8
    &&& bytes[3] == 0x47u8
    &&& bytes[4] == 0x0du8
    &&& bytes[5] == 0x0au8
    &&& bytes[6] == 0x1au8
    &&& bytes[7] == 0x0au8
}

/// `bytes` begins with the signature of `codec`.
pub open spec fn signature_matches(codec: ImageCodec, bytes: Seq<u8>) -> bool {
    match codec {
        ImageCodec::Jpeg => jpeg_signature(bytes),
        ImageCodec::Png => png_signature(bytes),
    }
}

/// Whether `bytes` begins with the signature of `codec`.
pub fn has_signature(codec: ImageCodec, bytes: &[u8]) -> (b: bool)
    ensures
        b == signature_matches(codec, bytes@),
{
    match codec {
        ImageCodec::Jpeg => bytes.len() >= 3 && bytes[0] == 0xff && bytes[1] == 0xd8 && bytes[2]
            == 0xff,
        ImageCodec::Png => bytes.len() >= 8 && bytes[0] == 0x89 && bytes[1] == 0x50 && bytes[2]
            == 0x4e && bytes[3] == 0x47 && bytes[4] == 0x0d && bytes[5] == 0x0a && bytes[6] == 0x1a
            && bytes[7] == 0x0a,
    }
}

/// What the outside decoder handed back: dimensions and a pixel buffer,
/// not yet checked against each other.
pub struct RawImage {
    pub width: u32,
    pub height: u32,
    pub pixels: Vec<u8>,
}

/// The length of a pixel buffer of the given shape.
pub open spec fn buffer_len(width: u32, height: u32, channels: u8) -> nat {
    (width as nat) * (height as nat) * (channels as nat)
}

/// A decoded frame as mathematics.
pub struct FrameView {
    pub width: u32,
    pub height: u32,
    pub channels: u8,
    pub pixels: Seq<u8>,
}

impl FrameView {
    /// The frame has pixels, three or four bytes each, and its buffer holds
    /// exactly its rows.
    pub open spec fn wf(self) -> bool {
        &&& self.width > 0
        &&& self.height > 0
        &&& self.channels == 3 || self.channels == 4
        &&& self.pixels.len() == buffer_len(self.width, self.height, self.channels)
    }
}

/// A decoded frame: a pixel buffer, row by row, with its dimensions.
pub struct DecodedFrame {
    width: u32,
    height: u32,
    channels: u8,
    pixels: Vec<u8>,
}

impl View for DecodedFrame {
    type V = FrameView;

    closed spec fn view(&self) -> FrameView {
        FrameView {
            width: self.width,
            height: self.height,
            channels: self.channels,
            pixels: self.pixels@,
        }
    }
}

/// The frame that a decoder's outcome stands for: none where it decoded
/// nothing, where the image is empty, or where the buffer is not as long as
/// the dimensions say.
pub open spec fn frame_of(channels: u8, width: u32, height: u32, pixels: Seq<u8>) -> Result<
    FrameView,
    DecodeError,
> {
    let frame = FrameView { width, height, channels, pixels };
    if frame.wf() {
        Ok(frame)
    } else {
        Err(DecodeError::Corrupt)
    }
}

impl DecodedFrame {
    /// The invariant of every frame that this module hands out.
    pub open spec fn wf(&self) -> bool {
        self@.wf()
    }

    /// Checks what a decoder handed back and makes a frame of it. `None`
    /// stands for a decoder that failed.
    pub fn from_outcome(channels: u8, outcome: Option<RawImage>) -> (r: Result<
        DecodedFrame,
        DecodeError,
    >)
        ensures
            match outcome {
                None => r is Err && r->Err_0 == DecodeError::Corrupt,
                Some(raw) => match r {
                    Ok(f) => frame_of(channels, raw.width, raw.height, raw.pixels@) == Ok::<
                        FrameView,
                        DecodeError,
                    >(f@),
                    Err(e) => frame_of(channels, raw.width, raw.height, raw.pixels@) == Err::<
                        FrameView,
                        DecodeError,
                    >(e),
                },
            },
    {
        match outcome {
            None => Err(DecodeError::Corrupt),
            Some(raw) => {
                if raw.width == 0 || raw.height == 0 || (channels != 3 && channels != 4) {
                    return Err(DecodeError::Corrupt);
                }
                let w: u128 = raw.width as u128;
                let h: u128 = raw.height as u128;
                let c: u128 = channels as u128;
                assert(w * h <= 0xffff_ffff * 0xffff_ffff) by (nonlinear_arith)
                    requires
                        0 <= w <= 0xffff_ffff,
                        0 <= h <= 0xffff_ffff,
                ;
                let area: u128 = w * h;
                assert(area * c <= 0xffff_ffff * 0xffff_ffff * 4) by (nonlinear_arith)
                    requires
                        0 <= area <= 0xffff_ffff * 0xffff_ffff,
                        0 <= c <= 4,
                ;
                let expected: u128 = area * c;
                if raw.pixels.len() as u128 != expected {
                    return Err(DecodeError::Corrupt);
                }
                Ok(
                    DecodedFrame {
                        width: raw.width,
                        height: raw.height,
                        channels,
                        pixels: raw.pixels,
                    },
                )
            },
        }
    }

    pub fn width(&self) -> (w: u32)
        ensures
            w == self@.width,
    {
        self.width
    }

    pub fn height(&self) -> (h: u32)
        ensures
            h == self@.height,
    {
        self.height
    }

    /// Bytes per pixel.
    pub fn channels(&self) -> (c: u8)
        ensures
            c == self@.channels,
    {
        self.channels
    }

    /// The pixel buffer, row by row from the top.
    pub fn pixels(&self) -> (p: &[u8])
        ensures
            p@ == self@.pixels,
    {
        self.pixels.as_slice()
    }

    /// Gives up the frame for its pixel buffer.
    pub fn into_pixels(self) -> (p: Vec<u8>)
        ensures
            p@ == self@.pixels,
    {
        self.pixels
    }
}

/// Decodes a JPEG image to RGB, three bytes a pixel, with
/// `image::load_from_memory_with_format` and `DynamicImage::into_rgb8`.
/// Nothing is claimed of what comes back, and the caller checks it: the
/// JPEG decoder picks its arithmetic for upsampling and colour conversion
/// by the processor it runs on, so its pixels are not taken to be a
/// function of the bytes alone. The decoder answers malformed bytes with
/// an error and counts a panic as a fault of its own; that it has none
/// left is its promise to keep, and is not proved here.
#[verifier::external_body]
fn decode_jpeg_rgb(bytes: &[u8]) -> (out: Option<RawImage>) {
    let image = image::load_from_memory_with_format(bytes, image::ImageFormat::Jpeg).ok()?;
    let rgb = image.into_rgb8();
    Some(RawImage { width: rgb.width(), height: rgb.height(), pixels: rgb.into_raw() })
}

/// What `image::load_from_memory_with_format` makes of PNG bytes, turned
/// to RGBA by `DynamicImage::into_rgba8`: width, height and pixel buffer,
/// or nothing where the bytes do not decode. PNG is lossless, so every
/// decoder that follows the format computes the same pixels.
pub uninterp spec fn decoded_png(bytes: Seq<u8>) -> Option<(u32, u32, Seq<u8>)>;

/// Decodes a PNG image to RGBA, four bytes a pixel, with
/// `image::load_from_memory_with_format` and `DynamicImage::into_rgba8`.
/// Trusted: that what comes back depends on the bytes alone. Nothing is
/// claimed of its shape, which the caller checks. That the decoder
/// answers every malformed input with an error, and never with a panic,
/// is its promise to keep, and is not proved here.
#[verifier::external_body]
fn decode_png_rgba(bytes: &[u8]) -> (out: Option<RawImage>)
    ensures
        match out {
            Some(raw) => decoded_png(bytes@) == Some((raw.width, raw.height, raw.pixels@)),
            None => decoded_png(bytes@) is None,
        },
{
    let image = image::load_from_memory_with_format(bytes, image::ImageFormat::Png).ok()?;
    let rgba = image.into_rgba8();
    Some(RawImage { width: rgba.width(), height: rgba.height(), pixels: rgba.into_raw() })
}

/// The frame that the bytes of a PNG image are decoded to, or why there
/// is none: `UnsupportedFormat` without the signature, `Corrupt` where the
/// decoder makes nothing of the bytes or what it makes is no frame.
pub open spec fn png_frame(bytes: Seq<u8>) -> Result<FrameView, DecodeError> {
    if !png_signature(bytes) {
        Err(DecodeError::UnsupportedFormat)
    } else {
        match decoded_png(bytes) {
            Some((width, height, pixels)) => frame_of(4, width, height, pixels),
            None => Err(DecodeError::Corrupt),
        }
    }
}

/// What decoding gives, where codec and bytes fix it: for every codec the
/// refusal of bytes without its signature, and for PNG the frame or the
/// error of `png_frame`. For JPEG bytes with the signature nothing is
/// fixed here: the decoder decides.
pub open spec fn fixed_frame(codec: ImageCodec, bytes: Seq<u8>) -> Option<
    Result<FrameView, DecodeError>,
> {
    if !signature_matches(codec, bytes) {
        Some(Err(DecodeError::UnsupportedFormat))
    } else {
        match codec {
            ImageCodec::Png => Some(png_frame(bytes)),
            ImageCodec::Jpeg => None,
        }
    }
}

/// `r` is a result of decoding `bytes` as `codec`: the one that codec and
/// bytes fix; or, where they fix none, a well-formed frame of the codec's
/// channels, or `Corrupt`.
pub open spec fn decodes_to(
    codec: ImageCodec,
    bytes: Seq<u8>,
    r: Result<FrameView, DecodeError>,
) -> bool {
    match fixed_frame(codec, bytes) {
        Some(fixed) => r == fixed,
        None => match r {
            Ok(frame) => frame.wf() && frame.channels == codec.spec_channels(),
            Err(e) => e == DecodeError::Corrupt,
        },
    }
}

/// The bytes can decode as `codec`: where the result is fixed it is a
/// frame; where it is not, the bytes carry the signature.
pub open spec fn may_decode(codec: ImageCodec, bytes: Seq<u8>) -> bool {
    match fixed_frame(codec, bytes) {
        Some(fixed) => fixed is Ok,
        None => true,
    }
}

/// A result of decoding, frame by its view.
pub open spec fn viewed(r: Result<DecodedFrame, DecodeError>) -> Result<FrameView, DecodeError> {
    match r {
        Ok(frame) => Ok(frame@),
        Err(e) => Err(e),
    }
}

/// Decodes one frame. Bytes that do not begin with the codec's signature
/// are refused as `UnsupportedFormat` and never reach the decoder; bytes
/// that do are decoded, and are `Corrupt` where the decoder fails or hands
/// back a buffer that does not fit its dimensions. A PNG frame is the one
/// frame that its bytes decode to.
pub fn decode_frame(codec: ImageCodec, bytes: &[u8]) -> (r: Result<DecodedFrame, DecodeError>)
    ensures
        decodes_to(codec, bytes@, viewed(r)),
        !signature_matches(codec, bytes@) <==> r == Err::<DecodedFrame, DecodeError>(
            DecodeError::UnsupportedFormat,
        ),
        r matches Ok(f) ==> f.wf() && f@.channels == codec.spec_channels(),
        r matches Err(e) ==> e == DecodeError::UnsupportedFormat || e == DecodeError::Corrupt,
{
    if !has_signature(codec, bytes) {
        return Err(DecodeError::UnsupportedFormat);
    }
    let outcome = match codec {
        ImageCodec::Jpeg => decode_jpeg_rgb(bytes),
        ImageCodec::Png => decode_png_rgba(bytes),
    };
    DecodedFrame::from_outcome(codec.channels(), outcome)
}

} // verus!
