use pixiv_proxy::ugoira::decode::{
    decode_frame, has_signature, DecodedFrame, ImageCodec, RawImage,
};
use pixiv_proxy::ugoira::error::DecodeError;

fn encode_rgb(width: u32, height: u32, format: image::ImageFormat) -> Vec<u8> {
    let mut img = image::RgbImage::new(width, height);
    for (x, y, p) in img.enumerate_pixels_mut() {
        *p = image::Rgb([(x * 40) as u8, (y * 60) as u8, 200]);
    }
    let mut out = std::io::Cursor::new(Vec::new());
    image::DynamicImage::ImageRgb8(img).write_to(&mut out, format).unwrap();
    out.into_inner()
}

fn position_of(bytes: &[u8], marker: [u8; 2]) -> usize {
    bytes.windows(2).position(|w| w == marker).unwrap()
}

#[test]
fn signatures() {
    assert!(has_signature(ImageCodec::Jpeg, &[0xff, 0xd8, 0xff, 0xe0]));
    assert!(has_signature(ImageCodec::Jpeg, &[0xff, 0xd8, 0xff]));
    assert!(!has_signature(ImageCodec::Jpeg, &[0xff, 0xd8]));
    assert!(!has_signature(ImageCodec::Jpeg, &[0xff, 0xd9, 0xff, 0xe0]));
    assert!(!has_signature(ImageCodec::Jpeg, &[]));
    let png = [0x89, 0x50, 0x4e, 0x47, 0x0d, 0x0a, 0x1a, 0x0a];
    assert!(has_signature(ImageCodec::Png, &png));
    assert!(!has_signature(ImageCodec::Png, &png[..7]));
    assert!(!has_signature(ImageCodec::Jpeg, &png));
    assert!(!has_signature(ImageCodec::Png, &[0xff, 0xd8, 0xff, 0xe0, 0, 0, 0, 0]));
}

#[test]
fn channels_of_the_codecs() {
    assert_eq!(ImageCodec::Jpeg.channels(), 3);
    assert_eq!(ImageCodec::Png.channels(), 4);
}

#[test]
fn decodes_a_png_to_rgba() {
    let bytes = encode_rgb(3, 2, image::ImageFormat::Png);
    let frame = decode_frame(ImageCodec::Png, &bytes).unwrap();
    assert_eq!(frame.width(), 3);
    assert_eq!(frame.height(), 2);
    assert_eq!(frame.channels(), 4);
    assert_eq!(frame.pixels().len(), 3 * 2 * 4);
    assert_eq!(&frame.pixels()[..8], &[0, 0, 200, 255, 40, 0, 200, 255]);
    assert_eq!(&frame.pixels()[12..16], &[0, 60, 200, 255]);
    assert_eq!(frame.into_pixels().len(), 24);
}

#[test]
fn decodes_a_jpeg_to_rgb() {
    let bytes = encode_rgb(16, 8, image::ImageFormat::Jpeg);
    let frame = decode_frame(ImageCodec::Jpeg, &bytes).unwrap();
    assert_eq!(frame.width(), 16);
    assert_eq!(frame.height(), 8);
    assert_eq!(frame.channels(), 3);
    assert_eq!(frame.pixels().len(), 16 * 8 * 3);
    assert_ne!(frame.pixels(), &bytes[..]);
}

#[test]
fn wrong_codec_is_unsupported_format() {
    let png = encode_rgb(2, 2, image::ImageFormat::Png);
    let jpeg = encode_rgb(2, 2, image::ImageFormat::Jpeg);
    assert_eq!(decode_frame(ImageCodec::Jpeg, &png).err(), Some(DecodeError::UnsupportedFormat));
    assert_eq!(decode_frame(ImageCodec::Png, &jpeg).err(), Some(DecodeError::UnsupportedFormat));
    assert_eq!(decode_frame(ImageCodec::Png, &[]).err(), Some(DecodeError::UnsupportedFormat));
    assert_eq!(decode_frame(ImageCodec::Jpeg, b"GIF89a").err(), Some(DecodeError::UnsupportedFormat));
}

#[test]
fn corrupted_jpeg_marker_is_corrupt() {
    let mut bytes = encode_rgb(16, 8, image::ImageFormat::Jpeg);
    let sof = position_of(&bytes, [0xff, 0xc0]);
    bytes[sof + 1] = 0x02;
    assert!(has_signature(ImageCodec::Jpeg, &bytes));
    assert_eq!(decode_frame(ImageCodec::Jpeg, &bytes).err(), Some(DecodeError::Corrupt));
}

#[test]
fn cut_image_is_corrupt() {
    let jpeg = encode_rgb(16, 8, image::ImageFormat::Jpeg);
    assert_eq!(decode_frame(ImageCodec::Jpeg, &jpeg[..20]).err(), Some(DecodeError::Corrupt));
    assert_eq!(decode_frame(ImageCodec::Jpeg, &[0xff, 0xd8, 0xff]).err(), Some(DecodeError::Corrupt));
    let png = encode_rgb(16, 8, image::ImageFormat::Png);
    assert_eq!(decode_frame(ImageCodec::Png, &png[..30]).err(), Some(DecodeError::Corrupt));
    assert_eq!(decode_frame(ImageCodec::Png, &png[..8]).err(), Some(DecodeError::Corrupt));
}

#[test]
fn outcome_of_a_failed_decoder_is_corrupt() {
    assert_eq!(DecodedFrame::from_outcome(3, None).err(), Some(DecodeError::Corrupt));
}

#[test]
fn outcome_must_fit_its_dimensions() {
    let fits = RawImage { width: 2, height: 3, pixels: vec![0; 18] };
    let frame = DecodedFrame::from_outcome(3, Some(fits)).unwrap();
    assert_eq!((frame.width(), frame.height(), frame.channels()), (2, 3, 3));
    let short = RawImage { width: 2, height: 3, pixels: vec![0; 17] };
    assert_eq!(DecodedFrame::from_outcome(3, Some(short)).err(), Some(DecodeError::Corrupt));
    let long = RawImage { width: 2, height: 3, pixels: vec![0; 24] };
    assert_eq!(DecodedFrame::from_outcome(3, Some(long)).err(), Some(DecodeError::Corrupt));
    let rgba = RawImage { width: 2, height: 3, pixels: vec![0; 24] };
    assert!(DecodedFrame::from_outcome(4, Some(rgba)).is_ok());
}

#[test]
fn outcome_must_have_pixels() {
    let flat = RawImage { width: 0, height: 3, pixels: vec![] };
    assert_eq!(DecodedFrame::from_outcome(3, Some(flat)).err(), Some(DecodeError::Corrupt));
    let thin = RawImage { width: 3, height: 0, pixels: vec![] };
    assert_eq!(DecodedFrame::from_outcome(4, Some(thin)).err(), Some(DecodeError::Corrupt));
}

#[test]
fn outcome_must_have_three_or_four_channels() {
    let gray = RawImage { width: 2, height: 2, pixels: vec![0; 4] };
    assert_eq!(DecodedFrame::from_outcome(1, Some(gray)).err(), Some(DecodeError::Corrupt));
    let none = RawImage { width: 2, height: 2, pixels: vec![] };
    assert_eq!(DecodedFrame::from_outcome(0, Some(none)).err(), Some(DecodeError::Corrupt));
}

#[test]
fn huge_dimensions_do_not_overflow() {
    let huge = RawImage { width: u32::MAX, height: u32::MAX, pixels: vec![0; 16] };
    assert_eq!(DecodedFrame::from_outcome(4, Some(huge)).err(), Some(DecodeError::Corrupt));
}

#[test]
fn codec_of_a_media_type() {
    assert_eq!(ImageCodec::from_mime_type("image/jpeg"), Some(ImageCodec::Jpeg));
    assert_eq!(ImageCodec::from_mime_type("image/png"), Some(ImageCodec::Png));
    assert_eq!(ImageCodec::from_mime_type("image/gif"), None);
    assert_eq!(ImageCodec::from_mime_type("IMAGE/PNG"), None);
    assert_eq!(ImageCodec::from_mime_type(""), None);
}
