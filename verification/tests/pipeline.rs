use pixiv_proxy::api::ugoira::UgoiraFrame;
use pixiv_proxy::ugoira::bridge::{collect_frames, FrameSlot, TranscodeContext};
use pixiv_proxy::ugoira::decode::ImageCodec;
use pixiv_proxy::ugoira::error::{
    ArchiveError, DecodeError, EncodeError, MetadataError, TranscodeError,
};
use pixiv_proxy::ugoira::sink::Whence;

fn frame_image(width: u32, height: u32, shade: u8, format: image::ImageFormat) -> Vec<u8> {
    let img = image::RgbImage::from_pixel(width, height, image::Rgb([shade, shade / 2, 255 - shade]));
    let mut out = std::io::Cursor::new(Vec::new());
    image::DynamicImage::ImageRgb8(img).write_to(&mut out, format).unwrap();
    out.into_inner()
}

fn entry(name: &str, data: &[u8]) -> Vec<u8> {
    let mut v = vec![0x50, 0x4b, 0x03, 0x04, 20, 0, 0, 0, 0, 0, 0, 0, 0, 0, 0, 0, 0, 0];
    v.extend_from_slice(&(data.len() as u32).to_le_bytes());
    v.extend_from_slice(&(data.len() as u32).to_le_bytes());
    v.extend_from_slice(&(name.len() as u16).to_le_bytes());
    v.extend_from_slice(&0u16.to_le_bytes());
    v.extend_from_slice(name.as_bytes());
    v.extend_from_slice(data);
    v
}

fn archive_of(frames: &[Vec<u8>]) -> Vec<u8> {
    let mut v = Vec::new();
    for (i, f) in frames.iter().enumerate() {
        v.extend(entry(&format!("{:06}.jpg", i), f));
    }
    v.extend_from_slice(&[0x50, 0x4b, 0x01, 0x02]);
    v.resize(v.len() + 42, 0);
    v.extend_from_slice(&[0x50, 0x4b, 0x05, 0x06]);
    v.resize(v.len() + 18, 0);
    v
}

fn three_jpegs() -> Vec<Vec<u8>> {
    vec![
        frame_image(16, 8, 10, image::ImageFormat::Jpeg),
        frame_image(16, 8, 120, image::ImageFormat::Jpeg),
        frame_image(16, 8, 250, image::ImageFormat::Jpeg),
    ]
}

fn delays(list: &[u16]) -> Vec<UgoiraFrame> {
    list.iter().map(|d| UgoiraFrame { delay: *d }).collect()
}

#[test]
fn three_jpeg_frames_fill_the_timeline() {
    let frames = collect_frames(archive_of(&three_jpegs()), ImageCodec::Jpeg, &delays(&[100, 150, 200]))
        .unwrap();
    assert_eq!(frames.len(), 3);
    assert_eq!(frames[0].slot, FrameSlot { index: 0, start_ms: 0, duration_ms: 100 });
    assert_eq!(frames[1].slot, FrameSlot { index: 1, start_ms: 100, duration_ms: 150 });
    assert_eq!(frames[2].slot, FrameSlot { index: 2, start_ms: 250, duration_ms: 200 });
    let end = frames[2].slot.start_ms + frames[2].slot.duration_ms as u64;
    assert_eq!(end, 450);
    for f in &frames {
        assert_eq!((f.frame.width(), f.frame.height(), f.frame.channels()), (16, 8, 3));
        assert_eq!(f.frame.pixels().len(), 16 * 8 * 3);
    }
    assert!(frames[0].frame.pixels()[0] < frames[2].frame.pixels()[0]);
}

#[test]
fn png_frames_decode_to_rgba() {
    let images = vec![
        frame_image(4, 4, 0, image::ImageFormat::Png),
        frame_image(4, 4, 200, image::ImageFormat::Png),
    ];
    let frames = collect_frames(archive_of(&images), ImageCodec::Png, &delays(&[33, 34])).unwrap();
    assert_eq!(frames.len(), 2);
    assert_eq!(&frames[0].frame.pixels()[..4], &[0, 0, 255, 255]);
    assert_eq!(&frames[1].frame.pixels()[..4], &[200, 100, 55, 255]);
    assert_eq!(frames[1].slot, FrameSlot { index: 1, start_ms: 33, duration_ms: 34 });
}

#[test]
fn no_frames_fails_before_any_byte() {
    let archive = archive_of(&three_jpegs());
    assert_eq!(
        collect_frames(archive.clone(), ImageCodec::Jpeg, &[]).err(),
        Some(TranscodeError::Metadata(MetadataError::NoFrames))
    );
    assert_eq!(
        TranscodeContext::new(archive, ImageCodec::Jpeg, &[]).err(),
        Some(TranscodeError::Metadata(MetadataError::NoFrames))
    );
}

#[test]
fn corrupted_second_frame_is_corrupt_and_yields_no_bytes() {
    let mut images = three_jpegs();
    let sof = images[1].windows(2).position(|w| w == [0xff, 0xc0]).unwrap();
    images[1][sof + 1] = 0x02;
    let archive = archive_of(&images);
    let frames = delays(&[100, 150, 200]);
    assert_eq!(
        collect_frames(archive.clone(), ImageCodec::Jpeg, &frames).err(),
        Some(TranscodeError::Decode(1, DecodeError::Corrupt))
    );
    let mut ctx = TranscodeContext::new(archive, ImageCodec::Jpeg, &frames).unwrap();
    assert!(ctx.next_frame().is_ok());
    ctx.write(b"ftypisom....moov");
    let failure = TranscodeError::Decode(1, DecodeError::Corrupt);
    assert_eq!(ctx.next_frame().err(), Some(failure));
    assert_eq!(ctx.failure(), Some(failure));
    assert_eq!(ctx.next_frame().err(), Some(failure));
    assert_eq!(ctx.output_len(), 16);
    assert_eq!(ctx.finish(0), Err(failure));
}

#[test]
fn stream_closed_after_one_and_a_half_entries_is_truncated() {
    let images = three_jpegs();
    let mut archive = entry("000000.jpg", &images[0]);
    let second = entry("000001.jpg", &images[1]);
    archive.extend_from_slice(&second[..second.len() / 2]);
    let frames = delays(&[100, 150, 200]);
    assert_eq!(
        collect_frames(archive.clone(), ImageCodec::Jpeg, &frames).err(),
        Some(TranscodeError::Archive(1, ArchiveError::Truncated))
    );
    let mut ctx = TranscodeContext::new(archive, ImageCodec::Jpeg, &frames).unwrap();
    assert_eq!(ctx.advance().unwrap().index, 0);
    assert_eq!(ctx.advance().unwrap().index, 1);
    let mut buf = vec![0u8; images[1].len()];
    let n = ctx.read(&mut buf).unwrap();
    assert!(n > 0 && n < images[1].len());
    assert_eq!(&buf[..n], &images[1][..n]);
    let failure = TranscodeError::Archive(1, ArchiveError::Truncated);
    assert_eq!(ctx.read(&mut buf), Err(failure));
    assert_eq!(ctx.advance(), Err(failure));
    assert_eq!(ctx.finish(0), Err(failure));
}

#[test]
fn stream_closed_inside_a_header_is_truncated() {
    let images = three_jpegs();
    let mut archive = entry("000000.jpg", &images[0]);
    archive.extend_from_slice(&entry("000001.jpg", &images[1])[..12]);
    assert_eq!(
        collect_frames(archive, ImageCodec::Jpeg, &delays(&[1, 2])).err(),
        Some(TranscodeError::Archive(1, ArchiveError::Truncated))
    );
}

#[test]
fn wrong_codec_fails_at_the_first_frame() {
    let archive = archive_of(&three_jpegs());
    assert_eq!(
        collect_frames(archive, ImageCodec::Png, &delays(&[1, 2, 3])).err(),
        Some(TranscodeError::Decode(0, DecodeError::UnsupportedFormat))
    );
}

#[test]
fn unsupported_compression_carries_the_frame_index() {
    let images = three_jpegs();
    let mut archive = entry("000000.jpg", &images[0]);
    let mut second = entry("000001.jpg", &images[1]);
    second[8] = 12;
    archive.extend(second);
    assert_eq!(
        collect_frames(archive, ImageCodec::Jpeg, &delays(&[1, 2])).err(),
        Some(TranscodeError::Archive(1, ArchiveError::UnsupportedCompression))
    );
}

#[test]
fn archive_with_too_few_entries_fails_where_one_is_missing() {
    let images = three_jpegs();
    let archive = archive_of(&images[..2]);
    assert_eq!(
        collect_frames(archive, ImageCodec::Jpeg, &delays(&[1, 2, 3])).err(),
        Some(TranscodeError::Archive(2, ArchiveError::MalformedHeader))
    );
}

#[test]
fn archive_with_too_many_entries_is_a_count_mismatch() {
    let archive = archive_of(&three_jpegs());
    assert_eq!(
        collect_frames(archive, ImageCodec::Jpeg, &delays(&[1, 2])).err(),
        Some(TranscodeError::Metadata(MetadataError::CountMismatch))
    );
}

#[test]
fn advancing_past_the_last_frame_is_a_count_mismatch() {
    let archive = archive_of(&three_jpegs());
    let mut ctx = TranscodeContext::new(archive, ImageCodec::Jpeg, &delays(&[5, 6, 7])).unwrap();
    assert_eq!(ctx.frames_done(), 0);
    assert_eq!(ctx.advance(), Ok(FrameSlot { index: 0, start_ms: 0, duration_ms: 5 }));
    assert_eq!(ctx.advance(), Ok(FrameSlot { index: 1, start_ms: 5, duration_ms: 6 }));
    assert_eq!(ctx.advance(), Ok(FrameSlot { index: 2, start_ms: 11, duration_ms: 7 }));
    assert_eq!(ctx.frames_done(), 3);
    let failure = TranscodeError::Metadata(MetadataError::CountMismatch);
    assert_eq!(ctx.advance(), Err(failure));
    assert_eq!(ctx.finish(0), Err(failure));
}

#[test]
fn read_hands_out_the_raw_frame() {
    let images = three_jpegs();
    let archive = archive_of(&images);
    let mut ctx = TranscodeContext::new(archive, ImageCodec::Jpeg, &delays(&[5, 6, 7])).unwrap();
    let mut buf = [0u8; 64];
    assert_eq!(ctx.read(&mut buf), Ok(0));
    for image in &images {
        ctx.advance().unwrap();
        let mut raw = Vec::new();
        loop {
            let n = ctx.read(&mut buf).unwrap();
            if n == 0 {
                break;
            }
            raw.extend_from_slice(&buf[..n]);
        }
        assert_eq!(&raw, image);
    }
}

#[test]
fn finished_transcode_hands_out_the_sink() {
    let archive = archive_of(&three_jpegs());
    let mut ctx = TranscodeContext::new(archive, ImageCodec::Jpeg, &delays(&[5, 6, 7])).unwrap();
    for _ in 0..3 {
        ctx.next_frame().unwrap();
    }
    assert_eq!(ctx.write(b"....mdat"), 8);
    assert_eq!(ctx.write(b"frames"), 6);
    assert_eq!(ctx.seek(0, Whence::Start), 0);
    assert_eq!(ctx.write(&[0, 0, 0, 14]), 4);
    assert_eq!(ctx.seek(0, Whence::End), 14);
    assert_eq!(ctx.output_len(), 14);
    assert_eq!(ctx.finish(0), Ok(b"\0\0\0\x0emdatframes".to_vec()));
}

#[test]
fn encoder_failure_hands_out_nothing() {
    let archive = archive_of(&three_jpegs());
    let mut ctx = TranscodeContext::new(archive, ImageCodec::Jpeg, &delays(&[5, 6, 7])).unwrap();
    for _ in 0..3 {
        ctx.next_frame().unwrap();
    }
    ctx.write(b"partial");
    assert_eq!(ctx.finish(-22), Err(TranscodeError::Encode(EncodeError { status: -22 })));
}

#[test]
fn unfinished_transcode_hands_out_nothing() {
    let archive = archive_of(&three_jpegs());
    let mut ctx = TranscodeContext::new(archive, ImageCodec::Jpeg, &delays(&[5, 6, 7])).unwrap();
    ctx.next_frame().unwrap();
    ctx.write(b"partial");
    assert_eq!(ctx.finish(0), Err(TranscodeError::Metadata(MetadataError::CountMismatch)));
}

#[test]
fn same_input_same_frames() {
    let archive = archive_of(&three_jpegs());
    let frames = delays(&[100, 150, 200]);
    let a = collect_frames(archive.clone(), ImageCodec::Jpeg, &frames).unwrap();
    let b = collect_frames(archive, ImageCodec::Jpeg, &frames).unwrap();
    assert_eq!(a.len(), b.len());
    for (x, y) in a.iter().zip(b.iter()) {
        assert_eq!(x.slot, y.slot);
        assert_eq!(x.frame.pixels(), y.frame.pixels());
    }
}

#[test]
fn errors_have_a_status_and_a_reason() {
    let cases = [
        (TranscodeError::Metadata(MetadataError::NoFrames), 404, "metadata lists no frames"),
        (TranscodeError::Metadata(MetadataError::TooManyFrames), 404, "metadata lists too many frames"),
        (
            TranscodeError::Metadata(MetadataError::CountMismatch),
            404,
            "archive and metadata disagree on the number of frames",
        ),
        (TranscodeError::Archive(0, ArchiveError::MalformedHeader), 502, "frame 0: malformed archive header"),
        (
            TranscodeError::Archive(12, ArchiveError::UnsupportedCompression),
            502,
            "frame 12: unsupported compression",
        ),
        (TranscodeError::Archive(1, ArchiveError::Truncated), 502, "frame 1: archive truncated"),
        (TranscodeError::Decode(1, DecodeError::Corrupt), 502, "frame 1: corrupt image"),
        (
            TranscodeError::Decode(u32::MAX, DecodeError::UnsupportedFormat),
            502,
            "frame 4294967295: unsupported image format",
        ),
        (TranscodeError::Encode(EncodeError { status: 1 }), 500, "encoder failed with status 1"),
        (TranscodeError::Encode(EncodeError { status: -22 }), 500, "encoder failed with status -22"),
        (
            TranscodeError::Encode(EncodeError { status: i32::MIN }),
            500,
            "encoder failed with status -2147483648",
        ),
    ];
    for (error, status, reason) in cases {
        assert_eq!(error.status_code(), status);
        assert_eq!(error.reason(), reason);
        let answer = pixiv_proxy::api::error::ApiError::from_transcode(&error);
        assert_eq!(answer.status_code(), status);
        assert_eq!(answer.message(), format!("{}: {}", status, reason));
    }
    assert_eq!(TranscodeError::Archive(3, ArchiveError::Truncated).frame(), Some(3));
    assert_eq!(TranscodeError::Decode(4, DecodeError::Corrupt).frame(), Some(4));
    assert_eq!(TranscodeError::Metadata(MetadataError::NoFrames).frame(), None);
    assert_eq!(TranscodeError::Encode(EncodeError { status: 1 }).frame(), None);
}

#[test]
fn checked_advance_refuses_a_frame_that_does_not_decode() {
    let mut images = three_jpegs();
    let sof = images[1].windows(2).position(|w| w == [0xff, 0xc0]).unwrap();
    images[1][sof + 1] = 0x02;
    let archive = archive_of(&images);
    let mut ctx = TranscodeContext::new(archive, ImageCodec::Jpeg, &delays(&[100, 150, 200])).unwrap();
    assert_eq!(ctx.advance_checked(), Ok(FrameSlot { index: 0, start_ms: 0, duration_ms: 100 }));
    let mut raw = vec![0u8; images[0].len() + 10];
    assert_eq!(ctx.read(&mut raw), Ok(images[0].len()));
    assert_eq!(&raw[..images[0].len()], &images[0][..]);
    let failure = TranscodeError::Decode(1, DecodeError::Corrupt);
    assert_eq!(ctx.advance_checked(), Err(failure));
    assert_eq!(ctx.read(&mut raw), Err(failure));
    assert_eq!(ctx.finish(1), Err(failure));
}

#[test]
fn checked_advance_reports_the_archive_first() {
    let images = three_jpegs();
    let mut archive = entry("000000.jpg", &images[0]);
    let second = entry("000001.jpg", &images[1]);
    archive.extend_from_slice(&second[..second.len() - 1]);
    let mut ctx = TranscodeContext::new(archive, ImageCodec::Jpeg, &delays(&[1, 2])).unwrap();
    assert!(ctx.advance_checked().is_ok());
    assert_eq!(ctx.advance_checked(), Err(TranscodeError::Archive(1, ArchiveError::Truncated)));
    let wrong = archive_of(&images);
    let mut ctx = TranscodeContext::new(wrong, ImageCodec::Png, &delays(&[1, 2, 3])).unwrap();
    assert_eq!(ctx.advance_checked(), Err(TranscodeError::Decode(0, DecodeError::UnsupportedFormat)));
}

#[test]
fn same_png_frames_same_pixels() {
    let images = vec![
        frame_image(5, 3, 17, image::ImageFormat::Png),
        frame_image(5, 3, 99, image::ImageFormat::Png),
    ];
    let a = collect_frames(archive_of(&images), ImageCodec::Png, &delays(&[10, 20])).unwrap();
    let b = collect_frames(archive_of(&images), ImageCodec::Png, &delays(&[10, 20])).unwrap();
    for (x, y) in a.iter().zip(b.iter()) {
        assert_eq!(x.slot, y.slot);
        assert_eq!((x.frame.width(), x.frame.height()), (5, 3));
        assert_eq!(x.frame.pixels(), y.frame.pixels());
    }
    assert_eq!(&a[0].frame.pixels()[..4], &[17, 8, 238, 255]);
    assert_eq!(&a[1].frame.pixels()[..4], &[99, 49, 156, 255]);
}

fn feed(ctx: &mut TranscodeContext, stream: &[u8], at: &mut usize, chunk: usize) {
    loop {
        let want = ctx.wanted().min(chunk);
        if want == 0 || *at == stream.len() {
            return;
        }
        let end = (*at + want).min(stream.len());
        assert!(ctx.extend(&stream[*at..end]));
        *at = end;
    }
}

#[test]
fn archive_arrives_piece_by_piece() {
    let images = three_jpegs();
    let stream = archive_of(&images);
    for chunk in [1usize, 7, 4096, usize::MAX] {
        let mut ctx = TranscodeContext::new(Vec::new(), ImageCodec::Jpeg, &delays(&[5, 6, 7])).unwrap();
        let mut at = 0;
        assert_eq!(ctx.wanted(), 30);
        for (i, image) in images.iter().enumerate() {
            feed(&mut ctx, &stream, &mut at, chunk);
            assert_eq!(ctx.wanted(), 0);
            let entry_end: usize = images[..=i].iter().map(|f| 30 + 10 + f.len()).sum();
            assert_eq!(at, entry_end);
            assert_eq!(ctx.advance_checked().unwrap().index, i as u32);
            let mut raw = vec![0u8; image.len() + 1];
            assert_eq!(ctx.read(&mut raw), Ok(image.len()));
            assert_eq!(&raw[..image.len()], &image[..]);
        }
        feed(&mut ctx, &stream, &mut at, chunk);
        assert_eq!(ctx.wanted(), 0);
        ctx.write(b"video");
        assert_eq!(ctx.finish(0), Ok(b"video".to_vec()));
    }
}

#[test]
fn stream_that_ends_while_it_arrives_is_truncated() {
    let images = three_jpegs();
    let whole = archive_of(&images);
    let cut = 30 + 10 + images[0].len() + 30 + 10 + images[1].len() / 2;
    let stream = &whole[..cut];
    let mut ctx = TranscodeContext::new(Vec::new(), ImageCodec::Jpeg, &delays(&[5, 6, 7])).unwrap();
    let mut at = 0;
    feed(&mut ctx, stream, &mut at, 100);
    assert!(ctx.advance_checked().is_ok());
    feed(&mut ctx, stream, &mut at, 100);
    assert_eq!(at, cut);
    assert!(ctx.wanted() > 0);
    let failure = TranscodeError::Archive(1, ArchiveError::Truncated);
    assert_eq!(ctx.advance_checked(), Err(failure));
    assert!(!ctx.extend(&whole[cut..]));
    assert_eq!(ctx.finish(0), Err(failure));
}

#[test]
fn entry_behind_the_last_frame_is_seen_when_it_arrives() {
    let images = three_jpegs();
    let stream = archive_of(&images);
    let mut ctx = TranscodeContext::new(Vec::new(), ImageCodec::Jpeg, &delays(&[5, 6])).unwrap();
    let mut at = 0;
    for _ in 0..2 {
        feed(&mut ctx, &stream, &mut at, 512);
        ctx.advance_checked().unwrap();
    }
    feed(&mut ctx, &stream, &mut at, 512);
    assert_eq!(ctx.finish(0), Err(TranscodeError::Metadata(MetadataError::CountMismatch)));
}
