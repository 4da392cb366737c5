use gif_ops::codec::decode_animation;
use gif_ops::error::ErrorKind;
use gif_ops::resolve::resolve_frame;
use gif_ops::{gif_change_duration, gif_reverse, gif_split};

/// Serializes an animation with the given 2x1 frames straight through the
/// codec crate: each frame is (two palette indices, a six-byte local palette,
/// a delay in hundredths of a second).
fn build_gif(frames: &[(Vec<u8>, Vec<u8>, u16)]) -> Vec<u8> {
    let mut bytes = Vec::new();
    {
        let mut encoder = gif::Encoder::new(&mut bytes, 2, 1, &[]).unwrap();
        encoder.set_repeat(gif::Repeat::Infinite).unwrap();
        for (pixels, palette, delay) in frames {
            let mut frame = gif::Frame::default();
            frame.width = 2;
            frame.height = 1;
            frame.buffer = std::borrow::Cow::Owned(pixels.clone());
            frame.palette = Some(palette.clone());
            frame.delay = *delay;
            encoder.write_frame(&frame).unwrap();
        }
    }
    bytes
}

fn three_frame_gif() -> Vec<u8> {
    build_gif(&[
        (vec![0, 1], vec![255, 0, 0, 0, 255, 0], 10),
        (vec![1, 0], vec![0, 0, 255, 255, 255, 0], 20),
        (vec![1, 1], vec![0, 255, 255, 255, 0, 255], 30),
    ])
}

fn single_frame_gif() -> Vec<u8> {
    build_gif(&[(vec![0, 1], vec![255, 0, 0, 0, 255, 0], 10)])
}

#[test]
fn decode_reads_back_what_was_written() {
    let anim = decode_animation(&three_frame_gif()).unwrap();
    assert_eq!(anim.canvas_width, 2);
    assert_eq!(anim.canvas_height, 1);
    assert_eq!(anim.frames.len(), 3);
    assert_eq!(anim.frames[0].pixels, vec![0, 1]);
    assert_eq!(anim.frames[0].delay, 10);
    assert_eq!(anim.frames[1].local_palette, Some(vec![0, 0, 255, 255, 255, 0]));
    assert_eq!(anim.frames[2].delay, 30);
}

#[test]
fn decode_rejects_garbage() {
    let err = decode_animation(b"not an animation at all").unwrap_err();
    assert_eq!(err.kind, ErrorKind::Decode);
}

#[test]
fn reverse_reverses_content_and_delays() {
    let reversed_bytes = gif_reverse(&three_frame_gif()).unwrap();
    let anim = decode_animation(&reversed_bytes).unwrap();
    assert_eq!(anim.frames.len(), 3);
    let delays: Vec<u16> = anim.frames.iter().map(|f| f.delay).collect();
    assert_eq!(delays, vec![30, 20, 10]);
    assert_eq!(anim.frames[0].pixels, vec![1, 1]);
    assert_eq!(anim.frames[0].local_palette, Some(vec![0, 255, 255, 255, 0, 255]));
    assert_eq!(anim.frames[1].pixels, vec![1, 0]);
    assert_eq!(anim.frames[2].pixels, vec![0, 1]);
    assert_eq!(anim.frames[2].local_palette, Some(vec![255, 0, 0, 0, 255, 0]));
}

#[test]
fn reverse_twice_restores_content() {
    let original = decode_animation(&three_frame_gif()).unwrap();
    let once = gif_reverse(&three_frame_gif()).unwrap();
    let twice_bytes = gif_reverse(&once).unwrap();
    let twice = decode_animation(&twice_bytes).unwrap();
    assert_eq!(twice.frames.len(), original.frames.len());
    for (a, b) in twice.frames.iter().zip(original.frames.iter()) {
        let ra = resolve_frame(a, &twice.global_palette).unwrap();
        let rb = resolve_frame(b, &original.global_palette).unwrap();
        assert_eq!(ra, rb);
        assert_eq!(a.delay, b.delay);
    }
}

#[test]
fn reverse_rejects_single_frame_animation() {
    let err = gif_reverse(&single_frame_gif()).unwrap_err();
    assert_eq!(err.kind, ErrorKind::AnimationTooShort);
}

#[test]
fn split_yields_one_still_per_frame() {
    let stills = gif_split(&three_frame_gif()).unwrap();
    assert_eq!(stills.len(), 3);
}

#[test]
fn split_stills_decode_to_the_resolved_rasters() {
    let anim = decode_animation(&three_frame_gif()).unwrap();
    let stills = gif_split(&three_frame_gif()).unwrap();
    for (still, frame) in stills.iter().zip(anim.frames.iter()) {
        let img = image::load_from_memory(still).unwrap();
        assert_eq!(img.width(), frame.width as u32);
        assert_eq!(img.height(), frame.height as u32);
        let raster = resolve_frame(frame, &anim.global_palette).unwrap();
        assert_eq!(img.to_rgba8().into_raw(), raster);
    }
}

#[test]
fn split_rejects_single_frame_animation() {
    let err = gif_split(&single_frame_gif()).unwrap_err();
    assert_eq!(err.kind, ErrorKind::AnimationTooShort);
}

#[test]
fn split_rejects_garbage() {
    let err = gif_split(b"???").unwrap_err();
    assert_eq!(err.kind, ErrorKind::Decode);
}

#[test]
fn change_duration_overwrites_every_delay() {
    // A duration of 0.07 s per frame, as hundredths of a second.
    let delay = (0.07f64 * 100.0).round() as u16;
    assert_eq!(delay, 7);
    let out = gif_change_duration(&three_frame_gif(), Some(delay)).unwrap();
    let anim = decode_animation(&out).unwrap();
    let delays: Vec<u16> = anim.frames.iter().map(|f| f.delay).collect();
    assert_eq!(delays, vec![7, 7, 7]);
    assert_eq!(anim.frames[0].pixels, vec![0, 1]);
    assert_eq!(anim.frames[1].pixels, vec![1, 0]);
}

#[test]
fn change_duration_keeps_delays_without_a_new_delay() {
    let out = gif_change_duration(&three_frame_gif(), None).unwrap();
    let anim = decode_animation(&out).unwrap();
    let delays: Vec<u16> = anim.frames.iter().map(|f| f.delay).collect();
    assert_eq!(delays, vec![10, 20, 30]);
}

#[test]
fn change_duration_raises_zero_to_one() {
    let out = gif_change_duration(&three_frame_gif(), Some(0)).unwrap();
    let anim = decode_animation(&out).unwrap();
    for f in &anim.frames {
        assert_eq!(f.delay, 1);
    }
}

#[test]
fn change_duration_rejects_single_frame_animation() {
    let err = gif_change_duration(&single_frame_gif(), Some(5)).unwrap_err();
    assert_eq!(err.kind, ErrorKind::AnimationTooShort);
}

#[test]
fn frames_keep_their_palettes_through_retiming() {
    let out = gif_change_duration(&three_frame_gif(), Some(4)).unwrap();
    let anim = decode_animation(&out).unwrap();
    let resolved: Vec<Vec<u8>> = anim
        .frames
        .iter()
        .map(|f| resolve_frame(f, &anim.global_palette).unwrap())
        .collect();
    assert_eq!(resolved[0], vec![255, 0, 0, 255, 0, 255, 0, 255]);
    assert_eq!(resolved[1], vec![255, 255, 0, 255, 0, 0, 255, 255]);
    assert_eq!(resolved[2], vec![255, 0, 255, 255, 255, 0, 255, 255]);
}
