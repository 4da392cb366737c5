use gif_ops::error::ErrorKind;
use gif_ops::model::{AnimationSequence, Frame};
use gif_ops::ops::{retime_frames, reverse_frames, split_frames};
use gif_ops::resolve::resolve_frame;

fn frame(pixels: Vec<u8>, width: u16, height: u16, palette: Option<Vec<u8>>, delay: u16) -> Frame {
    Frame { width, height, pixels, local_palette: palette, delay }
}

fn three_frame_animation() -> AnimationSequence {
    AnimationSequence {
        canvas_width: 2,
        canvas_height: 1,
        global_palette: Some(vec![1, 2, 3, 4, 5, 6]),
        frames: vec![
            frame(vec![0, 1], 2, 1, None, 10),
            frame(vec![1, 0], 2, 1, Some(vec![9, 9, 9, 8, 8, 8]), 20),
            frame(vec![1, 1], 2, 1, None, 30),
        ],
    }
}

#[test]
fn reverse_keeps_frames_and_reverses_order() {
    let reversed = reverse_frames(three_frame_animation()).unwrap();
    assert_eq!(reversed.canvas_width, 2);
    assert_eq!(reversed.canvas_height, 1);
    assert_eq!(reversed.global_palette, Some(vec![1, 2, 3, 4, 5, 6]));
    let delays: Vec<u16> = reversed.frames.iter().map(|f| f.delay).collect();
    assert_eq!(delays, vec![30, 20, 10]);
    assert_eq!(reversed.frames[0].pixels, vec![1, 1]);
    assert_eq!(reversed.frames[1].pixels, vec![1, 0]);
    assert_eq!(reversed.frames[1].local_palette, Some(vec![9, 9, 9, 8, 8, 8]));
    assert_eq!(reversed.frames[2].pixels, vec![0, 1]);
    assert_eq!(reversed.frames[2].local_palette, None);
}

#[test]
fn reverse_twice_restores_order() {
    let original = three_frame_animation();
    let once = reverse_frames(three_frame_animation()).unwrap();
    let twice = reverse_frames(once).unwrap();
    for (a, b) in twice.frames.iter().zip(original.frames.iter()) {
        assert_eq!(a.pixels, b.pixels);
        assert_eq!(a.local_palette, b.local_palette);
        assert_eq!(a.delay, b.delay);
    }
}

#[test]
fn reverse_rejects_single_frame() {
    let mut anim = three_frame_animation();
    anim.frames.truncate(1);
    let err = reverse_frames(anim).unwrap_err();
    assert_eq!(err.kind, ErrorKind::AnimationTooShort);
}

#[test]
fn reverse_rejects_empty_animation() {
    let mut anim = three_frame_animation();
    anim.frames.clear();
    let err = reverse_frames(anim).unwrap_err();
    assert_eq!(err.kind, ErrorKind::AnimationTooShort);
}

#[test]
fn retime_with_no_delay_keeps_original_delays() {
    let retimed = retime_frames(three_frame_animation(), None).unwrap();
    let delays: Vec<u16> = retimed.frames.iter().map(|f| f.delay).collect();
    assert_eq!(delays, vec![10, 20, 30]);
    assert_eq!(retimed.frames[1].local_palette, Some(vec![9, 9, 9, 8, 8, 8]));
    assert_eq!(retimed.frames[2].pixels, vec![1, 1]);
}

#[test]
fn retime_overwrites_every_delay() {
    let retimed = retime_frames(three_frame_animation(), Some(25)).unwrap();
    for f in &retimed.frames {
        assert_eq!(f.delay, 25);
    }
}

#[test]
fn retime_raises_zero_delay_to_one() {
    let retimed = retime_frames(three_frame_animation(), Some(0)).unwrap();
    for f in &retimed.frames {
        assert_eq!(f.delay, 1);
    }
}

#[test]
fn retime_rejects_single_frame() {
    let mut anim = three_frame_animation();
    anim.frames.truncate(1);
    let err = retime_frames(anim, Some(5)).unwrap_err();
    assert_eq!(err.kind, ErrorKind::AnimationTooShort);
}

#[test]
fn split_rejects_single_frame() {
    let mut anim = three_frame_animation();
    anim.frames.truncate(1);
    let err = split_frames(&anim).unwrap_err();
    assert_eq!(err.kind, ErrorKind::AnimationTooShort);
}

#[test]
fn split_resolves_each_frame_in_order() {
    let anim = three_frame_animation();
    let rasters = split_frames(&anim).unwrap();
    assert_eq!(rasters.len(), 3);
    // First frame uses the global palette.
    assert_eq!(rasters[0], vec![1, 2, 3, 255, 4, 5, 6, 255]);
    // Second frame uses its local palette.
    assert_eq!(rasters[1], vec![8, 8, 8, 255, 9, 9, 9, 255]);
    assert_eq!(rasters[2], vec![4, 5, 6, 255, 4, 5, 6, 255]);
}

#[test]
fn resolve_falls_back_to_black_for_missing_palette_entries() {
    let f = frame(vec![0, 5], 2, 1, Some(vec![7, 8, 9]), 1);
    let raster = resolve_frame(&f, &None).unwrap();
    assert_eq!(raster, vec![7, 8, 9, 255, 0, 0, 0, 255]);
}

#[test]
fn resolve_rejects_mismatched_buffer() {
    let f = frame(vec![0, 1, 2], 2, 1, None, 1);
    let err = resolve_frame(&f, &None).unwrap_err();
    assert_eq!(err.kind, ErrorKind::Conversion);
}

#[test]
fn resolve_prefers_local_over_global_palette() {
    let f = frame(vec![0], 1, 1, Some(vec![10, 20, 30]), 1);
    let global = Some(vec![90, 90, 90]);
    let raster = resolve_frame(&f, &global).unwrap();
    assert_eq!(raster, vec![10, 20, 30, 255]);
}
