use gif_ops::codec::{decode_animation, encode_animation};
use gif_ops::error::ErrorKind;
use gif_ops::gif_split;
use gif_ops::model::{AnimationSequence, Frame};

fn frame(pixels: Vec<u8>, palette: Option<Vec<u8>>, delay: u16) -> Frame {
    Frame { width: 2, height: 2, pixels, local_palette: palette, delay }
}

fn model_animation() -> AnimationSequence {
    AnimationSequence {
        canvas_width: 2,
        canvas_height: 2,
        global_palette: Some(vec![10, 20, 30, 40, 50, 60]),
        frames: vec![
            frame(vec![0, 1, 1, 0], None, 12),
            frame(vec![1, 1, 0, 0], Some(vec![5, 6, 7, 8, 9, 10]), 34),
            frame(vec![0, 0, 0, 1], None, 56),
        ],
    }
}

#[test]
fn encode_then_decode_restores_the_model() {
    let bytes = encode_animation(&model_animation()).unwrap();
    let back = decode_animation(&bytes).unwrap();
    let original = model_animation();
    assert_eq!(back.canvas_width, 2);
    assert_eq!(back.canvas_height, 2);
    assert_eq!(back.global_palette.as_deref().unwrap()[..6], [10, 20, 30, 40, 50, 60]);
    assert_eq!(back.frames.len(), 3);
    for (a, b) in back.frames.iter().zip(original.frames.iter()) {
        assert_eq!(a.pixels, b.pixels);
        assert_eq!(a.delay, b.delay);
    }
    assert_eq!(back.frames[1].local_palette.as_deref().unwrap()[..6], [5, 6, 7, 8, 9, 10]);
}

#[test]
fn split_of_an_encoded_animation_yields_one_still_per_frame() {
    let bytes = encode_animation(&model_animation()).unwrap();
    let stills = gif_split(&bytes).unwrap();
    assert_eq!(stills.len(), 3);
}

#[test]
fn encode_rejects_a_mismatched_frame_buffer() {
    let mut anim = model_animation();
    anim.frames[1].pixels.pop();
    let err = encode_animation(&anim).unwrap_err();
    assert_eq!(err.kind, ErrorKind::Encode);
}

#[test]
fn encode_rejects_a_ragged_local_palette() {
    let mut anim = model_animation();
    anim.frames[1].local_palette = Some(vec![1, 2, 3, 4]);
    let err = encode_animation(&anim).unwrap_err();
    assert_eq!(err.kind, ErrorKind::Encode);
}

#[test]
fn encode_rejects_an_oversized_global_palette() {
    let mut anim = model_animation();
    anim.global_palette = Some(vec![0; 771]);
    let err = encode_animation(&anim).unwrap_err();
    assert_eq!(err.kind, ErrorKind::Encode);
}

#[test]
fn encode_rejects_a_frame_with_no_usable_palette() {
    let mut anim = model_animation();
    anim.global_palette = None;
    let err = encode_animation(&anim).unwrap_err();
    assert_eq!(err.kind, ErrorKind::Encode);
}
