use vstd::prelude::*;
use vstd::string::StringExecFns;

use crate::codec::{
    canvas_height_of, canvas_width_of, decode_animation, decode_error, encodable,
    encode_animation, encode_error, gif_bytes, gif_decodes, global_palette_of,
    lemma_encodable_views, palette_bytes, quantize_rgba, quantized, stream_frames, view_encodable,
};
use crate::error::{ErrorKind, GifError};
use crate::model::{
    anim_wf, frame_views, fv_palette, lemma_frame_views_reverse, opt_view, palette_of,
    AnimationSequence, Frame, FrameView,
};
use crate::ops::{clamped_delay, retime_frames, reverse_frames, split_frames};
use crate::raster::{
    png_encode, png_of, resampled_rgba, resampled_rgba_of, still_dims, still_dims_of, still_rgba,
    still_rgba_of,
};
use crate::resolve::{lemma_resolved_raster_len, resolved_raster};

verus! {

/// The still image that splitting yields for frame `i` of the animation the
/// bytes decode to: the frame's RGBA resolution through its palette,
/// serialized as a PNG.
pub open spec fn split_still(data: Seq<u8>, i: int) -> Seq<u8> {
    let fv = stream_frames(data)[i];
    png_of(
        fv.width as int,
        fv.height as int,
        resolved_raster(fv.pixels, fv_palette(fv, global_palette_of(data))),
    )
}

/// Decomposes an animation into its still frames: each frame of the decoded
/// input resolved to an RGBA raster through its palette and serialized as a
/// standalone lossless PNG still image, one output buffer per input frame, in
/// frame order. Fails with a decode error exactly when the input does not
/// decode to a well-formed animation, with an animation-too-short error
/// exactly when that animation holds at most one frame, and with an encode
/// error exactly when some frame has a zero dimension, which the PNG format
/// refuses.
pub fn gif_split(data: &[u8]) -> (res: Result<Vec<Vec<u8>>, GifError>)
    ensures
        match res {
            Ok(v) => {
                &&& gif_decodes(data@)
                &&& stream_frames(data@).len() > 1
                &&& v@.len() == stream_frames(data@).len()
                &&& forall|i: int|
                    0 <= i < v@.len() ==> (#[trigger] v@[i])@ == split_still(data@, i)
            },
            Err(e) => {
                if !gif_decodes(data@) {
                    e.kind == ErrorKind::Decode
                } else if stream_frames(data@).len() <= 1 {
                    e.kind == ErrorKind::AnimationTooShort
                } else {
                    &&& e.kind == ErrorKind::Encode
                    &&& exists|i: int|
                        0 <= i < stream_frames(data@).len() && ((#[trigger] stream_frames(
                            data@,
                        )[i]).width == 0 || stream_frames(data@)[i].height == 0)
                }
            },
        },
{
    let anim = match decode_animation(data) {
        Ok(a) => a,
        Err(e) => {
            return Err(e);
        },
    };
    let rasters = match split_frames(&anim) {
        Ok(v) => v,
        Err(e) => {
            // A well-formed decode leaves no frame with a mismatched buffer,
            // so the only failure left is an animation of at most one frame.
            assert(e.kind == ErrorKind::AnimationTooShort);
            return Err(e);
        },
    };
    let mut stills: Vec<Vec<u8>> = Vec::new();
    let mut i: usize = 0;
    while i < rasters.len()
        invariant
            anim_wf(anim),
            gif_decodes(data@),
            anim.frames@.len() > 1,
            opt_view(anim.global_palette) == global_palette_of(data@),
            frame_views(anim.frames@) == stream_frames(data@),
            rasters@.len() == anim.frames@.len(),
            i <= rasters@.len(),
            stills@.len() == i,
            forall|j: int|
                0 <= j < rasters@.len() ==> (#[trigger] rasters@[j])@ == resolved_raster(
                    anim.frames@[j].pixels@,
                    palette_of(anim.frames@[j], anim.global_palette),
                ),
            forall|j: int|
                0 <= j < anim.frames@.len() ==> (#[trigger] anim.frames@[j]).pixels@.len()
                    == anim.frames@[j].width as int * anim.frames@[j].height as int,
            forall|j: int| 0 <= j < i ==> (#[trigger] stills@[j])@ == split_still(data@, j),
        decreases rasters@.len() - i,
    {
        let f = &anim.frames[i];
        proof {
            lemma_resolved_raster_len(f.pixels@, palette_of(*f, anim.global_palette));
            assert(frame_views(anim.frames@)[i as int] == f@);
            assert(palette_of(*f, anim.global_palette) == fv_palette(
                f@,
                global_palette_of(data@),
            ));
        }
        match png_encode(f.width as u32, f.height as u32, rasters[i].as_slice()) {
            Ok(still) => {
                stills.push(still);
            },
            Err(m) => {
                proof {
                    // The serializer rejects exactly a zero dimension, and
                    // this frame is the stream's frame at this position.
                    assert(stream_frames(data@)[i as int].width == 0 || stream_frames(
                        data@,
                    )[i as int].height == 0);
                }
                return Err(encode_error(m));
            },
        }
        i = i + 1;
    }
    Ok(stills)
}

/// Re-encodes an animation with the frames of the decoded input in exactly
/// reverse order. Each frame keeps its own pixel data, local palette and
/// delay; the canvas and global palette are carried through, and the output
/// loops forever. Fails with a decode error exactly when the input does not
/// decode to a well-formed animation, with an animation-too-short error
/// exactly when that animation holds at most one frame, and with an encode
/// error exactly when the reversed animation cannot be serialized.
pub fn gif_reverse(data: &[u8]) -> (res: Result<Vec<u8>, GifError>)
    ensures
        match res {
            Ok(b) => {
                &&& gif_decodes(data@)
                &&& stream_frames(data@).len() > 1
                &&& view_encodable(stream_frames(data@).reverse(), global_palette_of(data@))
                &&& b@ == gif_bytes(
                    canvas_width_of(data@),
                    canvas_height_of(data@),
                    palette_bytes(global_palette_of(data@)),
                    stream_frames(data@).reverse(),
                )
            },
            Err(e) => {
                if !gif_decodes(data@) {
                    e.kind == ErrorKind::Decode
                } else if stream_frames(data@).len() <= 1 {
                    e.kind == ErrorKind::AnimationTooShort
                } else {
                    &&& e.kind == ErrorKind::Encode
                    &&& !view_encodable(stream_frames(data@).reverse(), global_palette_of(data@))
                }
            },
        },
{
    let anim = match decode_animation(data) {
        Ok(a) => a,
        Err(e) => {
            return Err(e);
        },
    };
    let ghost decoded = anim;
    let reversed = match reverse_frames(anim) {
        Ok(r) => r,
        Err(e) => {
            return Err(e);
        },
    };
    proof {
        lemma_frame_views_reverse(decoded.frames@);
        assert(frame_views(reversed.frames@) == stream_frames(data@).reverse());
        lemma_encodable_views(reversed);
    }
    match encode_animation(&reversed) {
        Ok(bytes) => Ok(bytes),
        Err(e) => Err(e),
    }
}

/// The frame values of the decoded input with every delay rewritten to the
/// given hundredths of a second (raised to at least 1), or all kept.
pub open spec fn retimed_views(frames: Seq<FrameView>, new_delay: Option<u16>) -> Seq<FrameView> {
    frames.map_values(
        |f: FrameView|
            FrameView {
                delay: match new_delay {
                    Some(h) => clamped_delay(h),
                    None => f.delay,
                },
                ..f
            },
    )
}

/// Re-encodes an animation with every frame's delay rewritten to the given
/// hundredths of a second (raised to at least 1), or left unchanged when no
/// new delay is given. Frame order, pixel data and palettes are untouched,
/// and the output loops forever. Fails with a decode error exactly when the
/// input does not decode to a well-formed animation, with an
/// animation-too-short error exactly when that animation holds at most one
/// frame, and with an encode error exactly when the retimed animation cannot
/// be serialized.
pub fn gif_change_duration(data: &[u8], new_delay: Option<u16>) -> (res: Result<Vec<u8>, GifError>)
    ensures
        match res {
            Ok(b) => {
                &&& gif_decodes(data@)
                &&& stream_frames(data@).len() > 1
                &&& view_encodable(
                    retimed_views(stream_frames(data@), new_delay),
                    global_palette_of(data@),
                )
                &&& b@ == gif_bytes(
                    canvas_width_of(data@),
                    canvas_height_of(data@),
                    palette_bytes(global_palette_of(data@)),
                    retimed_views(stream_frames(data@), new_delay),
                )
            },
            Err(e) => {
                if !gif_decodes(data@) {
                    e.kind == ErrorKind::Decode
                } else if stream_frames(data@).len() <= 1 {
                    e.kind == ErrorKind::AnimationTooShort
                } else {
                    &&& e.kind == ErrorKind::Encode
                    &&& !view_encodable(
                        retimed_views(stream_frames(data@), new_delay),
                        global_palette_of(data@),
                    )
                }
            },
        },
{
    let anim = match decode_animation(data) {
        Ok(a) => a,
        Err(e) => {
            return Err(e);
        },
    };
    let ghost decoded = anim;
    let retimed = match retime_frames(anim, new_delay) {
        Ok(r) => r,
        Err(e) => {
            return Err(e);
        },
    };
    proof {
        assert forall|i: int| 0 <= i < retimed.frames@.len() implies frame_views(
            retimed.frames@,
        )[i] == retimed_views(stream_frames(data@), new_delay)[i] by {
            assert(frame_views(retimed.frames@)[i] == retimed.frames@[i]@);
            assert(frame_views(decoded.frames@)[i] == decoded.frames@[i]@);
        }
        assert(frame_views(retimed.frames@) =~= retimed_views(stream_frames(data@), new_delay));
        lemma_encodable_views(retimed);
    }
    match encode_animation(&retimed) {
        Ok(bytes) => Ok(bytes),
        Err(e) => Err(e),
    }
}

/// The delay every composed frame gets, in hundredths of a second: the given
/// value raised to at least 1, or 5 (a twentieth of a second) when the caller
/// gave none.
pub open spec fn merge_delay(new_delay: Option<u16>) -> u16 {
    match new_delay {
        Some(h) => clamped_delay(h),
        None => 5u16,
    }
}

/// The RGBA raster that composition uses for one input image: the image's own
/// raster where its size already matches the canvas (the identity resample),
/// and the Lanczos3 resampling to the canvas otherwise.
pub open spec fn merged_rgba(img: Seq<u8>, width: u32, height: u32) -> Seq<u8> {
    if still_dims_of(img) == Some((width, height)) {
        still_rgba_of(img)
    } else {
        resampled_rgba_of(img, width, height)
    }
}

/// The frame that composition builds from one input image: its raster on the
/// canvas, quantized to an indexed buffer with its own palette, at the given
/// delay.
pub open spec fn merged_frame(img: Seq<u8>, width: u16, height: u16, delay: u16) -> FrameView {
    FrameView {
        width,
        height,
        pixels: quantized(width, height, merged_rgba(img, width as u32, height as u32)).0,
        local_palette: Some(
            quantized(width, height, merged_rgba(img, width as u32, height as u32)).1,
        ),
        delay,
    }
}

/// The frames that composition builds, one per input image, in input order.
pub open spec fn merged_views(
    images: Seq<Vec<u8>>,
    width: u16,
    height: u16,
    delay: u16,
) -> Seq<FrameView> {
    images.map_values(|img: Vec<u8>| merged_frame(img@, width, height, delay))
}

/// Composes still images into one animation that loops forever. The first
/// image defines the canvas; every other image is resampled to that canvas;
/// each image becomes one frame with its own quantized palette and the delay
/// `merge_delay(new_delay)`; the animation carries no global palette, and the
/// returned bytes are its serialization. Fails with an empty-input error
/// exactly when no images are given, with a decode error exactly when some
/// image does not decode as a still image, and with an encode error exactly
/// when the first image oversteps the container's canvas limit.
pub fn gif_merge(images: &Vec<Vec<u8>>, new_delay: Option<u16>) -> (res: Result<Vec<u8>, GifError>)
    ensures
        match res {
            Ok(b) => {
                &&& images@.len() > 0
                &&& still_dims_of(images@[0]@) is Some
                &&& ({
                    let d = still_dims_of(images@[0]@).unwrap();
                    &&& d.0 <= 65535
                    &&& d.1 <= 65535
                    &&& forall|i: int|
                        0 <= i < images@.len() ==> still_dims_of((#[trigger] images@[i])@) is Some
                    &&& b@ == gif_bytes(
                        d.0 as u16,
                        d.1 as u16,
                        Seq::<u8>::empty(),
                        merged_views(images@, d.0 as u16, d.1 as u16, merge_delay(new_delay)),
                    )
                })
            },
            Err(e) => {
                if images@.len() == 0 {
                    e.kind == ErrorKind::EmptyInput
                } else if still_dims_of(images@[0]@) is None {
                    e.kind == ErrorKind::Decode
                } else if still_dims_of(images@[0]@).unwrap().0 > 65535 || still_dims_of(
                    images@[0]@,
                ).unwrap().1 > 65535 {
                    e.kind == ErrorKind::Encode
                } else {
                    &&& e.kind == ErrorKind::Decode
                    &&& exists|i: int|
                        0 <= i < images@.len() && still_dims_of((#[trigger] images@[i])@) is None
                }
            },
        },
{
    if images.len() == 0 {
        return Err(
            GifError::new(
                ErrorKind::EmptyInput,
                String::from_str("composition needs at least one input image"),
            ),
        );
    }
    let (canvas_w, canvas_h) = match still_dims(images[0].as_slice()) {
        Ok(d) => d,
        Err(m) => {
            return Err(decode_error(m));
        },
    };
    if canvas_w > 65535 || canvas_h > 65535 {
        return Err(
            encode_error(String::from_str("the first image exceeds the container's canvas limit")),
        );
    }
    let cw = canvas_w as u16;
    let ch = canvas_h as u16;
    let delay = match new_delay {
        Some(h) => if h < 1 {
            1u16
        } else {
            h
        },
        None => 5u16,
    };
    let mut frames: Vec<Frame> = Vec::new();
    let mut i: usize = 0;
    while i < images.len()
        invariant
            images@.len() > 0,
            still_dims_of(images@[0]@) == Some((canvas_w, canvas_h)),
            canvas_w <= 65535,
            canvas_h <= 65535,
            cw == canvas_w as u16,
            ch == canvas_h as u16,
            delay == merge_delay(new_delay),
            i <= images@.len(),
            frames@.len() == i,
            forall|j: int| 0 <= j < i ==> still_dims_of((#[trigger] images@[j])@) is Some,
            frame_views(frames@) == merged_views(images@, cw, ch, delay).take(i as int),
            forall|j: int|
                0 <= j < i ==> ((#[trigger] frames@[j]).pixels@.len() == (cw as int) * (
                ch as int) && frames@[j].width == cw && frames@[j].height == ch),
            forall|j: int|
                0 <= j < i ==> ((#[trigger] frames@[j]).local_palette matches Some(p) && p@.len()
                    % 3 == 0 && p@.len() <= 768),
        decreases images@.len() - i,
    {
        let dims = match still_dims(images[i].as_slice()) {
            Ok(d) => d,
            Err(m) => {
                return Err(decode_error(m));
            },
        };
        let rgba = if dims.0 == canvas_w && dims.1 == canvas_h {
            match still_rgba(images[i].as_slice()) {
                Ok(r) => r,
                Err(m) => {
                    proof {
                        assert(false);
                    }
                    return Err(decode_error(m));
                },
            }
        } else {
            match resampled_rgba(images[i].as_slice(), canvas_w, canvas_h) {
                Ok(r) => r,
                Err(m) => {
                    proof {
                        assert(false);
                    }
                    return Err(decode_error(m));
                },
            }
        };
        proof {
            assert(rgba@ == merged_rgba(images@[i as int]@, canvas_w, canvas_h));
        }
        let (pixels, palette_opt) = quantize_rgba(cw, ch, rgba);
        let palette = match palette_opt {
            Some(p) => p,
            None => {
                proof {
                    assert(false);
                }
                return Err(encode_error(String::from_str("quantization yielded no palette")));
            },
        };
        frames.push(Frame { width: cw, height: ch, pixels, local_palette: Some(palette), delay });
        i = i + 1;
        proof {
            assert(frame_views(frames@) =~= merged_views(images@, cw, ch, delay).take(i as int));
        }
    }
    let anim = AnimationSequence {
        canvas_width: cw,
        canvas_height: ch,
        global_palette: None,
        frames,
    };
    proof {
        assert(encodable(anim));
        assert(merged_views(images@, cw, ch, delay).take(images@.len() as int) =~= merged_views(
            images@,
            cw,
            ch,
            delay,
        ));
    }
    match encode_animation(&anim) {
        Ok(bytes) => Ok(bytes),
        Err(e) => {
            proof {
                assert(false);
            }
            Err(e)
        },
    }
}

} // verus!
