use vstd::prelude::*;
use vstd::string::StringExecFns;

use crate::error::{ErrorKind, GifError};
use crate::model::{palette_of, same_canvas, same_visual, AnimationSequence, Frame};
use crate::resolve::{resolve_frame, resolved_raster};

verus! {

/// The frame order that reversal produces.
pub open spec fn reversed_order(frames: Seq<Frame>) -> Seq<Frame> {
    frames.reverse()
}

/// Reversing a frame sequence twice restores the original order: the law that
/// makes reversal an involution on the frame model.
pub proof fn lemma_reverse_reverse(frames: Seq<Frame>)
    ensures
        reversed_order(reversed_order(frames)) == frames,
{
    assert(reversed_order(reversed_order(frames)) =~= frames);
}

/// The delay every frame gets when a new duration was asked for: the given
/// hundredths of a second, raised to the minimum of one so that no frame is
/// ever ambiguous to a renderer.
pub open spec fn clamped_delay(hundredths: u16) -> u16 {
    if hundredths < 1 {
        1u16
    } else {
        hundredths
    }
}

/// An exact byte copy of a pixel or palette buffer.
fn clone_bytes(v: &Vec<u8>) -> (r: Vec<u8>)
    ensures
        r@ == v@,
{
    let mut r: Vec<u8> = Vec::new();
    let mut i: usize = 0;
    while i < v.len()
        invariant
            i <= v@.len(),
            r@ == v@.take(i as int),
        decreases v@.len() - i,
    {
        r.push(v[i]);
        proof {
            assert(r@ =~= v@.take(i as int + 1));
        }
        i = i + 1;
    }
    proof {
        assert(v@.take(v@.len() as int) =~= v@);
    }
    r
}

/// A copy of a frame that keeps its picture (dimensions, pixels, and local
/// palette identity) and carries the given delay.
fn copy_frame_with_delay(f: &Frame, delay: u16) -> (r: Frame)
    ensures
        same_visual(r, *f),
        r.delay == delay,
{
    let local_palette = match &f.local_palette {
        Some(p) => Some(clone_bytes(p)),
        None => None,
    };
    Frame { width: f.width, height: f.height, pixels: clone_bytes(&f.pixels), local_palette, delay }
}

fn too_short_error() -> (e: GifError)
    ensures
        e.kind == ErrorKind::AnimationTooShort,
{
    GifError::new(
        ErrorKind::AnimationTooShort,
        String::from_str("the animation must hold more than one frame"),
    )
}

/// Emits the frames of an animation in exactly reverse order. Each frame
/// keeps its pixel data, its own local palette and its own delay; the canvas
/// and the global palette are carried through unmodified. Fails, with an
/// animation-too-short error, exactly when the input holds at most one frame.
pub fn reverse_frames(a: AnimationSequence) -> (res: Result<AnimationSequence, GifError>)
    ensures
        match res {
            Ok(r) => {
                &&& a.frames@.len() > 1
                &&& r.canvas_width == a.canvas_width
                &&& r.canvas_height == a.canvas_height
                &&& r.global_palette == a.global_palette
                &&& r.frames@ == reversed_order(a.frames@)
            },
            Err(e) => {
                &&& a.frames@.len() <= 1
                &&& e.kind == ErrorKind::AnimationTooShort
            },
        },
{
    if a.frames.len() <= 1 {
        return Err(too_short_error());
    }
    let AnimationSequence { canvas_width, canvas_height, global_palette, mut frames } = a;
    let ghost orig = frames@;
    let mut reversed: Vec<Frame> = Vec::new();
    while frames.len() > 0
        invariant
            frames@ == orig.take(orig.len() - reversed@.len()),
            reversed@.len() <= orig.len(),
            forall|i: int|
                0 <= i < reversed@.len() ==> #[trigger] reversed@[i] == orig[orig.len() - 1 - i],
        decreases frames@.len(),
    {
        let f = frames.pop().unwrap();
        reversed.push(f);
    }
    proof {
        assert(reversed@ =~= reversed_order(orig));
    }
    Ok(AnimationSequence { canvas_width, canvas_height, global_palette, frames: reversed })
}

/// Rewrites every frame's display duration, or keeps them all. With a new
/// delay of `Some(h)`, every output frame's delay is `h` in hundredths of a
/// second, raised to at least 1; with `None`, every frame keeps its original
/// delay. Frame order, pixel data and palettes are untouched, and the canvas
/// and global palette are carried through. Fails, with an
/// animation-too-short error, exactly when the input holds at most one frame.
pub fn retime_frames(a: AnimationSequence, new_delay: Option<u16>) -> (res: Result<
    AnimationSequence,
    GifError,
>)
    ensures
        match res {
            Ok(r) => {
                &&& a.frames@.len() > 1
                &&& same_canvas(r, a)
                &&& r.global_palette == a.global_palette
                &&& r.frames@.len() == a.frames@.len()
                &&& forall|i: int|
                    0 <= i < a.frames@.len() ==> same_visual(
                        #[trigger] r.frames@[i],
                        a.frames@[i],
                    )
                &&& forall|i: int|
                    0 <= i < a.frames@.len() ==> (#[trigger] r.frames@[i]).delay == match new_delay {
                        Some(h) => clamped_delay(h),
                        None => a.frames@[i].delay,
                    }
            },
            Err(e) => {
                &&& a.frames@.len() <= 1
                &&& e.kind == ErrorKind::AnimationTooShort
            },
        },
{
    if a.frames.len() <= 1 {
        return Err(too_short_error());
    }
    let mut retimed: Vec<Frame> = Vec::new();
    let mut i: usize = 0;
    while i < a.frames.len()
        invariant
            i <= a.frames@.len(),
            retimed@.len() == i,
            forall|j: int|
                0 <= j < i ==> same_visual(#[trigger] retimed@[j], a.frames@[j]),
            forall|j: int|
                0 <= j < i ==> (#[trigger] retimed@[j]).delay == match new_delay {
                    Some(h) => clamped_delay(h),
                    None => a.frames@[j].delay,
                },
        decreases a.frames@.len() - i,
    {
        let f = &a.frames[i];
        let delay = match new_delay {
            Some(h) => if h < 1 {
                1u16
            } else {
                h
            },
            None => f.delay,
        };
        retimed.push(copy_frame_with_delay(f, delay));
        i = i + 1;
    }
    Ok(
        AnimationSequence {
            canvas_width: a.canvas_width,
            canvas_height: a.canvas_height,
            global_palette: a.global_palette,
            frames: retimed,
        },
    )
}

/// Resolves every frame of an animation to a standalone RGBA raster, in frame
/// order. Fails, with an animation-too-short error, exactly when the input
/// holds at most one frame; fails with a conversion error exactly when some
/// frame's buffer does not match its declared dimensions.
pub fn split_frames(a: &AnimationSequence) -> (res: Result<Vec<Vec<u8>>, GifError>)
    ensures
        match res {
            Ok(v) => {
                &&& a.frames@.len() > 1
                &&& v@.len() == a.frames@.len()
                &&& forall|i: int|
                    0 <= i < a.frames@.len() ==> (#[trigger] v@[i])@ == resolved_raster(
                        a.frames@[i].pixels@,
                        palette_of(a.frames@[i], a.global_palette),
                    )
                &&& forall|i: int|
                    0 <= i < a.frames@.len() ==> (#[trigger] a.frames@[i]).pixels@.len()
                        == a.frames@[i].width as int * a.frames@[i].height as int
            },
            Err(e) => {
                if a.frames@.len() <= 1 {
                    e.kind == ErrorKind::AnimationTooShort
                } else {
                    &&& e.kind == ErrorKind::Conversion
                    &&& exists|i: int|
                        0 <= i < a.frames@.len() && (#[trigger] a.frames@[i]).pixels@.len()
                            != a.frames@[i].width as int * a.frames@[i].height as int
                }
            },
        },
{
    if a.frames.len() <= 1 {
        return Err(too_short_error());
    }
    let mut rasters: Vec<Vec<u8>> = Vec::new();
    let mut i: usize = 0;
    while i < a.frames.len()
        invariant
            a.frames@.len() > 1,
            i <= a.frames@.len(),
            rasters@.len() == i,
            forall|j: int|
                0 <= j < i ==> (#[trigger] rasters@[j])@ == resolved_raster(
                    a.frames@[j].pixels@,
                    palette_of(a.frames@[j], a.global_palette),
                ),
            forall|j: int|
                0 <= j < i ==> (#[trigger] a.frames@[j]).pixels@.len() == a.frames@[j].width as int
                    * a.frames@[j].height as int,
        decreases a.frames@.len() - i,
    {
        match resolve_frame(&a.frames[i], &a.global_palette) {
            Ok(r) => {
                rasters.push(r);
            },
            Err(e) => {
                return Err(e);
            },
        }
        i = i + 1;
    }
    Ok(rasters)
}

} // verus!
