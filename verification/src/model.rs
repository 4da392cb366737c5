use vstd::prelude::*;

verus! {

/// One timed still image within an animation.
///
/// The pixel buffer holds indexed color data, one palette index per pixel in
/// row-major order, top to bottom. A frame's colors come from its own local
/// palette when it has one, and from the animation's global palette otherwise.
/// Palettes are flat lists of RGB bytes, three per color. The delay is the
/// frame's display duration in hundredths of a second. Disposal is always
/// "replace the whole canvas": no partial-region compositing is modeled.
#[derive(Debug)]
pub struct Frame {
    pub width: u16,
    pub height: u16,
    pub pixels: Vec<u8>,
    pub local_palette: Option<Vec<u8>>,
    pub delay: u16,
}

/// An in-memory animation: a canvas, an optional global palette, and the
/// ordered frames. The loop policy is not stored because every encoded
/// output loops forever.
#[derive(Debug)]
pub struct AnimationSequence {
    pub canvas_width: u16,
    pub canvas_height: u16,
    pub global_palette: Option<Vec<u8>>,
    pub frames: Vec<Frame>,
}

/// The mathematical value of one frame: what a `Frame` holds, free of any
/// particular buffer allocation.
pub ghost struct FrameView {
    pub width: u16,
    pub height: u16,
    pub pixels: Seq<u8>,
    pub local_palette: Option<Seq<u8>>,
    pub delay: u16,
}

impl View for Frame {
    type V = FrameView;

    open spec fn view(&self) -> FrameView {
        FrameView {
            width: self.width,
            height: self.height,
            pixels: self.pixels@,
            local_palette: match self.local_palette {
                Some(p) => Some(p@),
                None => None,
            },
            delay: self.delay,
        }
    }
}

/// The views of a frame sequence, in order.
pub open spec fn frame_views(frames: Seq<Frame>) -> Seq<FrameView> {
    frames.map_values(|f: Frame| f@)
}

/// Taking views commutes with reversing a frame sequence.
pub proof fn lemma_frame_views_reverse(frames: Seq<Frame>)
    ensures
        frame_views(frames.reverse()) == frame_views(frames).reverse(),
{
    assert(frame_views(frames.reverse()) =~= frame_views(frames).reverse());
}

/// The view of an optional byte buffer.
pub open spec fn opt_view(p: Option<Vec<u8>>) -> Option<Seq<u8>> {
    match p {
        Some(v) => Some(v@),
        None => None,
    }
}

/// A frame value fits its canvas and holds exactly one index per pixel.
pub open spec fn fv_wf(f: FrameView, canvas_width: u16, canvas_height: u16) -> bool {
    &&& f.width <= canvas_width
    &&& f.height <= canvas_height
    &&& f.pixels.len() == f.width as int * f.height as int
}

/// The palette that resolves a frame value's indices: its own local palette if
/// it carries one, else the global palette, else nothing.
pub open spec fn fv_palette(f: FrameView, global_palette: Option<Seq<u8>>) -> Seq<u8> {
    match f.local_palette {
        Some(p) => p,
        None => match global_palette {
            Some(g) => g,
            None => Seq::<u8>::empty(),
        },
    }
}

/// A frame fits its canvas and its buffer holds exactly one index per pixel.
pub open spec fn frame_wf(f: Frame, canvas_width: u16, canvas_height: u16) -> bool {
    &&& f.width <= canvas_width
    &&& f.height <= canvas_height
    &&& f.pixels@.len() == f.width as int * f.height as int
}

/// Every frame of the animation is well formed for its canvas.
pub open spec fn anim_wf(a: AnimationSequence) -> bool {
    forall|i: int|
        0 <= i < a.frames@.len() ==> frame_wf(#[trigger] a.frames@[i], a.canvas_width, a.canvas_height)
}

/// The palette that resolves a frame's indices: the frame's local palette if
/// it carries one, else the global palette, else nothing.
pub open spec fn palette_of(f: Frame, global_palette: Option<Vec<u8>>) -> Seq<u8> {
    match f.local_palette {
        Some(p) => p@,
        None => match global_palette {
            Some(g) => g@,
            None => Seq::<u8>::empty(),
        },
    }
}

/// Two frames show the same picture: equal dimensions, equal pixel buffers,
/// and the same local palette (present in both and equal, or absent in both).
/// The delay is left free.
pub open spec fn same_visual(f1: Frame, f2: Frame) -> bool {
    &&& f1.width == f2.width
    &&& f1.height == f2.height
    &&& f1.pixels@ == f2.pixels@
    &&& match (f1.local_palette, f2.local_palette) {
        (Some(p1), Some(p2)) => p1@ == p2@,
        (None, None) => true,
        _ => false,
    }
}

/// Two animations hold the same canvas and global palette.
pub open spec fn same_canvas(a1: AnimationSequence, a2: AnimationSequence) -> bool {
    &&& a1.canvas_width == a2.canvas_width
    &&& a1.canvas_height == a2.canvas_height
    &&& match (a1.global_palette, a2.global_palette) {
        (Some(g1), Some(g2)) => g1@ == g2@,
        (None, None) => true,
        _ => false,
    }
}

} // verus!
