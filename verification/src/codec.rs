use vstd::prelude::*;
use vstd::string::StringExecFns;

use crate::error::{ErrorKind, GifError};
use crate::model::{
    anim_wf, frame_views, frame_wf, fv_wf, opt_view, AnimationSequence, Frame, FrameView,
};

verus! {

// What the codec returns is deterministic in the bytes it is given: the
// decoder's only configuration is the crate's defaults (indexed output, a
// constant memory limit), and the encoder writes to owned memory. The names
// below stand for those results; nothing here depends on chance, the time or
// the machine. Allocation failure inside the codec is treated as the standard
// collections treat it — out of scope of these contracts.

/// The outside decoder, opaque to the verifier: Verus refuses to declare
/// gif::Decoder itself because its reader-type bound is a std::io trait it
/// does not know. It owns a copy of the stream it decodes.
#[verifier::external_body]
struct StreamDecoder {
    inner: gif::Decoder<std::io::Cursor<Vec<u8>>>,
}

/// The outside encoder, opaque to the verifier, serializing into owned bytes.
#[verifier::external_body]
struct StreamEncoder {
    inner: gif::Encoder<Vec<u8>>,
}

/// The bytes a decoder was made from.
pub uninterp spec fn decoder_source(d: StreamDecoder) -> Seq<u8>;

/// How many frames a decoder has already handed out.
pub uninterp spec fn decoder_pos(d: StreamDecoder) -> int;

/// Whether the stream's container header parses.
pub uninterp spec fn header_parses(data: Seq<u8>) -> bool;

/// The canvas width the stream's header declares.
pub uninterp spec fn canvas_width_of(data: Seq<u8>) -> u16;

/// The canvas height the stream's header declares.
pub uninterp spec fn canvas_height_of(data: Seq<u8>) -> u16;

/// The stream's global color table, if its header carries one.
pub uninterp spec fn global_palette_of(data: Seq<u8>) -> Option<Seq<u8>>;

/// What decoding the stream's frames yields: the frames handed out, in order,
/// before the stream stops, and whether it stops cleanly at the trailer
/// rather than with an error.
pub uninterp spec fn stream_of(data: Seq<u8>) -> (Seq<FrameView>, bool);

/// The frames the stream decodes to.
pub open spec fn stream_frames(data: Seq<u8>) -> Seq<FrameView> {
    stream_of(data).0
}

/// Whether the stream decodes to its end without error.
pub open spec fn stream_ends_clean(data: Seq<u8>) -> bool {
    stream_of(data).1
}

/// The stream decodes in full to a well-formed animation: its header parses,
/// its frames decode to a clean end, there are no more frames than stream
/// bytes, and every frame fits the declared canvas with one index per pixel.
pub open spec fn gif_decodes(data: Seq<u8>) -> bool {
    &&& header_parses(data)
    &&& stream_ends_clean(data)
    &&& stream_frames(data).len() <= data.len()
    &&& forall|i: int|
        0 <= i < stream_frames(data).len() ==> fv_wf(
            #[trigger] stream_frames(data)[i],
            canvas_width_of(data),
            canvas_height_of(data),
        )
}

/// The bytes of a container header with the given canvas and global color
/// table (an empty table meaning none).
pub uninterp spec fn gif_header(width: u16, height: u16, global_palette: Seq<u8>) -> Seq<u8>;

/// The stream prefix extended by the loop-forever extension.
pub uninterp spec fn with_loop_forever(prefix: Seq<u8>) -> Seq<u8>;

/// The stream prefix extended by one encoded frame.
pub uninterp spec fn with_frame(prefix: Seq<u8>, f: FrameView) -> Seq<u8>;

/// The stream prefix closed with the trailer.
pub uninterp spec fn with_trailer(prefix: Seq<u8>) -> Seq<u8>;

/// The bytes written so far into an encoder.
pub uninterp spec fn encoder_prefix(e: StreamEncoder) -> Seq<u8>;

/// Whether the encoder was opened with a global color table, so that frames
/// without their own palette can be written.
pub uninterp spec fn encoder_has_global(e: StreamEncoder) -> bool;

/// The stream prefix after the given frames, in order.
pub open spec fn written(prefix: Seq<u8>, frames: Seq<FrameView>) -> Seq<u8>
    decreases frames.len(),
{
    if frames.len() == 0 {
        prefix
    } else {
        with_frame(written(prefix, frames.drop_last()), frames.last())
    }
}

/// The complete serialization of an animation: header, loop-forever marker,
/// each frame in order, trailer.
pub open spec fn gif_bytes(
    width: u16,
    height: u16,
    global_palette: Seq<u8>,
    frames: Seq<FrameView>,
) -> Seq<u8> {
    with_trailer(written(with_loop_forever(gif_header(width, height, global_palette)), frames))
}

/// An optional color table flattened to the byte table the encoder takes.
pub open spec fn palette_bytes(p: Option<Seq<u8>>) -> Seq<u8> {
    match p {
        Some(s) => s,
        None => Seq::<u8>::empty(),
    }
}

/// Relies on gif::Decoder::new: parses the container header — deterministic
/// in the bytes — and, on success, leaves the decoder positioned before the
/// first frame, with indexed color output (the default).
#[verifier::external_body]
fn decoder_new(data: &[u8]) -> (res: Result<StreamDecoder, String>)
    ensures
        res is Ok <==> header_parses(data@),
        res matches Ok(d) ==> decoder_source(d) == data@ && decoder_pos(d) == 0,
{
    match gif::Decoder::new(std::io::Cursor::new(data.to_vec())) {
        Ok(inner) => Ok(StreamDecoder { inner }),
        Err(e) => Err(format!("{e}")),
    }
}

/// Relies on gif::Decoder::width: the canvas width the header declared.
#[verifier::external_body]
fn decoder_width(d: &StreamDecoder) -> (res: u16)
    ensures
        res == canvas_width_of(decoder_source(*d)),
{
    d.inner.width()
}

/// Relies on gif::Decoder::height: the canvas height the header declared.
#[verifier::external_body]
fn decoder_height(d: &StreamDecoder) -> (res: u16)
    ensures
        res == canvas_height_of(decoder_source(*d)),
{
    d.inner.height()
}

/// Relies on gif::Decoder::global_palette: the global color table, flat RGB,
/// if the header carried one.
#[verifier::external_body]
fn decoder_global_palette(d: &StreamDecoder) -> (res: Option<Vec<u8>>)
    ensures
        opt_view(res) == global_palette_of(decoder_source(*d)),
{
    d.inner.global_palette().map(|p| p.to_vec())
}

/// Relies on gif::Decoder::read_next_frame: the next frame of the stream in
/// order, as indexed pixel data with its local palette and delay; None once
/// the stream reaches its trailer; an error on a corrupt or truncated stream
/// or a frame over the decoder's constant memory limit — all deterministic in
/// the stream, which is what the stream names stand for.
#[verifier::external_body]
fn decoder_next_frame(d: &mut StreamDecoder) -> (res: Result<Option<Frame>, String>)
    ensures
        decoder_source(*final(d)) == decoder_source(*old(d)),
        decoder_pos(*old(d)) < stream_of(decoder_source(*old(d))).0.len() ==> (res matches Ok(
            Some(f),
        ) && f@ == stream_of(decoder_source(*old(d))).0[decoder_pos(*old(d))] && decoder_pos(
            *final(d),
        ) == decoder_pos(*old(d)) + 1),
        decoder_pos(*old(d)) == stream_of(decoder_source(*old(d))).0.len() && stream_of(
            decoder_source(*old(d)),
        ).1 ==> (res matches Ok(o) && o is None),
        decoder_pos(*old(d)) == stream_of(decoder_source(*old(d))).0.len() && !stream_of(
            decoder_source(*old(d)),
        ).1 ==> res is Err,
{
    match d.inner.read_next_frame() {
        Ok(Some(f)) => Ok(Some(Frame {
            width: f.width,
            height: f.height,
            pixels: f.buffer.to_vec(),
            local_palette: f.palette.clone(),
            delay: f.delay,
        })),
        Ok(None) => Ok(None),
        Err(e) => Err(format!("{e}")),
    }
}

/// Relies on gif::Encoder::new: writes the header with the canvas size and
/// the given global color table; an empty table means no global palette. Its
/// only failure is a table of more than 256 colors; writing to owned bytes
/// cannot fail. The table is truncated to whole RGB triples, and the
/// encoder's global-palette flag is set from the truncated table, so the flag
/// is set exactly when the table holds at least one whole triple.
#[verifier::external_body]
fn encoder_new(width: u16, height: u16, global_palette: &Vec<u8>) -> (res: Result<
    StreamEncoder,
    String,
>)
    ensures
        global_palette@.len() <= 768 ==> res is Ok,
        res matches Ok(e) ==> encoder_prefix(e) == gif_header(width, height, global_palette@)
            && encoder_has_global(e) == (global_palette@.len() >= 3),
{
    match gif::Encoder::new(Vec::new(), width, height, global_palette.as_slice()) {
        Ok(inner) => Ok(StreamEncoder { inner }),
        Err(e) => Err(format!("{e}")),
    }
}

/// Relies on gif::Encoder::set_repeat: writes the loop-forever extension,
/// which cannot fail on an owned-bytes writer.
#[verifier::external_body]
fn encoder_set_loop_forever(e: &mut StreamEncoder) -> (res: Result<(), String>)
    ensures
        res is Ok,
        encoder_prefix(*final(e)) == with_loop_forever(encoder_prefix(*old(e))),
        encoder_has_global(*final(e)) == encoder_has_global(*old(e)),
{
    e.inner.set_repeat(gif::Repeat::Infinite).map_err(|err| format!("{err}"))
}

/// Relies on gif::Encoder::write_frame: appends one frame, with its delay and
/// its local palette if it carries one, whole-canvas disposal, at offset
/// zero. Its failures are a buffer shorter than width * height, a local
/// palette of more than 256 colors, and a frame with no palette at all; a
/// frame free of all three is written.
#[verifier::external_body]
fn encoder_write_frame(e: &mut StreamEncoder, f: &Frame) -> (res: Result<(), String>)
    ensures
        encoder_has_global(*final(e)) == encoder_has_global(*old(e)),
        res is Ok ==> encoder_prefix(*final(e)) == with_frame(encoder_prefix(*old(e)), f@),
        (f.pixels@.len() == f.width as int * f.height as int && (match f.local_palette {
            Some(p) => p@.len() <= 768,
            None => encoder_has_global(*old(e)),
        })) ==> res is Ok,
{
    let mut out = gif::Frame::default();
    out.width = f.width;
    out.height = f.height;
    out.buffer = std::borrow::Cow::Owned(f.pixels.clone());
    out.palette = f.local_palette.clone();
    out.delay = f.delay;
    e.inner.write_frame(&out).map_err(|err| format!("{err}"))
}

/// Relies on gif::Encoder::into_inner: writes the trailer — infallible on an
/// owned-bytes writer — and hands back the serialized stream.
#[verifier::external_body]
fn encoder_finish(e: StreamEncoder) -> (res: Result<Vec<u8>, String>)
    ensures
        res is Ok,
        res matches Ok(b) ==> b@ == with_trailer(encoder_prefix(e)),
{
    e.inner.into_inner().map_err(|err| format!("{err}"))
}

/// What quantizing an RGBA raster yields: the indexed pixel buffer and the
/// palette built for it. Deterministic in the raster and dimensions alone.
pub uninterp spec fn quantized(width: u16, height: u16, rgba: Seq<u8>) -> (Seq<u8>, Seq<u8>);

/// Relies on gif::Frame::from_rgba_speed: reduces an RGBA raster to at most
/// 256 colors, producing one palette index per pixel and the frame's own
/// palette of whole RGB triples — at most 256 of them, in both of the
/// source's paths (an exact table, or color_quant's 256-color map). It panics
/// unless the raster holds exactly width * height * 4 bytes, so that input is
/// excluded here.
#[verifier::external_body]
pub(crate) fn quantize_rgba(width: u16, height: u16, rgba: Vec<u8>) -> (res: (
    Vec<u8>,
    Option<Vec<u8>>,
))
    requires
        rgba@.len() == (width as int) * (height as int) * 4,
    ensures
        res.0@.len() == (width as int) * (height as int),
        res.0@ == quantized(width, height, rgba@).0,
        res.1 is Some,
        res.1 matches Some(p) ==> p@ == quantized(width, height, rgba@).1 && p@.len() % 3 == 0
            && p@.len() <= 768,
{
    let mut buf = rgba;
    let f = gif::Frame::from_rgba_speed(width, height, &mut buf, 10);
    (f.buffer.into_owned(), f.palette)
}

pub(crate) fn decode_error(message: String) -> (e: GifError)
    ensures
        e.kind == ErrorKind::Decode,
{
    GifError::new(ErrorKind::Decode, message)
}

pub(crate) fn encode_error(message: String) -> (e: GifError)
    ensures
        e.kind == ErrorKind::Encode,
{
    GifError::new(ErrorKind::Encode, message)
}

/// Parses a compressed animation into the frame model. It succeeds exactly
/// when the stream decodes in full to a well-formed animation; the result is
/// that animation: the declared canvas, the global palette, and the stream's
/// frames in order. Every failure — malformed header, truncated or corrupt
/// stream, a frame overstepping the canvas or with the wrong pixel count — is
/// a decode error.
pub fn decode_animation(data: &[u8]) -> (res: Result<AnimationSequence, GifError>)
    ensures
        res is Ok <==> gif_decodes(data@),
        res matches Ok(a) ==> {
            &&& anim_wf(a)
            &&& a.canvas_width == canvas_width_of(data@)
            &&& a.canvas_height == canvas_height_of(data@)
            &&& opt_view(a.global_palette) == global_palette_of(data@)
            &&& frame_views(a.frames@) == stream_frames(data@)
        },
        res matches Err(e) ==> e.kind == ErrorKind::Decode,
{
    let mut decoder = match decoder_new(data) {
        Ok(d) => d,
        Err(m) => {
            return Err(decode_error(m));
        },
    };
    let canvas_width = decoder_width(&decoder);
    let canvas_height = decoder_height(&decoder);
    let global_palette = decoder_global_palette(&decoder);
    let mut frames: Vec<Frame> = Vec::new();
    // Each encoded frame occupies at least one byte of the stream, so a
    // stream never holds more frames than bytes; the budget, spent one per
    // frame, bounds the loop so that it provably terminates.
    let mut budget: usize = data.len();
    loop
        invariant_except_break
            decoder_source(decoder) == data@,
            decoder_pos(decoder) == frames@.len() as int,
        invariant
            header_parses(data@),
            canvas_width == canvas_width_of(data@),
            canvas_height == canvas_height_of(data@),
            opt_view(global_palette) == global_palette_of(data@),
            frames@.len() <= stream_frames(data@).len(),
            frame_views(frames@) == stream_frames(data@).take(frames@.len() as int),
            budget + frames@.len() == data@.len(),
            forall|i: int|
                0 <= i < frames@.len() ==> frame_wf(
                    #[trigger] frames@[i],
                    canvas_width,
                    canvas_height,
                ),
        ensures
            frame_views(frames@) == stream_frames(data@),
            stream_ends_clean(data@),
        decreases budget,
    {
        let ghost pos = frames@.len() as int;
        match decoder_next_frame(&mut decoder) {
            Err(m) => {
                proof {
                    // A frame was still owed at this position, or the stream
                    // ends here without its trailer; either way it does not
                    // decode in full.
                    assert(!gif_decodes(data@));
                }
                return Err(decode_error(m));
            },
            Ok(None) => {
                proof {
                    // The stream handed out no further frame, so every frame
                    // it holds has been collected and it ended at its
                    // trailer.
                    assert(pos == stream_frames(data@).len());
                    assert(frame_views(frames@) =~= stream_frames(data@));
                    assert(stream_ends_clean(data@));
                }
                break;
            },
            Ok(Some(f)) => {
                proof {
                    assert(pos < stream_frames(data@).len());
                }
                if budget == 0 {
                    // More frames than stream bytes: the stream cannot decode
                    // in full under this library's bound.
                    proof {
                        assert(stream_frames(data@).len() > data@.len());
                    }
                    return Err(
                        decode_error(
                            String::from_str("the stream declares more frames than its size allows"),
                        ),
                    );
                }
                budget = budget - 1;
                proof {
                    assert((f.width as int) * (f.height as int) <= 65535 * 65535)
                        by (nonlinear_arith)
                        requires
                            f.width <= 65535,
                            f.height <= 65535,
                    ;
                }
                let pixel_count = (f.width as u64) * (f.height as u64);
                if !(f.width <= canvas_width && f.height <= canvas_height && f.pixels.len()
                    as u64 == pixel_count) {
                    proof {
                        assert(!fv_wf(
                            stream_frames(data@)[pos],
                            canvas_width_of(data@),
                            canvas_height_of(data@),
                        ));
                    }
                    return Err(
                        decode_error(
                            String::from_str(
                                "a decoded frame does not match its declared dimensions",
                            ),
                        ),
                    );
                }
                frames.push(f);
                proof {
                    assert(frame_views(frames@) =~= stream_frames(data@).take(
                        frames@.len() as int,
                    ));
                }
            },
        }
    }
    proof {
        assert(frame_views(frames@) =~= stream_frames(data@));
        assert(gif_decodes(data@));
    }
    Ok(AnimationSequence { canvas_width, canvas_height, global_palette, frames })
}

/// A color table is a whole number of RGB triples and fits the container's
/// limit of 256 colors.
pub open spec fn palette_ok(p: Seq<u8>) -> bool {
    &&& p.len() % 3 == 0
    &&& p.len() <= 768
}

/// The animation carries a global color table that frames without their own
/// palette can fall back on.
pub open spec fn has_global_palette(a: AnimationSequence) -> bool {
    match a.global_palette {
        Some(g) => g@.len() > 0,
        None => false,
    }
}

/// A frame the container can hold: its buffer matches its dimensions, and it
/// either carries a valid local palette or can fall back on a global one.
pub open spec fn frame_encodable(f: Frame, has_global: bool) -> bool {
    &&& f.pixels@.len() == (f.width as int) * (f.height as int)
    &&& match f.local_palette {
        Some(p) => palette_ok(p@),
        None => has_global,
    }
}

/// An animation the container can hold.
pub open spec fn encodable(a: AnimationSequence) -> bool {
    &&& match a.global_palette {
        Some(g) => palette_ok(g@),
        None => true,
    }
    &&& forall|i: int|
        0 <= i < a.frames@.len() ==> frame_encodable(#[trigger] a.frames@[i], has_global_palette(a))
}

/// A frame value the container can hold.
pub open spec fn fv_encodable(f: FrameView, has_global: bool) -> bool {
    &&& f.pixels.len() == (f.width as int) * (f.height as int)
    &&& match f.local_palette {
        Some(p) => palette_ok(p),
        None => has_global,
    }
}

/// An animation, given by its frame values and its global palette, that the
/// container can hold.
pub open spec fn view_encodable(frames: Seq<FrameView>, global_palette: Option<Seq<u8>>) -> bool {
    &&& match global_palette {
        Some(g) => palette_ok(g),
        None => true,
    }
    &&& forall|i: int|
        0 <= i < frames.len() ==> fv_encodable(
            #[trigger] frames[i],
            (global_palette matches Some(g) && g.len() > 0),
        )
}

/// Encodability is a property of the animation's values alone.
pub proof fn lemma_encodable_views(a: AnimationSequence)
    ensures
        encodable(a) == view_encodable(frame_views(a.frames@), opt_view(a.global_palette)),
{
    let views = frame_views(a.frames@);
    let gp = opt_view(a.global_palette);
    let hg = has_global_palette(a);
    assert(hg == (gp matches Some(g) && g.len() > 0));
    if view_encodable(views, gp) {
        assert forall|i: int| 0 <= i < a.frames@.len() implies frame_encodable(
            #[trigger] a.frames@[i],
            hg,
        ) by {
            assert(fv_encodable(views[i], hg));
            assert(views[i] == a.frames@[i]@);
        }
    }
    if encodable(a) {
        assert forall|i: int| 0 <= i < views.len() implies fv_encodable(
            #[trigger] views[i],
            hg,
        ) by {
            assert(frame_encodable(a.frames@[i], hg));
            assert(views[i] == a.frames@[i]@);
        }
    }
}

/// Serializes the frame model back into a compressed animation: header with
/// the canvas size and the global palette if one is present, a loop-forever
/// marker, then each frame in sequence order with its delay and its local
/// palette if it carries one. It succeeds exactly when the animation is
/// encodable, and the bytes returned are that serialization; every failure —
/// an oversized or ragged palette, a frame whose buffer does not match its
/// declared dimensions, or a frame with neither a local nor a global palette
/// — is an encode error.
pub fn encode_animation(a: &AnimationSequence) -> (res: Result<Vec<u8>, GifError>)
    ensures
        res is Ok <==> encodable(*a),
        res matches Ok(b) ==> b@ == gif_bytes(
            a.canvas_width,
            a.canvas_height,
            palette_bytes(opt_view(a.global_palette)),
            frame_views(a.frames@),
        ),
        res matches Err(e) ==> e.kind == ErrorKind::Encode,
{
    let empty: Vec<u8> = Vec::new();
    let global_palette: &Vec<u8> = match &a.global_palette {
        Some(g) => g,
        None => &empty,
    };
    if global_palette.len() % 3 != 0 || global_palette.len() > 768 {
        return Err(
            encode_error(String::from_str("the global palette is not a valid color table")),
        );
    }
    let has_global = global_palette.len() > 0;
    let ghost base = with_loop_forever(
        gif_header(a.canvas_width, a.canvas_height, palette_bytes(opt_view(a.global_palette))),
    );
    let mut encoder = match encoder_new(a.canvas_width, a.canvas_height, global_palette) {
        Ok(e) => e,
        Err(m) => {
            proof {
                assert(false);
            }
            return Err(encode_error(m));
        },
    };
    match encoder_set_loop_forever(&mut encoder) {
        Ok(()) => (),
        Err(m) => {
            proof {
                assert(false);
            }
            return Err(encode_error(m));
        },
    }
    let mut i: usize = 0;
    while i < a.frames.len()
        invariant
            i <= a.frames@.len(),
            has_global == has_global_palette(*a),
            match a.global_palette {
                Some(g) => palette_ok(g@),
                None => true,
            },
            encoder_has_global(encoder) == has_global,
            encoder_prefix(encoder) == written(base, frame_views(a.frames@).take(i as int)),
            forall|j: int|
                0 <= j < i ==> frame_encodable(#[trigger] a.frames@[j], has_global_palette(*a)),
        decreases a.frames@.len() - i,
    {
        let f = &a.frames[i];
        proof {
            assert((f.width as int) * (f.height as int) <= 65535 * 65535) by (nonlinear_arith)
                requires
                    f.width <= 65535,
                    f.height <= 65535,
            ;
        }
        let pixel_count = (f.width as u64) * (f.height as u64);
        if f.pixels.len() as u64 != pixel_count {
            return Err(
                encode_error(
                    String::from_str("a frame's pixel buffer does not match its dimensions"),
                ),
            );
        }
        match &f.local_palette {
            Some(p) => {
                if p.len() % 3 != 0 || p.len() > 768 {
                    return Err(
                        encode_error(
                            String::from_str("a frame's palette is not a valid color table"),
                        ),
                    );
                }
            },
            None => {
                if !has_global {
                    return Err(
                        encode_error(
                            String::from_str(
                                "a frame without a local palette needs a global palette",
                            ),
                        ),
                    );
                }
            },
        }
        match encoder_write_frame(&mut encoder, f) {
            Ok(()) => (),
            Err(m) => {
                proof {
                    assert(false);
                }
                return Err(encode_error(m));
            },
        }
        i = i + 1;
        proof {
            let views = frame_views(a.frames@);
            assert(views.take(i as int).drop_last() =~= views.take(i as int - 1));
            assert(views.take(i as int).last() == a.frames@[i as int - 1]@);
        }
    }
    proof {
        assert(frame_views(a.frames@).take(a.frames@.len() as int) =~= frame_views(a.frames@));
    }
    match encoder_finish(encoder) {
        Ok(bytes) => Ok(bytes),
        Err(m) => {
            proof {
                assert(false);
            }
            Err(encode_error(m))
        },
    }
}

} // verus!
