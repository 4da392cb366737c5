use vstd::prelude::*;
use vstd::string::StringExecFns;

use crate::error::{ErrorKind, GifError};
use crate::model::{palette_of, Frame};

verus! {

/// The four RGBA bytes that one palette index resolves to: the palette's RGB
/// triple at that index with full opacity, or opaque black when the palette
/// has no complete triple there.
pub open spec fn resolved_pixel(idx: u8, palette: Seq<u8>) -> Seq<u8> {
    if 3 * (idx as int) + 2 < palette.len() {
        seq![
            palette[3 * (idx as int)],
            palette[3 * (idx as int) + 1],
            palette[3 * (idx as int) + 2],
            255u8,
        ]
    } else {
        seq![0u8, 0u8, 0u8, 255u8]
    }
}

/// The RGBA raster of an indexed pixel buffer: each index replaced by its
/// four resolved bytes, in order.
pub open spec fn resolved_raster(pixels: Seq<u8>, palette: Seq<u8>) -> Seq<u8>
    decreases pixels.len(),
{
    if pixels.len() == 0 {
        Seq::<u8>::empty()
    } else {
        resolved_raster(pixels.drop_last(), palette) + resolved_pixel(pixels.last(), palette)
    }
}

pub proof fn lemma_resolved_raster_len(pixels: Seq<u8>, palette: Seq<u8>)
    ensures
        resolved_raster(pixels, palette).len() == 4 * pixels.len(),
    decreases pixels.len(),
{
    if pixels.len() > 0 {
        lemma_resolved_raster_len(pixels.drop_last(), palette);
    }
}

/// Converts a frame's indexed pixel data into a fully resolved RGBA raster,
/// row-major, top to bottom, through the frame's local palette if present and
/// otherwise through the given global palette. Fails, with a conversion
/// error, exactly when the frame's buffer does not hold one byte per declared
/// pixel, so that the resolved byte count would not be width * height * 4.
pub fn resolve_frame(f: &Frame, global_palette: &Option<Vec<u8>>) -> (res: Result<
    Vec<u8>,
    GifError,
>)
    ensures
        match res {
            Ok(r) => {
                &&& f.pixels@.len() == f.width as int * f.height as int
                &&& r@ == resolved_raster(f.pixels@, palette_of(*f, *global_palette))
                &&& r@.len() == 4 * ((f.width as int) * (f.height as int))
            },
            Err(e) => {
                &&& f.pixels@.len() != f.width as int * f.height as int
                &&& e.kind == ErrorKind::Conversion
            },
        },
{
    proof {
        assert((f.width as int) * (f.height as int) <= 65535 * 65535) by (nonlinear_arith)
            requires
                f.width <= 65535,
                f.height <= 65535,
        ;
    }
    let pixel_count = (f.width as u64) * (f.height as u64);
    if f.pixels.len() as u64 != pixel_count {
        return Err(
            GifError::new(
                ErrorKind::Conversion,
                String::from_str("frame pixel buffer does not match its declared dimensions"),
            ),
        );
    }
    let empty: Vec<u8> = Vec::new();
    let palette: &Vec<u8> = match &f.local_palette {
        Some(p) => p,
        None => match global_palette {
            Some(g) => g,
            None => &empty,
        },
    };
    assert(palette@ == palette_of(*f, *global_palette));
    let ghost gpal = palette@;
    let mut out: Vec<u8> = Vec::new();
    let mut i: usize = 0;
    while i < f.pixels.len()
        invariant
            i <= f.pixels@.len(),
            palette@ == gpal,
            out@ == resolved_raster(f.pixels@.take(i as int), gpal),
            out@.len() == 4 * i,
        decreases f.pixels@.len() - i,
    {
        let idx = f.pixels[i] as usize;
        if 3 * idx + 2 < palette.len() {
            out.push(palette[3 * idx]);
            out.push(palette[3 * idx + 1]);
            out.push(palette[3 * idx + 2]);
            out.push(255);
        } else {
            out.push(0);
            out.push(0);
            out.push(0);
            out.push(255);
        }
        i = i + 1;
        proof {
            let taken = f.pixels@.take(i as int);
            assert(taken.drop_last() =~= f.pixels@.take(i as int - 1));
            assert(taken.last() == f.pixels@[i as int - 1]);
            assert(out@ =~= resolved_raster(taken.drop_last(), gpal) + resolved_pixel(
                taken.last(),
                gpal,
            ));
        }
    }
    proof {
        assert(f.pixels@.take(f.pixels@.len() as int) =~= f.pixels@);
    }
    Ok(out)
}

} // verus!
