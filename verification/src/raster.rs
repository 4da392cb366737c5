use vstd::prelude::*;

verus! {

// Loading, resampling and PNG serialization of still images are deterministic
// in the bytes and dimensions they are given: the image crate's decoders,
// its Lanczos3 resampler and its PNG writer take no configuration here beyond
// constants, and read nothing but their arguments. The names below stand for
// those results.

/// The dimensions of a still image, if its bytes decode as one.
pub uninterp spec fn still_dims_of(data: Seq<u8>) -> Option<(u32, u32)>;

/// A still image's RGBA raster at its own size: four bytes per pixel,
/// row-major, top to bottom.
pub uninterp spec fn still_rgba_of(data: Seq<u8>) -> Seq<u8>;

/// A still image's RGBA raster after resampling to exactly the given
/// dimensions with the Lanczos3 filter.
pub uninterp spec fn resampled_rgba_of(data: Seq<u8>, width: u32, height: u32) -> Seq<u8>;

/// The PNG serialization of an RGBA raster with the given dimensions. PNG
/// encoding is deterministic in the raster and dimensions alone; its bytes
/// are named rather than spelled out.
pub uninterp spec fn png_of(width: int, height: int, rgba: Seq<u8>) -> Seq<u8>;

/// Relies on image::load_from_memory (then DynamicImage::width and ::height,
/// which only read the decoded image): whether the bytes decode as a still
/// image, and at what size — deterministic in the bytes, the format being
/// guessed from them.
#[verifier::external_body]
pub(crate) fn still_dims(data: &[u8]) -> (res: Result<(u32, u32), String>)
    ensures
        res is Ok <==> still_dims_of(data@) is Some,
        res matches Ok(d) ==> still_dims_of(data@) == Some(d),
{
    let img = image::load_from_memory(data).map_err(|e| format!("{e}"))?;
    Ok((img.width(), img.height()))
}

/// Relies on image::load_from_memory and DynamicImage::to_rgba8 (with
/// ImageBuffer::into_raw handing out the raw bytes): the image's RGBA raster
/// at its own size, which holds four bytes per pixel of those dimensions.
#[verifier::external_body]
pub(crate) fn still_rgba(data: &[u8]) -> (res: Result<Vec<u8>, String>)
    ensures
        res is Ok <==> still_dims_of(data@) is Some,
        res matches Ok(r) ==> r@ == still_rgba_of(data@),
        res matches Ok(r) ==> (still_dims_of(data@) matches Some(d) ==> r@.len() == d.0 as int
            * d.1 as int * 4),
{
    let img = image::load_from_memory(data).map_err(|e| format!("{e}"))?;
    Ok(img.to_rgba8().into_raw())
}

/// Relies on image::load_from_memory, DynamicImage::resize_exact — which
/// returns an image of exactly the given dimensions, Lanczos3-filtered, the
/// aspect ratio not preserved — and DynamicImage::to_rgba8: the image's RGBA
/// raster resampled to width * height, so four bytes per requested pixel.
#[verifier::external_body]
pub(crate) fn resampled_rgba(data: &[u8], width: u32, height: u32) -> (res: Result<
    Vec<u8>,
    String,
>)
    ensures
        res is Ok <==> still_dims_of(data@) is Some,
        res matches Ok(r) ==> r@ == resampled_rgba_of(data@, width, height),
        res matches Ok(r) ==> r@.len() == width as int * height as int * 4,
{
    let img = image::load_from_memory(data).map_err(|e| format!("{e}"))?;
    let resized = img.resize_exact(width, height, image::imageops::FilterType::Lanczos3);
    Ok(resized.to_rgba8().into_raw())
}

/// Relies on image::DynamicImage::write_to with the PNG format: a lossless
/// still-image serialization of the raster, a function of the raster and the
/// dimensions alone. image::RgbaImage::from_raw only converts the argument;
/// it accepts every buffer of exactly width * height * 4 bytes. With such a
/// buffer the PNG writer's only rejection is a zero width or height, so
/// encoding succeeds exactly when both dimensions are positive.
#[verifier::external_body]
pub(crate) fn png_encode(width: u32, height: u32, rgba: &[u8]) -> (res: Result<Vec<u8>, String>)
    requires
        rgba@.len() == (width as int) * (height as int) * 4,
    ensures
        res is Ok <==> (width > 0 && height > 0),
        res matches Ok(r) ==> r@ == png_of(width as int, height as int, rgba@),
{
    let img = match image::RgbaImage::from_raw(width, height, rgba.to_vec()) {
        Some(img) => img,
        None => {
            return Err("raster does not match the declared dimensions".to_string());
        },
    };
    let mut out = Vec::new();
    match image::DynamicImage::ImageRgba8(img).write_to(
        &mut std::io::Cursor::new(&mut out),
        image::ImageFormat::Png,
    ) {
        Ok(()) => Ok(out),
        Err(e) => Err(format!("{e}")),
    }
}

} // verus!
