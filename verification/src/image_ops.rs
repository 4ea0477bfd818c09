//! Resampling, compositing and decoding, done by the `image` crate.

use vstd::prelude::*;
use crate::raster::{dims_product, GreyRaster, LumaImage, Raster, RgbaImage, MAX_IMAGE_BYTES};

verus! {

/// Calls `image::imageops::resize` with `FilterType::Lanczos3` on the RGBA buffer.
/// Claimed, as the crate's source shows: the result has four bytes per pixel of the new
/// size, and is a plain copy when the size does not change. Not claimed: the resampled
/// values, which the filter computes with `f32::sin`, whose precision std leaves open, so
/// they may differ between platforms and even between calls.
#[verifier::external_body]
fn lanczos3_bytes(width: u32, height: u32, bytes: &[u8], new_width: u32, new_height: u32) -> (out: Vec<u8>)
    requires
        bytes@.len() == width * height * 4,
        new_width > 0,
        new_height > 0,
        new_width * new_height * 4 <= MAX_IMAGE_BYTES,
        new_width * new_height * 4 <= usize::MAX,
    ensures
        out@.len() == new_width * new_height * 4,
        (new_width == width && new_height == height) ==> out@ == bytes@,
{
    let src = image::ImageBuffer::<image::Rgba<u8>, &[u8]>::from_raw(width, height, bytes).unwrap();
    image::imageops::resize(&src, new_width, new_height, image::imageops::FilterType::Lanczos3).into_raw()
}

/// `scaled` is a resampling of `img` to `new_width` by `new_height`: an image of that
/// size, equal to `img` when the size does not change.
pub open spec fn is_resample_of(scaled: Raster, img: Raster, new_width: nat, new_height: nat) -> bool {
    &&& scaled.wf()
    &&& scaled.width == new_width
    &&& scaled.height == new_height
    &&& (new_width == img.width && new_height == img.height) ==> scaled == img
}

/// Resamples `img` to `new_width` by `new_height` with the Lanczos3 filter.
pub fn resize(img: &RgbaImage, new_width: u32, new_height: u32) -> (out: RgbaImage)
    requires
        img@.wf(),
        new_width > 0,
        new_height > 0,
        new_width * new_height * 4 <= MAX_IMAGE_BYTES,
        new_width * new_height * 4 <= usize::MAX,
    ensures
        is_resample_of(out@, img@, new_width as nat, new_height as nat),
{
    let bytes = lanczos3_bytes(img.width(), img.height(), img.as_raw().as_slice(), new_width, new_height);
    match RgbaImage::from_raw(new_width, new_height, bytes) {
        Some(out) => out,
        None => {
            assert(false);
            RgbaImage::from_pixel(0, 0, crate::raster::Rgba { r: 0, g: 0, b: 0, a: 0 })
        },
    }
}

/// The bytes of `bottom` after `image::imageops::overlay` has laid `top` over it with
/// its top-left corner at `(x, y)`.
pub uninterp spec fn overlaid(
    bottom_width: nat,
    bottom_height: nat,
    bottom: Seq<u8>,
    top_width: nat,
    top_height: nat,
    top: Seq<u8>,
    x: int,
    y: int,
) -> Seq<u8>;

/// `(px, py)` lies under the `tw` by `th` rectangle whose corner is at `(x, y)`.
pub open spec fn under_rect(px: int, py: int, x: int, y: int, tw: int, th: int) -> bool {
    x <= px < x + tw && y <= py < y + th
}

/// The raster of a `width` by `height` RGBA buffer.
pub open spec fn raster_of(width: u32, height: u32, bytes: Seq<u8>) -> Raster {
    Raster { width: width as nat, height: height as nat, bytes }
}

/// What `overlay` does to the pixel at `(px, py)` of `before`, giving `after`, when
/// `top` is laid with its corner at `(x, y)`: outside the covered rectangle nothing
/// changes; a covering pixel of alpha 0 changes nothing and one of alpha 255 replaces
/// the pixel.
pub open spec fn overlay_pixel_rule(before: Raster, after: Raster, top: Raster, x: int, y: int, px: int, py: int) -> bool {
    let covered = under_rect(px, py, x, y, top.width as int, top.height as int);
    &&& !covered ==> after.pixel(px, py) == before.pixel(px, py)
    &&& covered && top.pixel(px - x, py - y).a == 0 ==> after.pixel(px, py) == before.pixel(px, py)
    &&& covered && top.pixel(px - x, py - y).a == 255 ==> after.pixel(px, py) == top.pixel(px - x, py - y)
}

/// Calls `image::imageops::overlay`. Claimed, as the crate's source shows: the buffer
/// keeps its size; the result is `overlaid` of the arguments; pixels outside the
/// rectangle covered by `top` keep their value; a covering pixel of `top` with alpha 0
/// leaves the pixel under it as it was, and one with alpha 255 replaces it. Not claimed:
/// the blended value for other alphas.
#[verifier::external_body]
fn overlay_bytes(
    bottom: &mut Vec<u8>,
    bottom_width: u32,
    bottom_height: u32,
    top: &[u8],
    top_width: u32,
    top_height: u32,
    x: i64,
    y: i64,
)
    requires
        old(bottom)@.len() == bottom_width * bottom_height * 4,
        top@.len() == top_width * top_height * 4,
    ensures
        final(bottom)@ == overlaid(
            bottom_width as nat,
            bottom_height as nat,
            old(bottom)@,
            top_width as nat,
            top_height as nat,
            top@,
            x as int,
            y as int,
        ),
        final(bottom)@.len() == old(bottom)@.len(),
        forall|px: int, py: int|
            0 <= px < bottom_width && 0 <= py < bottom_height ==> #[trigger] overlay_pixel_rule(
                raster_of(bottom_width, bottom_height, old(bottom)@),
                raster_of(bottom_width, bottom_height, final(bottom)@),
                raster_of(top_width, top_height, top@),
                x as int,
                y as int,
                px,
                py,
            ),
{
    let mut b = image::ImageBuffer::<image::Rgba<u8>, &mut [u8]>::from_raw(
        bottom_width,
        bottom_height,
        bottom.as_mut_slice(),
    ).unwrap();
    let t = image::ImageBuffer::<image::Rgba<u8>, &[u8]>::from_raw(top_width, top_height, top).unwrap();
    image::imageops::overlay(&mut b, &t, x, y);
}

/// `bottom` with `top` laid over it at `(x, y)`.
pub open spec fn overlay_of(bottom: Raster, top: Raster, x: int, y: int) -> Raster {
    Raster {
        width: bottom.width,
        height: bottom.height,
        bytes: overlaid(bottom.width, bottom.height, bottom.bytes, top.width, top.height, top.bytes, x, y),
    }
}

/// Lays `top` over `bottom` with its top-left corner at `(x, y)`, blending by alpha.
pub fn overlay(bottom: RgbaImage, top: &RgbaImage, x: i64, y: i64) -> (out: RgbaImage)
    requires
        bottom@.wf(),
        top@.wf(),
    ensures
        out@.wf(),
        out@ == overlay_of(bottom@, top@, x as int, y as int),
        forall|px: int, py: int|
            bottom@.in_bounds(px, py) ==> #[trigger] overlay_pixel_rule(bottom@, out@, top@, x as int, y as int, px, py),
{
    let w = bottom.width();
    let h = bottom.height();
    let tw = top.width();
    let th = top.height();
    let ghost b0 = bottom@;
    let mut bytes = bottom.into_raw();
    overlay_bytes(&mut bytes, w, h, top.as_raw().as_slice(), tw, th, x, y);
    match RgbaImage::from_raw(w, h, bytes) {
        Some(out) => {
            assert forall|px: int, py: int| b0.in_bounds(px, py) implies #[trigger] overlay_pixel_rule(
                b0,
                out@,
                top@,
                x as int,
                y as int,
                px,
                py,
            ) by {
                assert(overlay_pixel_rule(
                    raster_of(w, h, b0.bytes),
                    raster_of(w, h, out@.bytes),
                    raster_of(tw, th, top@.bytes),
                    x as int,
                    y as int,
                    px,
                    py,
                ));
            }
            out
        },
        None => {
            assert(false);
            RgbaImage::from_pixel(0, 0, crate::raster::Rgba { r: 0, g: 0, b: 0, a: 0 })
        },
    }
}

/// What `image::load_from_memory` followed by `to_luma8` makes of `bytes`: the size
/// and grey values of the decoded image, or `None` when the bytes do not decode.
pub uninterp spec fn decoded_luma(bytes: Seq<u8>) -> Option<(nat, nat, Seq<u8>)>;

/// Calls `image::load_from_memory` and converts the decoded image with `to_luma8`.
/// Claimed: success depends on the bytes alone, as does the decoded image, which holds
/// one byte per pixel. Not claimed: anything of the text of the error.
#[verifier::external_body]
fn load_luma(bytes: &[u8]) -> (res: Result<(u32, u32, Vec<u8>), String>)
    ensures
        res is Ok <==> decoded_luma(bytes@) is Some,
        res matches Ok((w, h, data)) ==> decoded_luma(bytes@) == Some((w as nat, h as nat, data@))
            && data@.len() == w * h,
{
    match image::load_from_memory(bytes) {
        Ok(img) => {
            let grey = img.to_luma8();
            let (w, h) = grey.dimensions();
            Ok((w, h, grey.into_raw()))
        },
        Err(e) => Err(e.to_string()),
    }
}

/// The grey-scale image that `bytes` decode to, if they decode.
pub open spec fn decoded_grey(bytes: Seq<u8>) -> Option<GreyRaster> {
    match decoded_luma(bytes) {
        Some((w, h, data)) => Some(GreyRaster { width: w, height: h, bytes: data }),
        None => None,
    }
}

/// Decodes an encoded image (PNG and the other formats the `image` crate reads) and
/// converts it to grey-scale; `Err` holds the decoder's message.
pub fn decode_grey(bytes: &[u8]) -> (res: Result<LumaImage, String>)
    ensures
        res is Ok <==> decoded_grey(bytes@) is Some,
        res matches Ok(img) ==> img@.wf() && decoded_grey(bytes@) == Some(img@),
{
    match load_luma(bytes) {
        Ok((w, h, data)) => match LumaImage::from_raw(w, h, data) {
            Some(img) => Ok(img),
            None => {
                assert(false);
                Err(String::new())
            },
        },
        Err(e) => Err(e),
    }
}

/// What `image::open` makes of a file named `path` that holds `bytes`, converted with
/// `to_rgba8`: the size and RGBA bytes of the decoded image, or `None` when it does not
/// decode.
pub uninterp spec fn decoded_rgba(path: Seq<char>, bytes: Seq<u8>) -> Option<(nat, nat, Seq<u8>)>;

/// Decodes `bytes` in the format that the extension of `path` names
/// (`ImageFormat::from_path`, as `image::open` picks it) with
/// `image::load_from_memory_with_format`, and converts the image with `to_rgba8`.
/// Claimed: success and the decoded image depend on the name and the bytes alone, and the
/// image holds four bytes per pixel. Not claimed: anything of the text of the error.
#[verifier::external_body]
fn load_rgba(path: &str, bytes: &[u8]) -> (res: Result<(u32, u32, Vec<u8>), String>)
    ensures
        res is Ok <==> decoded_rgba(path@, bytes@) is Some,
        res matches Ok((w, h, data)) ==> decoded_rgba(path@, bytes@) == Some((w as nat, h as nat, data@))
            && data@.len() == w * h * 4,
{
    let format = image::ImageFormat::from_path(path).map_err(|e| e.to_string())?;
    match image::load_from_memory_with_format(bytes, format) {
        Ok(img) => {
            let rgba = img.to_rgba8();
            let (w, h) = rgba.dimensions();
            Ok((w, h, rgba.into_raw()))
        },
        Err(e) => Err(e.to_string()),
    }
}

/// The image that a file named `path` holding `bytes` decodes to, if it decodes.
pub open spec fn decoded_image(path: Seq<char>, bytes: Seq<u8>) -> Option<Raster> {
    match decoded_rgba(path, bytes) {
        Some((w, h, data)) => Some(Raster { width: w, height: h, bytes: data }),
        None => None,
    }
}

/// Decodes the image file named `path` whose contents are `bytes` (see
/// [`decoded_image`]); `Err` holds the decoder's message, or says that the image is too
/// large to hold.
pub fn decode_image(path: &str, bytes: &[u8]) -> (res: Result<RgbaImage, String>)
    ensures
        res is Ok <==> (decoded_image(path@, bytes@) matches Some(img) && img.wf()),
        res matches Ok(img) ==> decoded_image(path@, bytes@) == Some(img@),
{
    match load_rgba(path, bytes) {
        Ok((w, h, data)) => match RgbaImage::from_raw(w, h, data) {
            Some(img) => Ok(img),
            None => Err(crate::text::owned("图片过大")),
        },
        Err(e) => Err(e),
    }
}

} // verus!
