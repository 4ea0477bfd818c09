//! Full-bleed preparation of icon artwork.
//!
//! An icon whose source image carries transparent margins shows a ring of background
//! once the system lays it on its own rounded plate. Before icons are generated, the
//! artwork is therefore normalised to a fully opaque 1024 by 1024 canvas: the
//! transparent margin is cut away, and the artwork either fills the canvas ("cover")
//! or sits on a plate of its own dominant colour ("plate").

use vstd::prelude::*;
use crate::image_ops::{decode_image, decoded_image, is_resample_of, overlay, overlay_of, resize, under_rect};
use crate::pixels::{
    alpha_bbox, clamped_rect, crop, dominant_color, dominant_color_of, flatten, flatten_pixel,
    is_alpha_bbox, is_crop_of, is_flattened, opaque_count, opaque_total,
};
use crate::raster::{filled_bytes, Raster, Rgba, RgbaImage};
use crate::text::{append, push_hex2, hex2};

verus! {

/// The side of the output canvas.
pub const CANVAS: u32 = 1024;

/// The side of the square the artwork is fitted into on the plate: 92 % of the canvas,
/// rounded (1024 * 0.92 = 942.08).
pub const ART_TARGET: u32 = 942;

pub open spec fn min_of(a: int, b: int) -> int {
    if a < b { a } else { b }
}

pub open spec fn max_of(a: int, b: int) -> int {
    if a < b { b } else { a }
}

/// `a / b` rounded up.
pub open spec fn ceil_div(a: int, b: int) -> int {
    (a + b - 1) / b
}

/// `a / b` rounded to the nearest integer, halves away from zero.
pub open spec fn round_div(a: int, b: int) -> int {
    (2 * a + b) / (2 * b)
}

/// The artwork is nearly square (its longer side at most 1.15 times its shorter side)
/// and at least 90 % of it is opaque: it can fill the canvas.
pub open spec fn prefers_cover(bw: int, bh: int, opaque: int, total: int) -> bool {
    &&& max_of(bw, bh) * 100 <= min_of(bw, bh) * 115
    &&& total > 0
    &&& opaque * 10 >= total * 9
}

/// The size the artwork is scaled to so that its shorter side fills the canvas.
pub open spec fn cover_size(w: int, h: int) -> (int, int) {
    let m = min_of(w, h);
    (max_of(ceil_div(w * 1024, m), 1024), max_of(ceil_div(h * 1024, m), 1024))
}

/// The size the artwork is scaled to so that its longer side is [`ART_TARGET`]; an
/// artwork without pixels becomes a single pixel.
pub open spec fn plate_size(w: int, h: int) -> (int, int) {
    if w == 0 && h == 0 {
        (1, 1)
    } else {
        let m = max_of(w, h);
        (max_of(round_div(w * 942, m), 1), max_of(round_div(h * 942, m), 1))
    }
}

/// `out` is the cover canvas of `art`: the artwork resampled to [`cover_size`], its centre
/// 1024 by 1024 cut out, and that cut flattened onto its own dominant colour.
pub open spec fn is_cover_canvas(out: Raster, art: Raster) -> bool {
    let (nw, nh) = cover_size(art.width as int, art.height as int);
    exists|scaled: Raster, cut: Raster|
        #![trigger is_resample_of(scaled, art, nw as nat, nh as nat), is_flattened(out, cut, dominant_color_of(cut))]
        is_resample_of(scaled, art, nw as nat, nh as nat) && cut.wf() && is_crop_of(
            cut,
            scaled,
            (nw - 1024) / 2,
            (nh - 1024) / 2,
            1024,
            1024,
        ) && is_flattened(out, cut, dominant_color_of(cut))
}

/// The square canvas filled with `bg`.
pub open spec fn plain_canvas(bg: Rgba) -> Raster {
    Raster { width: 1024, height: 1024, bytes: filled_bytes(1024 * 1024, bg) }
}

/// `out` is the plate canvas of `art` on `bg`: the artwork resampled to [`plate_size`],
/// laid centred over a canvas of `bg`, and flattened onto `bg`; so everything outside
/// the artwork is `bg`, made opaque.
pub open spec fn is_plate_canvas(out: Raster, art: Raster, bg: Rgba) -> bool {
    let (nw, nh) = plate_size(art.width as int, art.height as int);
    &&& exists|scaled: Raster|
        #![trigger is_resample_of(scaled, art, nw as nat, nh as nat)]
        is_resample_of(scaled, art, nw as nat, nh as nat) && is_flattened(
            out,
            overlay_of(plain_canvas(bg), scaled, (1024 - nw) / 2, (1024 - nh) / 2),
            bg,
        )
    &&& forall|x: int, y: int|
        #![trigger out.pixel(x, y)]
        out.in_bounds(x, y) && !under_rect(x, y, (1024 - nw) / 2, (1024 - nh) / 2, nw, nh) ==> out.pixel(x, y)
            == flatten_pixel(bg, bg)
}

/// A flattened image is fully opaque.
pub proof fn lemma_flattened_is_opaque(out: Raster, r: Raster, bg: Rgba)
    requires
        is_flattened(out, r, bg),
    ensures
        out.is_opaque(),
{
    assert forall|p: int| 0 <= p < out.npix() implies #[trigger] out.at(p).a == 255 by {
        assert(out.at(p) == flatten_pixel(r.at(p), bg));
    }
}

/// Scales the artwork so its shorter side fills the canvas, cuts the centred square
/// out and makes it opaque on its own dominant colour.
fn cover_crop(art: &RgbaImage) -> (out: RgbaImage)
    requires
        art@.wf(),
        art@.width > 0,
        art@.height > 0,
        max_of(art@.width as int, art@.height as int) * 100 <= min_of(art@.width as int, art@.height as int) * 115,
    ensures
        out@.wf(),
        out@.width == CANVAS,
        out@.height == CANVAS,
        out@.is_opaque(),
        is_cover_canvas(out@, art@),
{
    let w: u64 = art.width() as u64;
    let h: u64 = art.height() as u64;
    let m: u64 = if w < h { w } else { h };
    let big: u64 = if w < h { h } else { w };
    proof {
        let (wi, hi, mi, bi) = (w as int, h as int, m as int, big as int);
        assert(bi * 1024 + mi - 1 < 1179 * mi) by (nonlinear_arith)
            requires
                bi * 100 <= mi * 115,
                mi > 0,
        ;
        assert((bi * 1024 + mi - 1) / mi <= 1178) by (nonlinear_arith)
            requires
                bi * 1024 + mi - 1 < 1179 * mi,
                mi > 0,
        ;
        assert((wi * 1024 + mi - 1) / mi <= (bi * 1024 + mi - 1) / mi) by (nonlinear_arith)
            requires
                wi <= bi,
                mi > 0,
        ;
        assert((hi * 1024 + mi - 1) / mi <= (bi * 1024 + mi - 1) / mi) by (nonlinear_arith)
            requires
                hi <= bi,
                mi > 0,
        ;
    }
    let nw0: u64 = (w * 1024 + m - 1) / m;
    let nh0: u64 = (h * 1024 + m - 1) / m;
    let nw: u64 = if nw0 < 1024 { 1024 } else { nw0 };
    let nh: u64 = if nh0 < 1024 { 1024 } else { nh0 };
    assert(nw * nh * 4 <= 1178 * 1178 * 4) by (nonlinear_arith)
        requires
            nw <= 1178,
            nh <= 1178,
    ;
    let scaled = resize(art, nw as u32, nh as u32);
    let ox: u32 = ((nw - 1024) / 2) as u32;
    let oy: u32 = ((nh - 1024) / 2) as u32;
    let cut = crop(&scaled, ox, oy, CANVAS, CANVAS);
    let bg = dominant_color(&cut);
    let out = flatten(&cut, bg);
    proof {
        assert(is_resample_of(scaled@, art@, nw as nat, nh as nat));
        assert(is_flattened(out@, cut@, dominant_color_of(cut@)));
        lemma_flattened_is_opaque(out@, cut@, bg);
        let (a, b) = cover_size(art@.width as int, art@.height as int);
        assert(a == nw && b == nh);
        assert(is_resample_of(scaled@, art@, a as nat, b as nat));
        assert(is_crop_of(cut@, scaled@, (a - 1024) / 2, (b - 1024) / 2, 1024, 1024));
    }
    out
}

/// Fits the artwork into [`ART_TARGET`], lays it centred over a canvas of `bg` and
/// makes the result opaque.
fn plate_fill(art: &RgbaImage, bg: Rgba) -> (out: RgbaImage)
    requires
        art@.wf(),
    ensures
        out@.wf(),
        out@.width == CANVAS,
        out@.height == CANVAS,
        out@.is_opaque(),
        is_plate_canvas(out@, art@, bg),
{
    let w: u64 = art.width() as u64;
    let h: u64 = art.height() as u64;
    let (nw, nh): (u64, u64) = if w == 0 && h == 0 {
        (1, 1)
    } else {
        let m: u64 = if w < h { h } else { w };
        proof {
            let (wi, hi, mi) = (w as int, h as int, m as int);
            assert((2 * (wi * 942) + mi) / (2 * mi) <= 942) by (nonlinear_arith)
                requires
                    wi <= mi,
                    mi > 0,
            ;
            assert((2 * (hi * 942) + mi) / (2 * mi) <= 942) by (nonlinear_arith)
                requires
                    hi <= mi,
                    mi > 0,
            ;
        }
        let a: u64 = (2 * (w * 942) + m) / (2 * m);
        let b: u64 = (2 * (h * 942) + m) / (2 * m);
        (if a < 1 { 1 } else { a }, if b < 1 { 1 } else { b })
    };
    assert(nw * nh * 4 <= 942 * 942 * 4) by (nonlinear_arith)
        requires
            nw <= 942,
            nh <= 942,
    ;
    let scaled = resize(art, nw as u32, nh as u32);
    let canvas = RgbaImage::from_pixel(CANVAS, CANVAS, bg);
    let ox: i64 = ((1024 - nw) / 2) as i64;
    let oy: i64 = ((1024 - nh) / 2) as i64;
    let ghost base = canvas@;
    let laid = overlay(canvas, &scaled, ox, oy);
    let out = flatten(&laid, bg);
    proof {
        assert(base == plain_canvas(bg));
        assert(is_resample_of(scaled@, art@, nw as nat, nh as nat));
        assert(is_flattened(out@, overlay_of(plain_canvas(bg), scaled@, ox as int, oy as int), bg));
        lemma_flattened_is_opaque(out@, laid@, bg);
        let (a, b) = plate_size(art@.width as int, art@.height as int);
        assert(a == nw && b == nh);
        assert(is_resample_of(scaled@, art@, a as nat, b as nat));
        assert(is_flattened(out@, overlay_of(plain_canvas(bg), scaled@, (1024 - a) / 2, (1024 - b) / 2), bg));
        assert forall|x: int, y: int|
            #![trigger out@.pixel(x, y)]
            out@.in_bounds(x, y) && !under_rect(x, y, ox as int, oy as int, nw as int, nh as int)
                implies out@.pixel(x, y) == flatten_pixel(bg, bg) by {
            crate::raster::lemma_pixel_position(1024, 1024, x, y);
            assert(crate::image_ops::overlay_pixel_rule(base, laid@, scaled@, ox as int, oy as int, x, y));
            assert(base.at(y * 1024 + x) == bg);
            assert(out@.at(y * 1024 + x) == flatten_pixel(laid@.at(y * 1024 + x), bg));
        }
    }
    out
}

/// The note that reports the cover branch.
pub open spec fn cover_note() -> Seq<char> {
    "满幅预处理: cover 裁切"@
}

/// The note that reports the plate branch and its colour, `#RRGGBB` in upper-case hex.
pub open spec fn plate_note(bg: Rgba) -> Seq<char> {
    "满幅预处理: 底色 #"@ + hex2(bg.r) + hex2(bg.g) + hex2(bg.b) + " 填充"@
}

/// The message for an image that has no visible pixel.
pub open spec fn transparent_message() -> Seq<char> {
    "图片完全透明"@
}

/// The bounding box that [`alpha_bbox`] reports for `r`.
pub open spec fn reported_bbox(r: Raster, x0: int, y0: int, w: int, h: int) -> bool {
    if r.width == 0 && r.height == 0 {
        x0 == 0 && y0 == 0 && w == 1 && h == 1
    } else {
        is_alpha_bbox(r, x0, y0, w, h)
    }
}

/// `canvas` and `note` are what full-bleed preparation makes of `img`: the artwork is cut
/// out along its bounding box and then either covers the canvas or sits on a plate of its
/// dominant colour, as [`prefers_cover`] decides.
pub open spec fn is_full_bleed_of(canvas: Raster, note: Seq<char>, img: Raster) -> bool {
    exists|x0: int, y0: int, bw: int, bh: int, art: Raster|
        #![trigger reported_bbox(img, x0, y0, bw, bh), art.wf()]
        {
            let (cx, cy, cw, ch) = clamped_rect(img, x0, y0, bw, bh);
            &&& reported_bbox(img, x0, y0, bw, bh)
            &&& art.wf()
            &&& is_crop_of(art, img, cx, cy, cw, ch)
            &&& if prefers_cover(bw, bh, opaque_total(art) as int, art.npix() as int) {
                is_cover_canvas(canvas, art) && note == cover_note()
            } else {
                is_plate_canvas(canvas, art, dominant_color_of(art)) && note == plate_note(dominant_color_of(art))
            }
        }
}

/// A prepared canvas and the note that says how it was made.
pub struct FullBleed {
    pub canvas: RgbaImage,
    pub note: String,
}

/// Normalises decoded artwork to a fully opaque 1024 by 1024 canvas. Fails only when
/// the image has pixels but none of them is visible.
pub fn full_bleed(img: &RgbaImage) -> (res: Result<FullBleed, String>)
    requires
        img@.wf(),
    ensures
        res is Err <==> (!(img@.width == 0 && img@.height == 0) && !crate::pixels::has_visible(img@)),
        res matches Err(e) ==> e@ == transparent_message(),
        res matches Ok(fb) ==> {
            &&& fb.canvas@.wf()
            &&& fb.canvas@.width == CANVAS
            &&& fb.canvas@.height == CANVAS
            &&& fb.canvas@.is_opaque()
            &&& is_full_bleed_of(fb.canvas@, fb.note@, img@)
        },
{
    let (bx, by, bw, bh) = match alpha_bbox(img) {
        Some(b) => b,
        None => {
            return Err(crate::text::owned("图片完全透明"));
        },
    };
    let art = crop(img, bx, by, bw, bh);
    let ghost cr = clamped_rect(img@, bx as int, by as int, bw as int, bh as int);
    let opaque = opaque_count(&art);
    let total: u64 = crate::raster::dims_product(art.width(), art.height());
    let big: u64 = if bw < bh { bh as u64 } else { bw as u64 };
    let small: u64 = if bw < bh { bw as u64 } else { bh as u64 };
    let cover = big * 100 <= small * 115 && total > 0 && opaque * 10 >= total * 9;
    if cover {
        proof {
            if !(img@.width == 0 && img@.height == 0) {
                let r = img@;
                let (x0, y0, w0, h0) = (bx as int, by as int, bw as int, bh as int);
                let ya = choose|y: int| r.in_bounds(x0, y) && #[trigger] crate::pixels::is_visible(r.pixel(x0, y));
                let yb = choose|y: int| r.in_bounds(x0 + w0 - 1, y) && #[trigger] crate::pixels::is_visible(r.pixel(x0 + w0 - 1, y));
                let xa = choose|x: int| r.in_bounds(x, y0) && #[trigger] crate::pixels::is_visible(r.pixel(x, y0));
                let xb = choose|x: int| r.in_bounds(x, y0 + h0 - 1) && #[trigger] crate::pixels::is_visible(r.pixel(x, y0 + h0 - 1));
                assert(cr == (x0, y0, w0, h0));
            } else {
                assert(total == 0) by (nonlinear_arith)
                    requires
                        total == art@.width * art@.height,
                        art@.width == 0,
                ;
            }
        }
        let canvas = cover_crop(&art);
        let note = crate::text::owned("满幅预处理: cover 裁切");
        proof {
            assert(reported_bbox(img@, bx as int, by as int, bw as int, bh as int));
            assert(art@.wf());
        }
        Ok(FullBleed { canvas, note })
    } else {
        let bg = dominant_color(&art);
        let canvas = plate_fill(&art, bg);
        let mut note = crate::text::owned("满幅预处理: 底色 #");
        push_hex2(&mut note, bg.r);
        push_hex2(&mut note, bg.g);
        push_hex2(&mut note, bg.b);
        append(&mut note, " 填充");
        proof {
            assert(note@ =~= plate_note(bg));
            assert(reported_bbox(img@, bx as int, by as int, bw as int, bh as int));
            assert(art@.wf());
        }
        Ok(FullBleed { canvas, note })
    }
}


/// The outcome of full-bleed preparation of a source file.
pub struct PrepResult {
    /// The file to generate icons from.
    pub path: String,
    /// What the preparation did.
    pub note: String,
    /// Whether `path` is a temporary file, which the caller removes.
    pub is_temp: bool,
}

/// Whether a character equals `lower` once ASCII letters are made lower-case.
pub open spec fn ascii_lower_is(c: char, lower: char) -> bool {
    c == lower || (c as u32) + 32 == lower as u32 && 'A' as u32 <= c as u32 <= 'Z' as u32
}

/// The extension is `svg` in any letter case. (`str::to_lowercase` turns no character
/// other than `S`, `V` and `G` into `s`, `v` and `g`, so comparing ASCII case-insensitively
/// decides the same.)
pub open spec fn is_svg_extension(ext: Seq<char>) -> bool {
    &&& ext.len() == 3
    &&& ascii_lower_is(ext[0], 's')
    &&& ascii_lower_is(ext[1], 'v')
    &&& ascii_lower_is(ext[2], 'g')
}

/// The path names an SVG file, which the `image` crate cannot decode.
pub open spec fn is_svg_path(path: Seq<char>) -> bool {
    match crate::paths::path_extension(path) {
        Some(ext) => is_svg_extension(ext),
        None => false,
    }
}

fn ascii_lower_is_exec(c: char, lower: char) -> (b: bool)
    requires
        'a' as u32 <= lower as u32 <= 'z' as u32,
    ensures
        b == ascii_lower_is(c, lower),
{
    c == lower || ((c as u32) + 32 == lower as u32 && 'A' as u32 <= c as u32 && c as u32 <= 'Z' as u32)
}

/// Whether the path names an SVG file (see [`is_svg_path`]).
pub fn is_svg(path: &str) -> (b: bool)
    ensures
        b == is_svg_path(path@),
{
    match crate::paths::path_extension_of(path) {
        Some(ext) => {
            let c = crate::text::chars_of(ext.as_str());
            c.len() == 3 && ascii_lower_is_exec(c[0], 's') && ascii_lower_is_exec(c[1], 'v')
                && ascii_lower_is_exec(c[2], 'g')
        },
        None => false,
    }
}

/// What full-bleed preparation of a source file gives.
pub enum Preparation {
    /// Icons are generated from the source as it is.
    Unchanged(PrepResult),
    /// The normalised canvas, to be written to a temporary PNG that the caller removes
    /// once the icons are generated.
    Normalised(FullBleed),
}

/// The note for an SVG source, which is passed through.
pub open spec fn svg_note() -> Seq<char> {
    "SVG 跳过满幅预处理"@
}

/// The message for a source that cannot be read or decoded.
pub open spec fn read_failed(e: Seq<char>) -> Seq<char> {
    "读取图片失败: "@ + e
}

/// What preparation gives for the source file `src`, whose contents are `contents`
/// (`Err` with the reason when it cannot be read): an SVG file is used as it is; anything
/// else is decoded and, unless it fails, normalised by [`full_bleed`].
pub open spec fn is_preparation_of(res: Result<Preparation, String>, src: Seq<char>, contents: Result<Seq<u8>, Seq<char>>) -> bool {
    if is_svg_path(src) {
        res matches Ok(Preparation::Unchanged(r)) && r.path@ == src && r.note@ == svg_note() && !r.is_temp
    } else {
        match contents {
            Err(e) => res matches Err(m) && m@ == read_failed(e),
            Ok(b) => match decoded_image(src, b) {
                Some(img) if img.wf() => if !(img.width == 0 && img.height == 0) && !crate::pixels::has_visible(img) {
                    res matches Err(m) && m@ == transparent_message()
                } else {
                    &&& res matches Ok(Preparation::Normalised(fb))
                    &&& fb.canvas@.wf()
                    &&& fb.canvas@.width == CANVAS
                    &&& fb.canvas@.height == CANVAS
                    &&& fb.canvas@.is_opaque()
                    &&& is_full_bleed_of(fb.canvas@, fb.note@, img)
                },
                _ => res matches Err(m) && crate::macos_look::starts_with(m@, read_failed(Seq::empty())),
            },
        }
    }
}

/// Prepares the source icon `src`, whose contents are `contents`, for icon generation
/// (see [`is_preparation_of`]). An error means the source is to be used as it is.
pub fn prepare_full_bleed(src: &str, contents: Result<Vec<u8>, String>) -> (res: Result<Preparation, String>)
    ensures
        is_preparation_of(res, src@, match contents {
            Ok(b) => Ok(b@),
            Err(e) => Err(e@),
        }),
{
    if is_svg(src) {
        return Ok(Preparation::Unchanged(
            PrepResult {
                path: crate::text::owned(src),
                note: crate::text::owned("SVG 跳过满幅预处理"),
                is_temp: false,
            },
        ));
    }
    let bytes = match contents {
        Ok(b) => b,
        Err(e) => {
            let mut m = crate::text::owned("读取图片失败: ");
            append(&mut m, e.as_str());
            return Err(m);
        },
    };
    match decode_image(src, bytes.as_slice()) {
        Ok(img) => match full_bleed(&img) {
            Ok(fb) => Ok(Preparation::Normalised(fb)),
            Err(e) => Err(e),
        },
        Err(e) => {
            let mut m = crate::text::owned("读取图片失败: ");
            let ghost prefix = m@;
            append(&mut m, e.as_str());
            proof {
                reveal_strlit("读取图片失败: ");
                assert(prefix =~= read_failed(Seq::empty()));
                assert(m@.take(prefix.len() as int) =~= prefix);
            }
            Err(m)
        },
    }
}

} // verus!
