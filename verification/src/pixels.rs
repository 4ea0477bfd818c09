//! Pixel-level analysis and transformation of RGBA images.

use vstd::prelude::*;
use crate::raster::{channel_of, dims_product, lemma_pixel_position, lemma_position_unique, Raster, Rgba, RgbaImage};

verus! {

/// Alpha above which a pixel counts as "not fully transparent" when the bounding box of
/// the artwork is computed.
pub const VISIBLE: u8 = 8;

/// Alpha from which a pixel counts as opaque.
pub const OPAQUE: u8 = 200;

pub open spec fn is_visible(px: Rgba) -> bool {
    px.a > VISIBLE
}

/// Some pixel of the image is not fully transparent.
pub open spec fn has_visible(r: Raster) -> bool {
    exists|x: int, y: int| r.in_bounds(x, y) && #[trigger] is_visible(r.pixel(x, y))
}

/// `(x0, y0, w, h)` is the smallest rectangle that holds every visible pixel of `r`:
/// every visible pixel lies inside it, and each of its four edges touches one.
pub open spec fn is_alpha_bbox(r: Raster, x0: int, y0: int, w: int, h: int) -> bool {
    &&& w >= 1
    &&& h >= 1
    &&& forall|x: int, y: int|
        r.in_bounds(x, y) && #[trigger] is_visible(r.pixel(x, y)) ==> x0 <= x < x0 + w && y0 <= y
            < y0 + h
    &&& exists|y: int| r.in_bounds(x0, y) && #[trigger] is_visible(r.pixel(x0, y))
    &&& exists|y: int| r.in_bounds(x0 + w - 1, y) && #[trigger] is_visible(r.pixel(x0 + w - 1, y))
    &&& exists|x: int| r.in_bounds(x, y0) && #[trigger] is_visible(r.pixel(x, y0))
    &&& exists|x: int| r.in_bounds(x, y0 + h - 1) && #[trigger] is_visible(r.pixel(x, y0 + h - 1))
}

/// The bounding box of the pixels whose alpha exceeds [`VISIBLE`], as `(x, y, width, height)`.
/// `None` when no pixel is visible; an image of width and height zero yields `(0, 0, 1, 1)`.
pub fn alpha_bbox(img: &RgbaImage) -> (bbox: Option<(u32, u32, u32, u32)>)
    requires
        img@.wf(),
    ensures
        img@.width == 0 && img@.height == 0 ==> bbox == Some((0u32, 0u32, 1u32, 1u32)),
        !(img@.width == 0 && img@.height == 0) ==> (bbox is None <==> !has_visible(img@)),
        !(img@.width == 0 && img@.height == 0) ==> (bbox matches Some(b) ==> is_alpha_bbox(
            img@,
            b.0 as int,
            b.1 as int,
            b.2 as int,
            b.3 as int,
        )),
{
    let w = img.width();
    let h = img.height();
    let n: usize = dims_product(w, h) as usize;
    let ghost r = img@;
    let mut x0: u32 = w;
    let mut y0: u32 = h;
    let mut x1: u32 = 0;
    let mut y1: u32 = 0;
    let mut found = false;
    let ghost mut wy_left: int = 0;
    let ghost mut wy_right: int = 0;
    let ghost mut wx_top: int = 0;
    let ghost mut wx_bottom: int = 0;
    let mut x: u32 = 0;
    let mut y: u32 = 0;
    let mut p: usize = 0;
    proof {
        if n > 0 {
            assert(w > 0 && h > 0) by (nonlinear_arith)
                requires
                    n == w * h,
                    n > 0,
            ;
        }
    }
    while p < n
        invariant
            r == img@,
            r.wf(),
            w == r.width,
            h == r.height,
            n == r.npix(),
            p <= n,
            p == y * w + x,
            n > 0 ==> x < w,
            y <= h,
            p < n ==> y < h,
            !found ==> x0 == w && y0 == h && x1 == 0 && y1 == 0,
            found ==> x0 <= x1 && y0 <= y1 && n > 0,
            !found ==> forall|xx: int, yy: int|
                r.in_bounds(xx, yy) && yy * w + xx < p ==> !#[trigger] is_visible(r.pixel(xx, yy)),
            found ==> forall|xx: int, yy: int|
                r.in_bounds(xx, yy) && yy * w + xx < p && #[trigger] is_visible(r.pixel(xx, yy))
                    ==> x0 <= xx <= x1 && y0 <= yy <= y1,
            found ==> r.in_bounds(x0 as int, wy_left) && is_visible(r.pixel(x0 as int, wy_left)),
            found ==> r.in_bounds(x1 as int, wy_right) && is_visible(r.pixel(x1 as int, wy_right)),
            found ==> r.in_bounds(wx_top, y0 as int) && is_visible(r.pixel(wx_top, y0 as int)),
            found ==> r.in_bounds(wx_bottom, y1 as int) && is_visible(r.pixel(wx_bottom, y1 as int)),
        decreases n - p,
    {
        proof {
            lemma_pixel_position(r.width, r.height, x as int, y as int);
        }
        let px = img.pixel_at(p);
        if px.a > VISIBLE {
            if !found {
                proof {
                    wy_left = y as int;
                    wy_right = y as int;
                    wx_top = x as int;
                    wx_bottom = x as int;
                }
                x0 = x;
                x1 = x;
                y0 = y;
                y1 = y;
                found = true;
            } else {
                if x < x0 {
                    x0 = x;
                    proof {
                        wy_left = y as int;
                    }
                }
                if x > x1 {
                    x1 = x;
                    proof {
                        wy_right = y as int;
                    }
                }
                if y < y0 {
                    y0 = y;
                    proof {
                        wx_top = x as int;
                    }
                }
                if y > y1 {
                    y1 = y;
                    proof {
                        wx_bottom = x as int;
                    }
                }
            }
        }
        proof {
            assert(r.pixel(x as int, y as int) == px);
            assert forall|xx: int, yy: int|
                r.in_bounds(xx, yy) && yy * w + xx == p implies xx == x && yy == y by {
                lemma_position_unique(r.width, xx, yy, x as int, y as int);
            }
        }
        p = p + 1;
        if x + 1 == w {
            x = 0;
            y = y + 1;
            assert(p == y * w + x) by (nonlinear_arith)
                requires
                    p == (y - 1) * w + (w - 1) + 1,
                    x == 0,
            ;
        } else {
            x = x + 1;
        }
        proof {
            if y >= h && p < n {
                assert(p >= n) by (nonlinear_arith)
                    requires
                        p == y * w + x,
                        y >= h,
                        n == w * h,
                        x >= 0,
                ;
            }
        }
    }
    if x0 > x1 || y0 > y1 {
        proof {
            if found {
                assert(false);
            }
            if n > 0 {
                assert forall|xx: int, yy: int|
                    r.in_bounds(xx, yy) implies !#[trigger] is_visible(r.pixel(xx, yy)) by {
                    lemma_pixel_position(r.width, r.height, xx, yy);
                }
            } else {
                assert(w == 0 || h == 0) by (nonlinear_arith)
                    requires
                        n == w * h,
                        n == 0,
                ;
                assert(!has_visible(r)) by {
                    assert forall|xx: int, yy: int|
                        r.in_bounds(xx, yy) implies !#[trigger] is_visible(r.pixel(xx, yy)) by {}
                }
            }
        }
        return None;
    }
    proof {
        if !found {
            assert(w == 0 && h == 0);
            assert(n == 0) by (nonlinear_arith)
                requires
                    n == w * h,
                    w == 0,
            ;
        } else {
            assert(n > 0);
            assert forall|xx: int, yy: int|
                r.in_bounds(xx, yy) && #[trigger] is_visible(r.pixel(xx, yy)) implies x0 <= xx
                    < x0 + (x1 - x0 + 1) && y0 <= yy < y0 + (y1 - y0 + 1) by {
                lemma_pixel_position(r.width, r.height, xx, yy);
            }
            assert(x0 as int + (x1 - x0 + 1) - 1 == x1);
            assert(y0 as int + (y1 - y0 + 1) - 1 == y1);
        }
    }
    Some((x0, y0, x1 - x0 + 1, y1 - y0 + 1))
}


/// The number of opaque pixels (alpha at least [`OPAQUE`]) among the first `n` positions.
pub open spec fn opaque_upto(r: Raster, n: int) -> nat
    decreases n,
{
    if n <= 0 {
        0
    } else {
        opaque_upto(r, n - 1) + if r.at(n - 1).a >= OPAQUE {
            1nat
        } else {
            0nat
        }
    }
}

/// The number of opaque pixels of the image.
pub open spec fn opaque_total(r: Raster) -> nat {
    opaque_upto(r, r.npix() as int)
}

/// Counts the pixels whose alpha is at least [`OPAQUE`].
pub fn opaque_count(img: &RgbaImage) -> (count: u64)
    requires
        img@.wf(),
    ensures
        count == opaque_total(img@),
        count <= img@.npix(),
{
    let n: usize = dims_product(img.width(), img.height()) as usize;
    let mut count: u64 = 0;
    let mut p: usize = 0;
    while p < n
        invariant
            img@.wf(),
            n == img@.npix(),
            p <= n,
            count == opaque_upto(img@, p as int),
            count <= p,
        decreases n - p,
    {
        let px = img.pixel_at(p);
        if px.a >= OPAQUE {
            count = count + 1;
        }
        p = p + 1;
    }
    count
}

/// The rectangle that `crop` keeps: the requested one, clamped to the image as the
/// `image` crate clamps it, as `(x, y, width, height)`.
pub open spec fn clamped_rect(r: Raster, x: int, y: int, w: int, h: int) -> (int, int, int, int) {
    let cx = if x < r.width { x } else { r.width as int };
    let cy = if y < r.height { y } else { r.height as int };
    let ch = if h < r.height - cy { h } else { r.height - cy };
    let cw = if w < r.width - cx { w } else { r.width - cx };
    (cx, cy, cw, ch)
}

/// `out` is the part of `r` inside the rectangle at `(x, y)` of size `w` by `h`.
pub open spec fn is_crop_of(out: Raster, r: Raster, x: int, y: int, w: int, h: int) -> bool {
    &&& out.width == w
    &&& out.height == h
    &&& forall|i: int, j: int| #[trigger] out.in_bounds(i, j) ==> out.pixel(i, j) == r.pixel(x + i, y + j)
}

/// Copies the rectangle at `(x, y)` of size `width` by `height` out of `img`; the
/// rectangle is first clamped to the image.
pub fn crop(img: &RgbaImage, x: u32, y: u32, width: u32, height: u32) -> (out: RgbaImage)
    requires
        img@.wf(),
    ensures
        out@.wf(),
        ({
            let (cx, cy, cw, ch) = clamped_rect(img@, x as int, y as int, width as int, height as int);
            is_crop_of(out@, img@, cx, cy, cw, ch)
        }),
{
    let ghost r = img@;
    let iw = img.width();
    let ih = img.height();
    let cx: u32 = if x < iw { x } else { iw };
    let cy: u32 = if y < ih { y } else { ih };
    let ch: u32 = if height < ih - cy { height } else { ih - cy };
    let cw: u32 = if width < iw - cx { width } else { iw - cx };
    proof {
        assert((cw as nat) * (ch as nat) <= (iw as nat) * (ih as nat)) by (nonlinear_arith)
            requires
                cw <= iw,
                ch <= ih,
        ;
    }
    let n: usize = dims_product(cw, ch) as usize;
    proof {
        if n > 0 {
            assert(cw > 0 && ch > 0) by (nonlinear_arith)
                requires
                    n == cw * ch,
                    n > 0,
            ;
        }
    }
    let mut data: Vec<u8> = Vec::new();
    let mut i: u32 = 0;
    let mut j: u32 = 0;
    let mut q: usize = 0;
    while q < n
        invariant
            r == img@,
            r.wf(),
            iw == r.width,
            ih == r.height,
            cx + cw <= iw,
            cy + ch <= ih,
            n == cw * ch,
            q <= n,
            q == j * cw + i,
            n > 0 ==> i < cw,
            q < n ==> j < ch,
            data@.len() == 4 * q,
            forall|ii: int, jj: int|
                0 <= ii < cw && 0 <= jj < ch && jj * cw + ii < q ==> #[trigger] (Raster {
                    width: cw as nat,
                    height: ch as nat,
                    bytes: data@,
                }).pixel(ii, jj) == r.pixel(cx + ii, cy + jj),
        decreases n - q,
    {
        let ghost old_data = data@;
        let px = img.get_pixel(cx + i, cy + j);
        data.push(px.r);
        data.push(px.g);
        data.push(px.b);
        data.push(px.a);
        proof {
            lemma_pixel_position(cw as nat, ch as nat, i as int, j as int);
            assert forall|ii: int, jj: int|
                0 <= ii < cw && 0 <= jj < ch && jj * cw + ii < q + 1 implies #[trigger] (Raster {
                    width: cw as nat,
                    height: ch as nat,
                    bytes: data@,
                }).pixel(ii, jj) == r.pixel(cx + ii, cy + jj) by {
                lemma_pixel_position(cw as nat, ch as nat, ii, jj);
                if jj * cw + ii == q {
                    lemma_position_unique(cw as nat, ii, jj, i as int, j as int);
                } else {
                    assert((Raster { width: cw as nat, height: ch as nat, bytes: old_data }).pixel(
                        ii,
                        jj,
                    ) == r.pixel(cx + ii, cy + jj));
                }
            }
        }
        q = q + 1;
        if i + 1 == cw {
            i = 0;
            j = j + 1;
            assert(q == j * cw + i) by (nonlinear_arith)
                requires
                    q == (j - 1) * cw + (cw - 1) + 1,
                    i == 0,
            ;
        } else {
            i = i + 1;
        }
        proof {
            if j >= ch && q < n {
                assert(q >= n) by (nonlinear_arith)
                    requires
                        q == j * cw + i,
                        j >= ch,
                        n == cw * ch,
                        i >= 0,
                ;
            }
        }
    }
    let out = RgbaImage::from_raw(cw, ch, data);
    match out {
        Some(o) => {
            assert forall|ii: int, jj: int| #[trigger] o@.in_bounds(ii, jj) implies o@.pixel(ii, jj)
                == r.pixel(cx + ii, cy + jj) by {
                lemma_pixel_position(cw as nat, ch as nat, ii, jj);
            }
            o
        },
        None => {
            assert(false);
            RgbaImage::from_pixel(0, 0, Rgba { r: 0, g: 0, b: 0, a: 0 })
        },
    }
}


/// One channel of `fg` laid over `bg` with coverage `a` out of 255, rounded down.
pub open spec fn blend_channel(fg: u8, bg: u8, a: u8) -> u8 {
    ((fg as int * a as int + bg as int * (255 - a as int)) / 255) as u8
}

/// A pixel composited onto the background `bg` and made fully opaque; fully opaque
/// pixels stay as they are.
pub open spec fn flatten_pixel(px: Rgba, bg: Rgba) -> Rgba {
    if px.a == 255 {
        px
    } else {
        Rgba {
            r: blend_channel(px.r, bg.r, px.a),
            g: blend_channel(px.g, bg.g, px.a),
            b: blend_channel(px.b, bg.b, px.a),
            a: 255,
        }
    }
}

fn blend_channel_exec(fg: u8, bg: u8, a: u8) -> (v: u8)
    ensures
        v == blend_channel(fg, bg, a),
{
    let inv: u32 = 255 - a as u32;
    assert((fg as int) * (a as int) + (bg as int) * (inv as int) <= 255 * 255) by (nonlinear_arith)
        requires
            inv == 255 - a,
            fg <= 255,
            bg <= 255,
            a <= 255,
    ;
    let x: u32 = (fg as u32) * (a as u32) + (bg as u32) * inv;
    (x / 255) as u8
}

/// `out` is `r` with every pixel composited onto `bg` by [`flatten_pixel`].
pub open spec fn is_flattened(out: Raster, r: Raster, bg: Rgba) -> bool {
    &&& out.width == r.width
    &&& out.height == r.height
    &&& forall|p: int| 0 <= p < r.npix() ==> #[trigger] out.at(p) == flatten_pixel(r.at(p), bg)
}

/// Composites the translucent pixels of `img` onto `bg` and makes every pixel opaque.
pub fn flatten(img: &RgbaImage, bg: Rgba) -> (out: RgbaImage)
    requires
        img@.wf(),
    ensures
        out@.wf(),
        is_flattened(out@, img@, bg),
{
    let ghost r = img@;
    let n: usize = dims_product(img.width(), img.height()) as usize;
    let mut data: Vec<u8> = Vec::new();
    let mut p: usize = 0;
    while p < n
        invariant
            r == img@,
            r.wf(),
            n == r.npix(),
            p <= n,
            data@.len() == 4 * p,
            forall|q: int|
                0 <= q < p ==> #[trigger] (Raster { width: r.width, height: r.height, bytes: data@ }).at(q)
                    == flatten_pixel(r.at(q), bg),
        decreases n - p,
    {
        let ghost old_data = data@;
        let px = img.pixel_at(p);
        if px.a == 255 {
            data.push(px.r);
            data.push(px.g);
            data.push(px.b);
            data.push(px.a);
        } else {
            data.push(blend_channel_exec(px.r, bg.r, px.a));
            data.push(blend_channel_exec(px.g, bg.g, px.a));
            data.push(blend_channel_exec(px.b, bg.b, px.a));
            data.push(255);
        }
        proof {
            assert forall|q: int| 0 <= q < p + 1 implies #[trigger] (Raster {
                width: r.width,
                height: r.height,
                bytes: data@,
            }).at(q) == flatten_pixel(r.at(q), bg) by {
                if q < p {
                    assert((Raster { width: r.width, height: r.height, bytes: old_data }).at(q)
                        == flatten_pixel(r.at(q), bg));
                }
            }
        }
        p = p + 1;
    }
    match RgbaImage::from_raw(img.width(), img.height(), data) {
        Some(o) => o,
        None => {
            assert(false);
            RgbaImage::from_pixel(0, 0, bg)
        },
    }
}

/// The colour bucket of a pixel: its channels quantised to 16 levels each.
pub open spec fn bucket_key(px: Rgba) -> int {
    (px.r / 16) as int * 256 + (px.g / 16) as int * 16 + (px.b / 16) as int
}

/// The number of colour buckets.
pub const BUCKETS: usize = 4096;

pub open spec fn in_bucket(px: Rgba, k: int) -> bool {
    px.a >= OPAQUE && bucket_key(px) == k
}

/// The number of opaque pixels of bucket `k` among the first `n` positions.
pub open spec fn bucket_count(r: Raster, n: int, k: int) -> nat
    decreases n,
{
    if n <= 0 {
        0
    } else {
        bucket_count(r, n - 1, k) + if in_bucket(r.at(n - 1), k) {
            1nat
        } else {
            0nat
        }
    }
}

/// The sum of channel `c` over the opaque pixels of bucket `k` among the first `n` positions.
pub open spec fn bucket_sum(r: Raster, n: int, k: int, c: int) -> nat
    decreases n,
{
    if n <= 0 {
        0
    } else {
        bucket_sum(r, n - 1, k, c) + if in_bucket(r.at(n - 1), k) {
            channel_of(r.at(n - 1), c) as nat
        } else {
            0nat
        }
    }
}

/// The first bucket among `0..m` whose pixel count is largest.
pub open spec fn best_bucket(r: Raster, m: int) -> int
    decreases m,
{
    if m <= 1 {
        0
    } else {
        let b = best_bucket(r, m - 1);
        if bucket_count(r, r.npix() as int, m - 1) > bucket_count(r, r.npix() as int, b) {
            m - 1
        } else {
            b
        }
    }
}

/// The dominant colour of an image: the mean colour of the most populated bucket of
/// opaque pixels, fully opaque; white when the image has no opaque pixel.
pub open spec fn dominant_color_of(r: Raster) -> Rgba {
    let n = r.npix() as int;
    let k = best_bucket(r, BUCKETS as int);
    let count = bucket_count(r, n, k);
    if count == 0 {
        Rgba { r: 255, g: 255, b: 255, a: 255 }
    } else {
        Rgba {
            r: (bucket_sum(r, n, k, 0) / count) as u8,
            g: (bucket_sum(r, n, k, 1) / count) as u8,
            b: (bucket_sum(r, n, k, 2) / count) as u8,
            a: 255,
        }
    }
}

/// The bucket that `best_bucket` picks has the largest count of all, and no bucket
/// before it has as many pixels.
pub proof fn lemma_best_bucket_is_max(r: Raster, m: int)
    requires
        m >= 1,
    ensures
        0 <= best_bucket(r, m) < m,
        forall|k: int|
            0 <= k < m ==> #[trigger] bucket_count(r, r.npix() as int, k) <= bucket_count(
                r,
                r.npix() as int,
                best_bucket(r, m),
            ),
        forall|k: int|
            0 <= k < best_bucket(r, m) ==> #[trigger] bucket_count(r, r.npix() as int, k)
                < bucket_count(r, r.npix() as int, best_bucket(r, m)),
    decreases m,
{
    if m > 1 {
        lemma_best_bucket_is_max(r, m - 1);
    }
}

proof fn lemma_bucket_step(r: Raster, n: int, k: int)
    requires
        n >= 0,
    ensures
        bucket_count(r, n + 1, k) == bucket_count(r, n, k) + if in_bucket(r.at(n), k) {
            1nat
        } else {
            0nat
        },
        forall|c: int|
            #[trigger] bucket_sum(r, n + 1, k, c) == bucket_sum(r, n, k, c) + if in_bucket(r.at(n), k) {
                channel_of(r.at(n), c) as nat
            } else {
                0nat
            },
{
}

fn pixel_bucket(px: Rgba) -> (k: usize)
    ensures
        k == bucket_key(px),
        k < BUCKETS,
{
    ((px.r / 16) as usize) * 256 + ((px.g / 16) as usize) * 16 + ((px.b / 16) as usize)
}

/// The mean colour of the most populated bucket of opaque pixels (see
/// [`dominant_color_of`]); white when no pixel is opaque.
pub fn dominant_color(img: &RgbaImage) -> (color: Rgba)
    requires
        img@.wf(),
    ensures
        color == dominant_color_of(img@),
{
    let ghost r = img@;
    let n: usize = dims_product(img.width(), img.height()) as usize;
    let mut counts: Vec<u64> = vec![0u64; BUCKETS];
    let mut sum_r: Vec<u64> = vec![0u64; BUCKETS];
    let mut sum_g: Vec<u64> = vec![0u64; BUCKETS];
    let mut sum_b: Vec<u64> = vec![0u64; BUCKETS];
    let mut p: usize = 0;
    while p < n
        invariant
            r == img@,
            r.wf(),
            n == r.npix(),
            p <= n,
            counts@.len() == BUCKETS,
            sum_r@.len() == BUCKETS,
            sum_g@.len() == BUCKETS,
            sum_b@.len() == BUCKETS,
            forall|k: int|
                0 <= k < BUCKETS ==> {
                    &&& #[trigger] counts@[k] == bucket_count(r, p as int, k)
                    &&& sum_r@[k] == bucket_sum(r, p as int, k, 0)
                    &&& sum_g@[k] == bucket_sum(r, p as int, k, 1)
                    &&& sum_b@[k] == bucket_sum(r, p as int, k, 2)
                    &&& counts@[k] <= p
                    &&& sum_r@[k] <= 255 * counts@[k]
                    &&& sum_g@[k] <= 255 * counts@[k]
                    &&& sum_b@[k] <= 255 * counts@[k]
                },
        decreases n - p,
    {
        let px = img.pixel_at(p);
        let ghost pp = p as int;
        let ghost key = bucket_key(px);
        let ghost (c0, r0, g0, b0) = (counts@, sum_r@, sum_g@, sum_b@);
        if px.a >= OPAQUE {
            let k = pixel_bucket(px);
            let c = counts[k];
            counts.set(k, c + 1);
            let s = sum_r[k];
            sum_r.set(k, s + px.r as u64);
            let s = sum_g[k];
            sum_g.set(k, s + px.g as u64);
            let s = sum_b[k];
            sum_b.set(k, s + px.b as u64);
        }
        proof {
            assert forall|k: int| 0 <= k < BUCKETS implies {
                &&& #[trigger] counts@[k] == bucket_count(r, pp + 1, k)
                &&& sum_r@[k] == bucket_sum(r, pp + 1, k, 0)
                &&& sum_g@[k] == bucket_sum(r, pp + 1, k, 1)
                &&& sum_b@[k] == bucket_sum(r, pp + 1, k, 2)
                &&& counts@[k] <= pp + 1
                &&& sum_r@[k] <= 255 * counts@[k]
                &&& sum_g@[k] <= 255 * counts@[k]
                &&& sum_b@[k] <= 255 * counts@[k]
            } by {
                lemma_bucket_step(r, pp, k);
                assert(bucket_sum(r, pp + 1, k, 0) == bucket_sum(r, pp, k, 0) + if in_bucket(r.at(pp), k) {
                    channel_of(r.at(pp), 0) as nat
                } else {
                    0nat
                });
                assert(bucket_sum(r, pp + 1, k, 1) == bucket_sum(r, pp, k, 1) + if in_bucket(r.at(pp), k) {
                    channel_of(r.at(pp), 1) as nat
                } else {
                    0nat
                });
                assert(bucket_sum(r, pp + 1, k, 2) == bucket_sum(r, pp, k, 2) + if in_bucket(r.at(pp), k) {
                    channel_of(r.at(pp), 2) as nat
                } else {
                    0nat
                });
                assert(c0[k] == bucket_count(r, pp, k));
            }
        }
        p = p + 1;
    }
    let mut best: usize = 0;
    let mut k: usize = 1;
    while k < BUCKETS
        invariant
            1 <= k <= BUCKETS,
            r.wf(),
            n == r.npix(),
            counts@.len() == BUCKETS,
            best == best_bucket(r, k as int),
            0 <= best < k,
            forall|j: int| 0 <= j < BUCKETS ==> #[trigger] counts@[j] == bucket_count(r, n as int, j),
        decreases BUCKETS - k,
    {
        if counts[k] > counts[best] {
            best = k;
        }
        k = k + 1;
    }
    let count = counts[best];
    if count == 0 {
        Rgba { r: 255, g: 255, b: 255, a: 255 }
    } else {
        let sr = sum_r[best];
        let sg = sum_g[best];
        let sb = sum_b[best];
        assert(sr / count <= 255 && sg / count <= 255 && sb / count <= 255) by (nonlinear_arith)
            requires
                sr <= 255 * count,
                sg <= 255 * count,
                sb <= 255 * count,
                count > 0,
        ;
        Rgba { r: (sr / count) as u8, g: (sg / count) as u8, b: (sb / count) as u8, a: 255 }
    }
}

} // verus!
