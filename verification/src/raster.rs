//! RGBA and grey-scale pixel buffers, laid out as the `image` crate lays them out:
//! row-major, four bytes (red, green, blue, alpha) per pixel for colour images and
//! one byte per pixel for grey-scale images.

use vstd::prelude::*;

verus! {

/// The largest pixel buffer, in bytes, that the library handles: 2^48 bytes, the size
/// of the virtual address space of current 64-bit machines.
pub const MAX_IMAGE_BYTES: u64 = 0x1_0000_0000_0000u64;

/// One RGBA pixel.
#[derive(Clone, Copy, PartialEq, Eq, Debug, Structural)]
pub struct Rgba {
    pub r: u8,
    pub g: u8,
    pub b: u8,
    pub a: u8,
}

/// Channel `c` (0 red, 1 green, 2 blue, 3 alpha) of a pixel.
pub open spec fn channel_of(px: Rgba, c: int) -> u8 {
    if c == 0 {
        px.r
    } else if c == 1 {
        px.g
    } else if c == 2 {
        px.b
    } else {
        px.a
    }
}

/// The bytes of `n` pixels that all equal `px`.
pub open spec fn filled_bytes(n: nat, px: Rgba) -> Seq<u8> {
    Seq::new(4 * n, |k: int| channel_of(px, k % 4))
}

/// The mathematical content of an RGBA image: its size and its bytes.
pub struct Raster {
    pub width: nat,
    pub height: nat,
    pub bytes: Seq<u8>,
}

impl Raster {
    /// The number of pixels.
    pub open spec fn npix(self) -> nat {
        self.width * self.height
    }

    /// The buffer holds exactly four bytes per pixel and fits the limits of the machine.
    pub open spec fn wf(self) -> bool {
        &&& self.width <= u32::MAX
        &&& self.height <= u32::MAX
        &&& self.bytes.len() == self.npix() * 4
        &&& self.npix() * 4 <= MAX_IMAGE_BYTES
        &&& self.npix() * 4 <= usize::MAX
    }

    /// The pixel stored at position `p` of the row-major order.
    pub open spec fn at(self, p: int) -> Rgba {
        Rgba {
            r: self.bytes[4 * p],
            g: self.bytes[4 * p + 1],
            b: self.bytes[4 * p + 2],
            a: self.bytes[4 * p + 3],
        }
    }

    pub open spec fn in_bounds(self, x: int, y: int) -> bool {
        0 <= x < self.width && 0 <= y < self.height
    }

    /// The pixel in column `x` of row `y`.
    pub open spec fn pixel(self, x: int, y: int) -> Rgba {
        self.at(y * self.width + x)
    }

    /// Every pixel of the image is `px`.
    pub open spec fn is_filled_with(self, px: Rgba) -> bool {
        forall|p: int| 0 <= p < self.npix() ==> #[trigger] self.at(p) == px
    }

    /// Every pixel of the image is fully opaque.
    pub open spec fn is_opaque(self) -> bool {
        forall|p: int| 0 <= p < self.npix() ==> #[trigger] self.at(p).a == 255
    }
}

/// The pixel at `(x, y)` sits at position `y * width + x`, inside the buffer.
pub proof fn lemma_pixel_position(w: nat, h: nat, x: int, y: int)
    requires
        0 <= x < w,
        0 <= y < h,
    ensures
        0 <= y * w + x < w * h,
        4 * (y * w + x) + 3 < 4 * (w * h),
{
    assert(0 <= y * w + x < w * h) by (nonlinear_arith)
        requires
            0 <= x < w,
            0 <= y < h,
    ;
}

/// Two coordinates that name the same position are the same coordinates.
pub proof fn lemma_position_unique(w: nat, x1: int, y1: int, x2: int, y2: int)
    requires
        0 <= x1 < w,
        0 <= x2 < w,
        y1 * w + x1 == y2 * w + x2,
    ensures
        x1 == x2,
        y1 == y2,
{
    vstd::arithmetic::div_mod::lemma_fundamental_div_mod_converse(y1 * w + x1, w as int, y1, x1);
    vstd::arithmetic::div_mod::lemma_fundamental_div_mod_converse(y2 * w + x2, w as int, y2, x2);
}

/// The product of two image dimensions.
pub fn dims_product(a: u32, b: u32) -> (n: u64)
    ensures
        n == a * b,
{
    assert((a as int) * (b as int) <= (u32::MAX as int) * (u32::MAX as int)) by (nonlinear_arith);
    (a as u64) * (b as u64)
}

/// An RGBA image whose pixels are stored row-major, four bytes per pixel.
pub struct RgbaImage {
    width: u32,
    height: u32,
    data: Vec<u8>,
}

impl View for RgbaImage {
    type V = Raster;

    closed spec fn view(&self) -> Raster {
        Raster { width: self.width as nat, height: self.height as nat, bytes: self.data@ }
    }
}

impl RgbaImage {
    pub fn width(&self) -> (w: u32)
        ensures
            w == self@.width,
    {
        self.width
    }

    pub fn height(&self) -> (h: u32)
        ensures
            h == self@.height,
    {
        self.height
    }

    /// The raw bytes, row-major, four per pixel.
    pub fn as_raw(&self) -> (bytes: &Vec<u8>)
        ensures
            bytes@ == self@.bytes,
    {
        &self.data
    }

    /// Takes the raw bytes out of the image.
    pub fn into_raw(self) -> (bytes: Vec<u8>)
        ensures
            bytes@ == self@.bytes,
    {
        self.data
    }

    /// Builds an image from raw bytes; `None` when the buffer does not hold exactly
    /// four bytes per pixel or exceeds [`MAX_IMAGE_BYTES`].
    pub fn from_raw(width: u32, height: u32, data: Vec<u8>) -> (img: Option<RgbaImage>)
        ensures
            img is Some <==> (Raster { width: width as nat, height: height as nat, bytes: data@ }).wf(),
            img matches Some(i) ==> i@ == (Raster {
                width: width as nat,
                height: height as nat,
                bytes: data@,
            }),
    {
        let n: u64 = dims_product(width, height);
        if n > MAX_IMAGE_BYTES / 4 {
            return None;
        }
        if data.len() as u64 != n * 4 || n * 4 > usize::MAX as u64 {
            return None;
        }
        Some(RgbaImage { width, height, data })
    }

    /// Builds an image of the given size whose pixels all equal `px`.
    pub fn from_pixel(width: u32, height: u32, px: Rgba) -> (img: RgbaImage)
        requires
            (width as nat) * (height as nat) * 4 <= MAX_IMAGE_BYTES,
            (width as nat) * (height as nat) * 4 <= usize::MAX,
        ensures
            img@.wf(),
            img@.width == width,
            img@.height == height,
            img@.is_filled_with(px),
            img@.bytes == filled_bytes(img@.npix(), px),
    {
        let n: u64 = dims_product(width, height);
        let n: usize = n as usize;
        let mut data: Vec<u8> = Vec::new();
        let mut p: usize = 0;
        while p < n
            invariant
                n == (width as nat) * (height as nat),
                n * 4 <= MAX_IMAGE_BYTES,
                p <= n,
                data@.len() == 4 * p,
                forall|q: int, c: int|
                    0 <= q < p && 0 <= c < 4 ==> #[trigger] data@[4 * q + c] == channel_of(px, c),
            decreases n - p,
        {
            data.push(px.r);
            data.push(px.g);
            data.push(px.b);
            data.push(px.a);
            proof {
                assert forall|q: int, c: int| 0 <= q < p + 1 && 0 <= c < 4 implies #[trigger] data@[4
                    * q + c] == channel_of(px, c) by {
                    if q == p {
                        assert(4 * q + c == 4 * p + c);
                    }
                }
            }
            p = p + 1;
        }
        assert(data@ =~= filled_bytes(n as nat, px)) by {
            assert forall|k: int| 0 <= k < 4 * n implies #[trigger] data@[k] == channel_of(px, k % 4) by {
                let q = k / 4;
                let c = k % 4;
                assert(k == 4 * q + c);
                assert(data@[4 * q + c] == channel_of(px, c));
            }
        }
        let img = RgbaImage { width, height, data };
        assert forall|q: int| 0 <= q < img@.npix() implies #[trigger] img@.at(q) == px by {
            assert(img@.bytes[4 * q + 0] == channel_of(px, 0));
            assert(img@.bytes[4 * q + 1] == channel_of(px, 1));
            assert(img@.bytes[4 * q + 2] == channel_of(px, 2));
            assert(img@.bytes[4 * q + 3] == channel_of(px, 3));
        }
        img
    }

    /// The row-major position of the pixel in column `x` of row `y`.
    pub fn position(&self, x: u32, y: u32) -> (p: usize)
        requires
            self@.wf(),
            self@.in_bounds(x as int, y as int),
        ensures
            p == y * self@.width + x,
            p < self@.npix(),
    {
        proof {
            lemma_pixel_position(self@.width, self@.height, x as int, y as int);
        }
        let len = self.data.len();
        let row: u64 = dims_product(y, self.width);
        (row + x as u64) as usize
    }

    /// The pixel at row-major position `p`.
    pub fn pixel_at(&self, p: usize) -> (px: Rgba)
        requires
            self@.wf(),
            p < self@.npix(),
        ensures
            px == self@.at(p as int),
    {
        let len = self.data.len();
        Rgba { r: self.data[4 * p], g: self.data[4 * p + 1], b: self.data[4 * p + 2], a: self.data[4 * p + 3] }
    }

    /// The pixel in column `x` of row `y`.
    pub fn get_pixel(&self, x: u32, y: u32) -> (px: Rgba)
        requires
            self@.wf(),
            self@.in_bounds(x as int, y as int),
        ensures
            px == self@.pixel(x as int, y as int),
    {
        let p = self.position(x, y);
        self.pixel_at(p)
    }

    /// Replaces the pixel in column `x` of row `y`.
    pub fn put_pixel(&mut self, x: u32, y: u32, px: Rgba)
        requires
            old(self)@.wf(),
            old(self)@.in_bounds(x as int, y as int),
        ensures
            final(self)@.wf(),
            final(self)@.width == old(self)@.width,
            final(self)@.height == old(self)@.height,
            final(self)@.pixel(x as int, y as int) == px,
            forall|p: int|
                0 <= p < old(self)@.npix() && p != y * old(self)@.width + x ==> #[trigger] final(self)@.at(p)
                    == old(self)@.at(p),
    {
        let p = self.position(x, y);
        let len = self.data.len();
        self.data.set(4 * p, px.r);
        self.data.set(4 * p + 1, px.g);
        self.data.set(4 * p + 2, px.b);
        self.data.set(4 * p + 3, px.a);
    }
}


/// The mathematical content of a grey-scale image: its size and one byte per pixel.
pub struct GreyRaster {
    pub width: nat,
    pub height: nat,
    pub bytes: Seq<u8>,
}

impl GreyRaster {
    pub open spec fn wf(self) -> bool {
        &&& self.width <= u32::MAX
        &&& self.height <= u32::MAX
        &&& self.bytes.len() == self.width * self.height
    }

    /// The value in column `x` of row `y`.
    pub open spec fn value(self, x: int, y: int) -> u8 {
        self.bytes[y * self.width + x]
    }
}

/// A grey-scale image, one byte per pixel, row-major.
pub struct LumaImage {
    width: u32,
    height: u32,
    data: Vec<u8>,
}

impl View for LumaImage {
    type V = GreyRaster;

    closed spec fn view(&self) -> GreyRaster {
        GreyRaster { width: self.width as nat, height: self.height as nat, bytes: self.data@ }
    }
}

impl LumaImage {
    /// Builds a grey-scale image from raw bytes; `None` unless there is exactly one byte per pixel.
    pub fn from_raw(width: u32, height: u32, data: Vec<u8>) -> (img: Option<LumaImage>)
        ensures
            img is Some <==> data@.len() == width * height,
            img matches Some(i) ==> i@ == (GreyRaster {
                width: width as nat,
                height: height as nat,
                bytes: data@,
            }),
    {
        let n: u64 = dims_product(width, height);
        if data.len() as u64 != n {
            return None;
        }
        Some(LumaImage { width, height, data })
    }

    pub fn width(&self) -> (w: u32)
        ensures
            w == self@.width,
    {
        self.width
    }

    pub fn height(&self) -> (h: u32)
        ensures
            h == self@.height,
    {
        self.height
    }

    /// The value in column `x` of row `y`.
    pub fn get(&self, x: u32, y: u32) -> (v: u8)
        requires
            self@.wf(),
            x < self@.width,
            y < self@.height,
        ensures
            v == self@.value(x as int, y as int),
    {
        proof {
            lemma_pixel_position(self@.width, self@.height, x as int, y as int);
        }
        let len = self.data.len();
        let row: u64 = dims_product(y, self.width);
        self.data[(row + x as u64) as usize]
    }
}

} // verus!
