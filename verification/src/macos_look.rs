//! The macOS look baked into `icon.icns`.
//!
//! In development builds the Dock shows `icons/icon.icns` as it is, without the
//! rounded plate the system adds to packaged apps. The plate is therefore drawn into
//! the icon beforehand: the full-bleed artwork is scaled to the 824 by 824 plate of the
//! Apple icon grid, centred on the 1024 by 1024 canvas, cut to the plate's rounded
//! shape and laid over the system's drop shadow.

use vstd::prelude::*;
use crate::image_ops::{decode_grey, decoded_grey, is_resample_of, overlay, overlay_of, resize, under_rect};
use crate::raster::{GreyRaster, LumaImage, Raster, Rgba, RgbaImage};
use crate::text::{append, decimal, decimal_string, owned};

verus! {

/// The side of the plate.
pub const PLATE: u32 = 824;

/// The offset of the plate from the canvas edges: (1024 - 824) / 2.
pub const PLATE_OFFSET: u32 = 100;

/// A fully transparent black pixel.
pub open spec fn clear() -> Rgba {
    Rgba { r: 0, g: 0, b: 0, a: 0 }
}

/// `layer` is the shadow layer: black, with the alpha of each pixel taken from `shadow`.
pub open spec fn is_shadow_layer(layer: Raster, shadow: GreyRaster) -> bool {
    &&& layer.width == 1024
    &&& layer.height == 1024
    &&& forall|x: int, y: int|
        #![trigger layer.pixel(x, y)]
        layer.in_bounds(x, y) ==> layer.pixel(x, y) == (Rgba { r: 0, g: 0, b: 0, a: shadow.value(x, y) })
}

/// The artwork `scaled` to the plate, centred on a transparent canvas.
pub open spec fn plate_base(scaled: Raster) -> Raster {
    overlay_of(
        Raster { width: 1024, height: 1024, bytes: crate::raster::filled_bytes(1024 * 1024, clear()) },
        scaled,
        100,
        100,
    )
}

/// `px` with its alpha scaled by `m` out of 255, rounded down.
pub open spec fn masked(px: Rgba, m: u8) -> Rgba {
    Rgba { r: px.r, g: px.g, b: px.b, a: ((px.a as int * m as int) / 255) as u8 }
}

/// `plate` is [`plate_base`] of `art` resampled to the 824 by 824 plate, cut to the plate
/// shape `mask`.
pub open spec fn is_masked_plate(plate: Raster, art: Raster, mask: GreyRaster) -> bool {
    &&& plate.width == 1024
    &&& plate.height == 1024
    &&& exists|scaled: Raster|
        #![trigger is_resample_of(scaled, art, 824, 824)]
        is_resample_of(scaled, art, 824, 824) && forall|x: int, y: int|
            #![trigger plate.pixel(x, y)]
            plate.in_bounds(x, y) ==> plate.pixel(x, y) == masked(plate_base(scaled).pixel(x, y), mask.value(x, y))
}

/// Outside the 824 by 824 plate square, `look` shows only the shadow: black, with the
/// shadow's alpha.
pub open spec fn shadow_outside_plate(look: Raster, shadow: GreyRaster) -> bool {
    forall|x: int, y: int|
        #![trigger look.pixel(x, y)]
        look.in_bounds(x, y) && !under_rect(x, y, 100, 100, 824, 824) ==> look.pixel(x, y) == (Rgba {
            r: 0,
            g: 0,
            b: 0,
            a: shadow.value(x, y),
        })
}

/// `look` is the macOS look of `art`: the masked plate laid over the shadow layer.
pub open spec fn is_macos_look(look: Raster, art: Raster, mask: GreyRaster, shadow: GreyRaster) -> bool {
    exists|layer: Raster, plate: Raster|
        #![trigger is_shadow_layer(layer, shadow), is_masked_plate(plate, art, mask)]
        is_shadow_layer(layer, shadow) && is_masked_plate(plate, art, mask) && look == overlay_of(layer, plate, 0, 0)
}

/// The shape and shadow images cover the canvas.
pub open spec fn covers_canvas(g: GreyRaster) -> bool {
    g.wf() && g.width >= 1024 && g.height >= 1024
}

/// Black, with the alpha of each pixel taken from `shadow`.
fn shadow_layer(shadow: &LumaImage) -> (layer: RgbaImage)
    requires
        covers_canvas(shadow@),
    ensures
        layer@.wf(),
        is_shadow_layer(layer@, shadow@),
{
    let mut data: Vec<u8> = Vec::new();
    let mut x: u32 = 0;
    let mut y: u32 = 0;
    let mut p: usize = 0;
    while p < 1024 * 1024
        invariant
            covers_canvas(shadow@),
            p <= 1024 * 1024,
            p == y * 1024 + x,
            x < 1024,
            p < 1024 * 1024 ==> y < 1024,
            data@.len() == 4 * p,
            forall|xx: int, yy: int|
                0 <= xx < 1024 && 0 <= yy < 1024 && yy * 1024 + xx < p ==> #[trigger] (Raster {
                    width: 1024,
                    height: 1024,
                    bytes: data@,
                }).pixel(xx, yy) == (Rgba { r: 0, g: 0, b: 0, a: shadow@.value(xx, yy) }),
        decreases 1024 * 1024 - p,
    {
        let ghost old_data = data@;
        let a = shadow.get(x, y);
        data.push(0);
        data.push(0);
        data.push(0);
        data.push(a);
        proof {
            assert forall|xx: int, yy: int|
                0 <= xx < 1024 && 0 <= yy < 1024 && yy * 1024 + xx < p + 1 implies #[trigger] (Raster {
                    width: 1024,
                    height: 1024,
                    bytes: data@,
                }).pixel(xx, yy) == (Rgba { r: 0, g: 0, b: 0, a: shadow@.value(xx, yy) }) by {
                if yy * 1024 + xx == p {
                    crate::raster::lemma_position_unique(1024, xx, yy, x as int, y as int);
                } else {
                    assert((Raster { width: 1024, height: 1024, bytes: old_data }).pixel(xx, yy) == (Rgba {
                        r: 0,
                        g: 0,
                        b: 0,
                        a: shadow@.value(xx, yy),
                    }));
                }
            }
        }
        p = p + 1;
        if x == 1023 {
            x = 0;
            y = y + 1;
        } else {
            x = x + 1;
        }
    }
    match RgbaImage::from_raw(1024, 1024, data) {
        Some(layer) => layer,
        None => {
            assert(false);
            RgbaImage::from_pixel(0, 0, Rgba { r: 0, g: 0, b: 0, a: 0 })
        },
    }
}

/// Scales the alpha of every pixel by the plate shape `mask`.
fn apply_mask(base: &RgbaImage, mask: &LumaImage) -> (plate: RgbaImage)
    requires
        base@.wf(),
        base@.width == 1024,
        base@.height == 1024,
        covers_canvas(mask@),
    ensures
        plate@.wf(),
        plate@.width == 1024,
        plate@.height == 1024,
        forall|x: int, y: int|
            #![trigger plate@.pixel(x, y)]
            plate@.in_bounds(x, y) ==> plate@.pixel(x, y) == masked(base@.pixel(x, y), mask@.value(x, y)),
{
    let mut data: Vec<u8> = Vec::new();
    let mut x: u32 = 0;
    let mut y: u32 = 0;
    let mut p: usize = 0;
    while p < 1024 * 1024
        invariant
            base@.wf(),
            base@.width == 1024,
            base@.height == 1024,
            covers_canvas(mask@),
            p <= 1024 * 1024,
            p == y * 1024 + x,
            x < 1024,
            p < 1024 * 1024 ==> y < 1024,
            data@.len() == 4 * p,
            forall|xx: int, yy: int|
                0 <= xx < 1024 && 0 <= yy < 1024 && yy * 1024 + xx < p ==> #[trigger] (Raster {
                    width: 1024,
                    height: 1024,
                    bytes: data@,
                }).pixel(xx, yy) == masked(base@.pixel(xx, yy), mask@.value(xx, yy)),
        decreases 1024 * 1024 - p,
    {
        let ghost old_data = data@;
        let px = base.get_pixel(x, y);
        let m = mask.get(x, y);
        assert((px.a as int) * (m as int) <= 255 * 255) by (nonlinear_arith)
            requires
                px.a <= 255,
                m <= 255,
        ;
        let a: u32 = ((px.a as u32) * (m as u32)) / 255;
        data.push(px.r);
        data.push(px.g);
        data.push(px.b);
        data.push(a as u8);
        proof {
            assert forall|xx: int, yy: int|
                0 <= xx < 1024 && 0 <= yy < 1024 && yy * 1024 + xx < p + 1 implies #[trigger] (Raster {
                    width: 1024,
                    height: 1024,
                    bytes: data@,
                }).pixel(xx, yy) == masked(base@.pixel(xx, yy), mask@.value(xx, yy)) by {
                if yy * 1024 + xx == p {
                    crate::raster::lemma_position_unique(1024, xx, yy, x as int, y as int);
                } else {
                    assert((Raster { width: 1024, height: 1024, bytes: old_data }).pixel(xx, yy) == masked(
                        base@.pixel(xx, yy),
                        mask@.value(xx, yy),
                    ));
                }
            }
        }
        p = p + 1;
        if x == 1023 {
            x = 0;
            y = y + 1;
        } else {
            x = x + 1;
        }
    }
    match RgbaImage::from_raw(1024, 1024, data) {
        Some(plate) => plate,
        None => {
            assert(false);
            RgbaImage::from_pixel(0, 0, Rgba { r: 0, g: 0, b: 0, a: 0 })
        },
    }
}

/// Composes the macOS look of a full-bleed canvas from the plate shape `mask` and the
/// drop `shadow`: outside the plate square only the shadow shows.
pub fn compose_macos_look(full_bleed: &RgbaImage, mask: &LumaImage, shadow: &LumaImage) -> (look: RgbaImage)
    requires
        full_bleed@.wf(),
        covers_canvas(mask@),
        covers_canvas(shadow@),
    ensures
        look@.wf(),
        look@.width == 1024,
        look@.height == 1024,
        is_macos_look(look@, full_bleed@, mask@, shadow@),
        forall|x: int, y: int|
            #![trigger look@.pixel(x, y)]
            look@.in_bounds(x, y) && !under_rect(x, y, 100, 100, 824, 824) ==> look@.pixel(x, y) == (Rgba {
                r: 0,
                g: 0,
                b: 0,
                a: shadow@.value(x, y),
            }),
{
    let layer = shadow_layer(shadow);
    let art = resize(full_bleed, PLATE, PLATE);
    let canvas = RgbaImage::from_pixel(1024, 1024, Rgba { r: 0, g: 0, b: 0, a: 0 });
    let ghost canvas0 = canvas@;
    let base = overlay(canvas, &art, PLATE_OFFSET as i64, PLATE_OFFSET as i64);
    let plate = apply_mask(&base, mask);
    let ghost layer0 = layer@;
    let look = overlay(layer, &plate, 0, 0);
    proof {
        assert(base@ == plate_base(art@));
        assert(is_resample_of(art@, full_bleed@, 824, 824));
        assert(is_masked_plate(plate@, full_bleed@, mask@));
        assert forall|x: int, y: int|
            #![trigger look@.pixel(x, y)]
            look@.in_bounds(x, y) && !under_rect(x, y, 100, 100, 824, 824) implies look@.pixel(x, y) == (Rgba {
                r: 0,
                g: 0,
                b: 0,
                a: shadow@.value(x, y),
            }) by {
            crate::raster::lemma_pixel_position(1024, 1024, x, y);
            assert(canvas0.in_bounds(x, y));
            assert(crate::image_ops::overlay_pixel_rule(canvas0, base@, art@, 100, 100, x, y));
            assert(canvas0.at(y * 1024 + x) == clear());
            assert(canvas0.pixel(x, y) == clear());
            assert(base@.pixel(x, y) == clear());
            assert(plate@.in_bounds(x, y));
            assert(plate@.pixel(x, y) == masked(base@.pixel(x, y), mask@.value(x, y)));
            let mv = mask@.value(x, y);
            assert(((0int * mv as int) / 255) as u8 == 0u8) by (nonlinear_arith);
            assert(plate@.pixel(x, y).a == 0);
            assert(layer0.in_bounds(x, y));
            assert(crate::image_ops::overlay_pixel_rule(layer0, look@, plate@, 0, 0, x, y));
            assert(under_rect(x, y, 0, 0, plate@.width as int, plate@.height as int));
            assert(plate@.pixel(x - 0, y - 0).a == 0);
            assert(look@.pixel(x, y) == layer0.pixel(x, y));
            assert(layer0.pixel(x, y) == (Rgba { r: 0, g: 0, b: 0, a: shadow@.value(x, y) }));
        }
    }
    look
}

/// `s` begins with `prefix`.
pub open spec fn starts_with(s: Seq<char>, prefix: Seq<char>) -> bool {
    prefix.len() <= s.len() && s.take(prefix.len() as int) == prefix
}

/// Decodes the plate shape `mask_png` and the drop shadow `shadow_png` (PNG images of at
/// least 1024 by 1024) and composes the macOS look of `full_bleed` from them.
pub fn bake_macos_look(full_bleed: &RgbaImage, mask_png: &[u8], shadow_png: &[u8]) -> (res: Result<RgbaImage, String>)
    requires
        full_bleed@.wf(),
        decoded_grey(mask_png@) matches Some(m) ==> covers_canvas(m),
        decoded_grey(shadow_png@) matches Some(s) ==> covers_canvas(s),
    ensures
        decoded_grey(mask_png@) is None ==> (res matches Err(e) && starts_with(e@, "读取板形资源失败: "@)),
        decoded_grey(mask_png@) is Some && decoded_grey(shadow_png@) is None ==> (res matches Err(e)
            && starts_with(e@, "读取投影资源失败: "@)),
        decoded_grey(mask_png@) is Some && decoded_grey(shadow_png@) is Some ==> (res matches Ok(look)
            && look@.wf() && look@.width == 1024 && look@.height == 1024 && is_macos_look(
            look@,
            full_bleed@,
            decoded_grey(mask_png@)->0,
            decoded_grey(shadow_png@)->0,
        ) && shadow_outside_plate(look@, decoded_grey(shadow_png@)->0)),
{
    let mask = match decode_grey(mask_png) {
        Ok(m) => m,
        Err(e) => {
            let mut msg = owned("读取板形资源失败: ");
            let ghost prefix = msg@;
            append(&mut msg, e.as_str());
            assert(msg@.take(prefix.len() as int) =~= prefix);
            return Err(msg);
        },
    };
    let shadow = match decode_grey(shadow_png) {
        Ok(s) => s,
        Err(e) => {
            let mut msg = owned("读取投影资源失败: ");
            let ghost prefix = msg@;
            append(&mut msg, e.as_str());
            assert(msg@.take(prefix.len() as int) =~= prefix);
            return Err(msg);
        },
    };
    Ok(compose_macos_look(full_bleed, &mask, &shadow))
}

/// [`bake_macos_look`] for any asset bytes: `None` when an asset decodes to an image
/// smaller than the canvas, which the look cannot be composed from.
pub fn try_bake_macos_look(full_bleed: &RgbaImage, mask_png: &[u8], shadow_png: &[u8]) -> (res: Option<Result<RgbaImage, String>>)
    requires
        full_bleed@.wf(),
    ensures
        res is None <==> ((decoded_grey(mask_png@) matches Some(m) && !covers_canvas(m)) || (decoded_grey(
            shadow_png@,
        ) matches Some(s) && !covers_canvas(s))),
        res matches Some(r) ==> (decoded_grey(mask_png@) is None ==> (r matches Err(e) && starts_with(
            e@,
            "读取板形资源失败: "@,
        ))),
        res matches Some(r) ==> (decoded_grey(mask_png@) is Some && decoded_grey(shadow_png@) is None ==> (
        r matches Err(e) && starts_with(e@, "读取投影资源失败: "@))),
        res matches Some(r) ==> (decoded_grey(mask_png@) is Some && decoded_grey(shadow_png@) is Some ==> (
        r matches Ok(look) && look@.wf() && look@.width == 1024 && look@.height == 1024 && is_macos_look(
            look@,
            full_bleed@,
            decoded_grey(mask_png@)->0,
            decoded_grey(shadow_png@)->0,
        ) && shadow_outside_plate(look@, decoded_grey(shadow_png@)->0))),
{
    if let Ok(m) = decode_grey(mask_png) {
        if m.width() < 1024 || m.height() < 1024 {
            return None;
        }
    }
    if let Ok(s) = decode_grey(shadow_png) {
        if s.width() < 1024 || s.height() < 1024 {
            return None;
        }
    }
    Some(bake_macos_look(full_bleed, mask_png, shadow_png))
}

/// One image of an `.iconset` directory.
pub struct IconsetEntry {
    pub file_name: String,
    pub size: u32,
}

/// The point sizes of an `.iconset`.
pub open spec fn iconset_base(i: int) -> nat {
    if i == 0 {
        16
    } else if i == 1 {
        32
    } else if i == 2 {
        128
    } else if i == 3 {
        256
    } else {
        512
    }
}

/// The file name of the image of point size `base` at `scale` (1 or 2):
/// `icon_{base}x{base}.png`, with `@2x` before `.png` at scale 2.
pub open spec fn iconset_name(base: nat, scale: nat) -> Seq<char> {
    "icon_"@ + decimal(base) + "x"@ + decimal(base) + if scale == 2 {
        "@2x.png"@
    } else {
        ".png"@
    }
}

/// The ten images of an `.iconset`: each point size of [`iconset_base`] at scales 1 and 2,
/// in that order, each as large in pixels as its point size times its scale.
pub open spec fn is_iconset(entries: Seq<IconsetEntry>) -> bool {
    &&& entries.len() == 10
    &&& forall|i: int|
        #![trigger entries[i]]
        0 <= i < 10 ==> {
            let base = iconset_base(i / 2);
            let scale = (i % 2 + 1) as nat;
            &&& entries[i].file_name@ == iconset_name(base, scale)
            &&& entries[i].size == base * scale
        }
}

fn iconset_base_exec(i: usize) -> (b: u32)
    requires
        i < 5,
    ensures
        b == iconset_base(i as int),
{
    if i == 0 {
        16
    } else if i == 1 {
        32
    } else if i == 2 {
        128
    } else if i == 3 {
        256
    } else {
        512
    }
}

/// The images `icon.icns` is built from (see [`is_iconset`]).
pub fn iconset_entries() -> (entries: Vec<IconsetEntry>)
    ensures
        is_iconset(entries@),
{
    let mut entries: Vec<IconsetEntry> = Vec::new();
    let mut i: usize = 0;
    while i < 10
        invariant
            i <= 10,
            i % 2 == 0,
            entries@.len() == i,
            forall|j: int|
                #![trigger entries@[j]]
                0 <= j < i ==> {
                    let base = iconset_base(j / 2);
                    let scale = (j % 2 + 1) as nat;
                    &&& entries@[j].file_name@ == iconset_name(base, scale)
                    &&& entries@[j].size == base * scale
                },
        decreases 10 - i,
    {
        let base = iconset_base_exec(i / 2);
        let digits = decimal_string(base);
        let mut one = owned("icon_");
        append(&mut one, digits.as_str());
        append(&mut one, "x");
        append(&mut one, digits.as_str());
        let mut two = one.clone();
        append(&mut one, ".png");
        append(&mut two, "@2x.png");
        let ghost old_entries = entries@;
        entries.push(IconsetEntry { file_name: one, size: base });
        entries.push(IconsetEntry { file_name: two, size: base * 2 });
        proof {
            assert forall|j: int| 0 <= j < i implies #[trigger] entries@[j] == old_entries[j] by {}
            assert(entries@[i as int].size == iconset_base(i as int / 2) * 1);
            assert(entries@[i as int + 1].size == iconset_base((i as int + 1) / 2) * 2);
            assert((i as int) / 2 == (i as int + 1) / 2);
            assert((i as int + 1) % 2 == 1);
            assert(entries@[i as int].file_name@ == iconset_name(iconset_base(i as int / 2), 1));
            assert(entries@[i as int + 1].file_name@ == iconset_name(iconset_base((i as int + 1) / 2), 2));
            assert((i as int + 2) % 2 == 0);
        }
        i = i + 2;
    }
    entries
}

} // verus!
