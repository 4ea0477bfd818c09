//! Properties that relate the operations of the library to one another.

use vstd::prelude::*;
use crate::full_bleed::{ceil_div, cover_note, cover_size, is_full_bleed_of, is_plate_canvas, max_of, min_of, plate_size, round_div, CANVAS};
use crate::image_ops::under_rect;
use crate::pixels::{flatten_pixel, is_crop_of};
use crate::raster::{Raster, Rgba};
use crate::shell::{dev_command, dev_script_of, is_nvm_command, is_tauri_dev, script_is_tauri_dev, scripts_of};
use crate::workflow::runs_in_terminal;
use crate::json::{has_key, json_get, Json};
use crate::text::{contains, occurs_at};
use crate::image_ops::is_resample_of;
use crate::macos_look::{is_masked_plate, plate_base};
use crate::pixels::{bucket_count, bucket_key, bucket_sum, dominant_color_of, opaque_upto, OPAQUE};
use crate::raster::channel_of;
use crate::raster::GreyRaster;
use crate::replace::icon_command;
use crate::shell::{build_command, combined_output, quote_escaped};

verus! {

/// Flattening a flattened pixel changes nothing: flattening is idempotent.
pub proof fn law_flatten_idempotent(px: Rgba, bg: Rgba)
    ensures
        flatten_pixel(flatten_pixel(px, bg), bg) == flatten_pixel(px, bg),
        flatten_pixel(px, bg).a == 255,
{
}

/// The artwork of the plate branch is at most 942 pixels a side.
pub proof fn lemma_plate_size_bounds(w: int, h: int)
    requires
        w >= 0,
        h >= 0,
    ensures
        1 <= plate_size(w, h).0 <= 942,
        1 <= plate_size(w, h).1 <= 942,
{
    if !(w == 0 && h == 0) {
        let m = max_of(w, h);
        assert(round_div(w * 942, m) <= 942) by (nonlinear_arith)
            requires
                0 <= w <= m,
                m > 0,
        ;
        assert(round_div(h * 942, m) <= 942) by (nonlinear_arith)
            requires
                0 <= h <= m,
                m > 0,
        ;
    }
}

/// On a plate canvas the band of 41 pixels along every edge lies outside the artwork,
/// so it is all the plate colour: for instance the pixels at (2, 2) and at (1021, 1021)
/// are equal.
pub proof fn law_plate_border_is_uniform(canvas: Raster, note: Seq<char>, img: Raster)
    requires
        is_full_bleed_of(canvas, note, img),
        note != cover_note(),
        canvas.width == CANVAS,
        canvas.height == CANVAS,
    ensures
        forall|x: int, y: int|
            #![trigger canvas.pixel(x, y)]
            canvas.in_bounds(x, y) && (x < 41 || x >= 983 || y < 41 || y >= 983) ==> canvas.pixel(x, y)
                == canvas.pixel(0, 0),
{
    let (x0, y0, bw, bh, art) = choose|x0: int, y0: int, bw: int, bh: int, art: Raster|
        #![trigger crate::full_bleed::reported_bbox(img, x0, y0, bw, bh), art.wf()]
        {
            let (cx, cy, cw, ch) = crate::pixels::clamped_rect(img, x0, y0, bw, bh);
            &&& crate::full_bleed::reported_bbox(img, x0, y0, bw, bh)
            &&& art.wf()
            &&& is_crop_of(art, img, cx, cy, cw, ch)
            &&& if crate::full_bleed::prefers_cover(
                bw,
                bh,
                crate::pixels::opaque_total(art) as int,
                art.npix() as int,
            ) {
                crate::full_bleed::is_cover_canvas(canvas, art) && note == cover_note()
            } else {
                is_plate_canvas(canvas, art, crate::pixels::dominant_color_of(art)) && note
                    == crate::full_bleed::plate_note(crate::pixels::dominant_color_of(art))
            }
        };
    let bg = crate::pixels::dominant_color_of(art);
    let (nw, nh) = plate_size(art.width as int, art.height as int);
    lemma_plate_size_bounds(art.width as int, art.height as int);
    assert(is_plate_canvas(canvas, art, bg));
    assert(!under_rect(0, 0, (1024 - nw) / 2, (1024 - nh) / 2, nw, nh));
    assert(canvas.pixel(0, 0) == flatten_pixel(bg, bg));
    assert forall|x: int, y: int|
        #![trigger canvas.pixel(x, y)]
        canvas.in_bounds(x, y) && (x < 41 || x >= 983 || y < 41 || y >= 983) implies canvas.pixel(x, y)
            == canvas.pixel(0, 0) by {
        assert(!under_rect(x, y, (1024 - nw) / 2, (1024 - nh) / 2, nw, nh));
    }
}

/// A project with a `tauri:dev` or `tauri` script, with a `dev` script that starts the
/// Tauri development shell, or with no usable `package.json`, is run in development in a
/// Terminal window.
pub proof fn law_tauri_dev_projects_use_terminal(package: Option<Json>)
    requires
        match scripts_of(package) {
            Some(s) => has_key(s, "tauri:dev"@) || has_key(s, "tauri"@) || script_is_tauri_dev(json_get(s, "dev"@)),
            None => true,
        },
    ensures
        runs_in_terminal(package),
{
    reveal_strlit("npm run tauri:dev");
    reveal_strlit("tauri:dev");
    reveal_strlit("npm run tauri -- dev");
    reveal_strlit("tauri -- dev");
    reveal_strlit("npx tauri dev");
    reveal_strlit("tauri dev");
    let cmd = dev_command(package);
    match scripts_of(package) {
        Some(s) => {
            if has_key(s, "tauri:dev"@) {
                assert("npm run tauri:dev"@.subrange(8, 17) =~= "tauri:dev"@);
                assert(occurs_at(cmd, "tauri:dev"@, 8));
            } else if has_key(s, "tauri"@) {
                assert("npm run tauri -- dev"@.subrange(8, 20) =~= "tauri -- dev"@);
                assert(occurs_at(cmd, "tauri -- dev"@, 8));
            } else {
                assert(script_is_tauri_dev(dev_script_of(package)));
            }
        },
        None => {
            assert("npx tauri dev"@.subrange(4, 13) =~= "tauri dev"@);
            assert(occurs_at(cmd, "tauri dev"@, 4));
        },
    }
}

/// A project whose `dev` script does not start Tauri, and that has no `tauri:dev` or
/// `tauri` script, runs `npm run dev` in the background with its output streamed.
pub proof fn law_plain_dev_script_runs_in_background(package: Option<Json>)
    requires
        scripts_of(package) matches Some(s) && !has_key(s, "tauri:dev"@) && !has_key(s, "tauri"@) && has_key(
            s,
            "dev"@,
        ) && !script_is_tauri_dev(json_get(s, "dev"@)),
    ensures
        dev_command(package) == "npm run dev"@,
        !runs_in_terminal(package),
{
    reveal_strlit("npm run dev");
    reveal_strlit("tauri:dev");
    reveal_strlit("tauri dev");
    reveal_strlit("tauri -- dev");
    reveal_strlit("cargo tauri dev");
    reveal_strlit("pnpm tauri dev");
    let cmd = "npm run dev"@;
    assert forall|i: int| !#[trigger] occurs_at(cmd, "tauri:dev"@, i) by {
        if occurs_at(cmd, "tauri:dev"@, i) {
            assert(cmd.subrange(i, i + 9)[0] == 't');
        }
    }
    assert forall|i: int| !#[trigger] occurs_at(cmd, "tauri dev"@, i) by {
        if occurs_at(cmd, "tauri dev"@, i) {
            assert(cmd.subrange(i, i + 9)[0] == 't');
        }
    }
    assert forall|i: int| !#[trigger] occurs_at(cmd, "tauri -- dev"@, i) by {}
    assert forall|i: int| !#[trigger] occurs_at(cmd, "cargo tauri dev"@, i) by {}
    assert forall|i: int| !#[trigger] occurs_at(cmd, "pnpm tauri dev"@, i) by {}
    assert(!is_tauri_dev(cmd));
}

/// Whatever Node.js set-up precedes it, the command runs last: the line ends with it.
pub proof fn law_nvm_runs_command_last(out: Seq<char>, cmd: Seq<char>, home: Seq<char>, versions: Seq<crate::shell::NodeVersion>)
    requires
        is_nvm_command(out, cmd, home, versions),
    ensures
        cmd.len() <= out.len(),
        out.skip(out.len() - cmd.len()) == cmd,
{
    let kept = crate::shell::pnpm_versions(versions);
    if kept.len() == 0 {
        let pre = "[ -s \"/opt/homebrew/opt/nvm/nvm.sh\" ] && . \"/opt/homebrew/opt/nvm/nvm.sh\"; \\\n[ -s \""@ + home
            + "/.nvm/nvm.sh\" ] && . \""@ + home + "/.nvm/nvm.sh\"; \\\n"@;
        assert(out == pre + cmd);
        assert(out.skip(out.len() - cmd.len()) =~= cmd);
    } else {
        let order = choose|order: Seq<int>|
            #![trigger crate::ordering::is_stable_order(crate::shell::version_names(kept), order, true)]
            crate::ordering::is_stable_order(crate::shell::version_names(kept), order, true) && out
                == "export PATH=\""@ + crate::shell::join(crate::shell::bins_in(kept, order), ":"@)
                + ":$PATH\"; "@ + cmd;
        let pre = "export PATH=\""@ + crate::shell::join(crate::shell::bins_in(kept, order), ":"@)
            + ":$PATH\"; "@;
        assert(out == pre + cmd);
        assert(out.skip(out.len() - cmd.len()) =~= cmd);
    }
}

/// `round_div(a, b)` is `a / b` rounded: twice it, times `b`, is within `b` of `2 * a`.
proof fn lemma_round_div_bounds(a: int, b: int)
    requires
        a >= 0,
        b > 0,
    ensures
        2 * b * round_div(a, b) <= 2 * a + b,
        2 * a + b < 2 * b * (round_div(a, b) + 1),
        round_div(a, b) >= 0,
{
    vstd::arithmetic::div_mod::lemma_fundamental_div_mod(2 * a + b, 2 * b);
    vstd::arithmetic::div_mod::lemma_mod_bound(2 * a + b, 2 * b);
    vstd::arithmetic::div_mod::lemma_div_pos_is_pos(2 * a + b, 2 * b);
    let q = round_div(a, b);
    assert((2 * a + b) == (2 * b) * q + (2 * a + b) % (2 * b));
    assert(2 * b * q <= 2 * a + b) by (nonlinear_arith)
        requires
            (2 * a + b) == (2 * b) * q + (2 * a + b) % (2 * b),
            (2 * a + b) % (2 * b) >= 0,
    ;
    assert(2 * a + b < 2 * b * (q + 1)) by (nonlinear_arith)
        requires
            (2 * a + b) == (2 * b) * q + (2 * a + b) % (2 * b),
            (2 * a + b) % (2 * b) < 2 * b,
    ;
}

/// On the plate the artwork keeps its shape: its longer side becomes 942 pixels, the
/// side that is longer stays longer, and each side is scaled by 942 over the longer side,
/// rounded (`(2 * nw - 1) * m <= 2 * 942 * w < (2 * nw + 1) * m`), at least one pixel.
pub proof fn law_plate_keeps_aspect(w: int, h: int)
    requires
        w >= 0,
        h >= 0,
        w > 0 || h > 0,
    ensures
        max_of(plate_size(w, h).0, plate_size(w, h).1) == 942,
        w <= h ==> plate_size(w, h).0 <= plate_size(w, h).1,
        h <= w ==> plate_size(w, h).1 <= plate_size(w, h).0,
        plate_size(w, h).0 >= 1,
        plate_size(w, h).1 >= 1,
        2 * 942 * w < (2 * plate_size(w, h).0 + 1) * max_of(w, h),
        plate_size(w, h).0 > 1 ==> (2 * plate_size(w, h).0 - 1) * max_of(w, h) <= 2 * 942 * w,
        2 * 942 * h < (2 * plate_size(w, h).1 + 1) * max_of(w, h),
        plate_size(w, h).1 > 1 ==> (2 * plate_size(w, h).1 - 1) * max_of(w, h) <= 2 * 942 * h,
{
    let m = max_of(w, h);
    let (a, b) = (round_div(w * 942, m), round_div(h * 942, m));
    lemma_round_div_bounds(w * 942, m);
    lemma_round_div_bounds(h * 942, m);
    lemma_round_div_bounds(m * 942, m);
    let c = round_div(m * 942, m);
    assert(c == 942) by (nonlinear_arith)
        requires
            m > 0,
            2 * m * c <= 2 * (m * 942) + m,
            2 * (m * 942) + m < 2 * m * (c + 1),
    ;
    if w <= h {
        vstd::arithmetic::mul::lemma_mul_inequality(w, h, 942);
        vstd::arithmetic::div_mod::lemma_div_is_ordered(2 * (w * 942) + m, 2 * (h * 942) + m, 2 * m);
    }
    if h <= w {
        vstd::arithmetic::mul::lemma_mul_inequality(h, w, 942);
        vstd::arithmetic::div_mod::lemma_div_is_ordered(2 * (h * 942) + m, 2 * (w * 942) + m, 2 * m);
    }
    assert(2 * m * a <= 2 * (w * 942) + m && 2 * (w * 942) + m < 2 * m * (a + 1));
    assert(2 * m * b <= 2 * (h * 942) + m && 2 * (h * 942) + m < 2 * m * (b + 1));
    assert(2 * 942 * w < (2 * a + 1) * m) by (nonlinear_arith)
        requires
            2 * (w * 942) + m < 2 * m * (a + 1),
    ;
    assert((2 * a - 1) * m <= 2 * 942 * w) by (nonlinear_arith)
        requires
            2 * m * a <= 2 * (w * 942) + m,
    ;
    assert(2 * 942 * h < (2 * b + 1) * m) by (nonlinear_arith)
        requires
            2 * (h * 942) + m < 2 * m * (b + 1),
    ;
    assert((2 * b - 1) * m <= 2 * 942 * h) by (nonlinear_arith)
        requires
            2 * m * b <= 2 * (h * 942) + m,
    ;
    if a == 0 {
        assert(2 * 942 * w < 3 * m) by (nonlinear_arith)
            requires
                a == 0,
                2 * 942 * w < (2 * a + 1) * m,
                m > 0,
        ;
    }
    if b == 0 {
        assert(2 * 942 * h < 3 * m) by (nonlinear_arith)
            requires
                b == 0,
                2 * 942 * h < (2 * b + 1) * m,
                m > 0,
        ;
    }
}

/// Cutting the plate to its shape changes only alpha: at every position the masked plate
/// keeps the red, green and blue of the artwork resized to the plate and centred; its
/// alpha is at most the artwork's, unchanged where the shape is fully on (255) and zero
/// where it is off (0).
pub proof fn law_mask_changes_only_alpha(plate: Raster, art: Raster, mask: GreyRaster)
    requires
        is_masked_plate(plate, art, mask),
    ensures
        exists|scaled: Raster|
            #![trigger is_resample_of(scaled, art, 824, 824)]
            is_resample_of(scaled, art, 824, 824) && forall|x: int, y: int|
                #![trigger plate.pixel(x, y)]
                plate.in_bounds(x, y) ==> {
                    let under = plate_base(scaled).pixel(x, y);
                    &&& plate.pixel(x, y).r == under.r
                    &&& plate.pixel(x, y).g == under.g
                    &&& plate.pixel(x, y).b == under.b
                    &&& plate.pixel(x, y).a <= under.a
                    &&& mask.value(x, y) == 255 ==> plate.pixel(x, y).a == under.a
                    &&& mask.value(x, y) == 0 ==> plate.pixel(x, y).a == 0
                },
{
    let scaled = choose|scaled: Raster|
        #![trigger is_resample_of(scaled, art, 824, 824)]
        is_resample_of(scaled, art, 824, 824) && forall|x: int, y: int|
            #![trigger plate.pixel(x, y)]
            plate.in_bounds(x, y) ==> plate.pixel(x, y) == crate::macos_look::masked(
                plate_base(scaled).pixel(x, y),
                mask.value(x, y),
            );
    assert forall|x: int, y: int| #[trigger] plate.in_bounds(x, y) implies {
        let under = plate_base(scaled).pixel(x, y);
        &&& plate.pixel(x, y).r == under.r
        &&& plate.pixel(x, y).g == under.g
        &&& plate.pixel(x, y).b == under.b
        &&& plate.pixel(x, y).a <= under.a
        &&& mask.value(x, y) == 255 ==> plate.pixel(x, y).a == under.a
        &&& mask.value(x, y) == 0 ==> plate.pixel(x, y).a == 0
    } by {
        let under = plate_base(scaled).pixel(x, y);
        let m = mask.value(x, y);
        assert(plate.pixel(x, y) == crate::macos_look::masked(under, m));
        let ua = under.a as int;
        let mi = m as int;
        assert((ua * mi) / 255 <= ua) by (nonlinear_arith)
            requires
                0 <= ua <= 255,
                0 <= mi <= 255,
        ;
        assert((ua * mi) / 255 >= 0) by (nonlinear_arith)
            requires
                0 <= ua <= 255,
                0 <= mi <= 255,
        ;
        if mi == 255 {
            assert((ua * mi) / 255 == ua) by (nonlinear_arith)
                requires
                    mi == 255,
            ;
        }
    }
}

/// Escaping text for single quotes keeps everything but single quotes: text without a
/// `'` is left exactly as it is.
pub proof fn law_escape_keeps_text_without_quotes(s: Seq<char>)
    requires
        !s.contains('\''),
    ensures
        quote_escaped(s) == s,
    decreases s.len(),
{
    if s.len() > 0 {
        assert(!s.drop_last().contains('\'')) by {
            if s.drop_last().contains('\'') {
                let i = choose|i: int| 0 <= i < s.drop_last().len() && s.drop_last()[i] == '\'';
                assert(s[i] == '\'');
            }
        }
        law_escape_keeps_text_without_quotes(s.drop_last());
        assert(s.last() != '\'') by {
            assert(s[s.len() - 1] == s.last());
        }
        assert(s.drop_last().push(s.last()) =~= s);
        assert(seq![s.last()] + Seq::empty() =~= seq![s.last()]);
        assert(s.drop_last() + seq![s.last()] =~= s);
    }
}

/// Escaping works character by character: the escape of two texts joined is the two
/// escapes joined.
pub proof fn law_escape_is_piecewise(a: Seq<char>, b: Seq<char>)
    ensures
        quote_escaped(a + b) == quote_escaped(a) + quote_escaped(b),
    decreases b.len(),
{
    if b.len() == 0 {
        assert(a + b =~= a);
        assert(quote_escaped(a) + quote_escaped(b) =~= quote_escaped(a));
    } else {
        law_escape_is_piecewise(a, b.drop_last());
        assert((a + b).drop_last() =~= a + b.drop_last());
        assert((a + b).last() == b.last());
    }
}

/// The icon command of a path without a single quote holds the path verbatim between
/// the quotes.
pub proof fn law_icon_command_keeps_plain_paths(icon: Seq<char>, local_cli: bool)
    requires
        !icon.contains('\''),
    ensures
        icon_command(icon, local_cli) == if local_cli {
            "node_modules/.bin/tauri icon '"@ + icon + "'"@
        } else {
            "npx --yes @tauri-apps/cli@latest icon '"@ + icon + "'"@
        },
{
    law_escape_keeps_text_without_quotes(icon);
}

/// A project's own `tauri:build` script is used for building whatever other scripts it
/// has (on macOS with only the `.app` bundle).
pub proof fn law_tauri_build_script_wins(package: Option<Json>, macos: bool)
    requires
        scripts_of(package) matches Some(s) && has_key(s, "tauri:build"@),
    ensures
        build_command(package, macos) == if macos {
            "npm run tauri:build -- --bundles app"@
        } else {
            "npm run tauri:build"@
        },
{
}

/// A project's own `tauri:dev` script is used for development whatever other scripts it
/// has.
pub proof fn law_tauri_dev_script_wins(package: Option<Json>)
    requires
        scripts_of(package) matches Some(s) && has_key(s, "tauri:dev"@),
    ensures
        dev_command(package) == "npm run tauri:dev"@,
{
}

/// Colour buckets separate colours exactly by their channels quantised to sixteen
/// levels: two pixels share a bucket if and only if `r / 16`, `g / 16` and `b / 16` are
/// each equal; there are 4096 buckets.
pub proof fn law_buckets_separate_quantised_colours(p: Rgba, q: Rgba)
    ensures
        bucket_key(p) == bucket_key(q) <==> (p.r / 16 == q.r / 16 && p.g / 16 == q.g / 16 && p.b / 16
            == q.b / 16),
        0 <= bucket_key(p) < 4096,
{
    let (pr, pg, pb) = ((p.r / 16) as int, (p.g / 16) as int, (p.b / 16) as int);
    let (qr, qg, qb) = ((q.r / 16) as int, (q.g / 16) as int, (q.b / 16) as int);
    assert(0 <= pr < 16 && 0 <= pg < 16 && 0 <= pb < 16);
    assert(0 <= qr < 16 && 0 <= qg < 16 && 0 <= qb < 16);
    assert(pr * 256 + pg * 16 + pb == qr * 256 + qg * 16 + qb ==> pr == qr && pg == qg && pb == qb)
        by (nonlinear_arith)
        requires
            0 <= pr < 16,
            0 <= pg < 16,
            0 <= pb < 16,
            0 <= qr < 16,
            0 <= qg < 16,
            0 <= qb < 16,
    ;
    assert(0 <= pr * 256 + pg * 16 + pb < 4096) by (nonlinear_arith)
        requires
            0 <= pr < 16,
            0 <= pg < 16,
            0 <= pb < 16,
    ;
}

/// In the cover branch the artwork keeps its shape: its shorter side becomes 1024
/// pixels, the side that is longer stays at least as long, and each side is at least
/// 1024 and the smallest whole size not below the side scaled by 1024 over the shorter
/// side (`(nw - 1) * m < 1024 * w <= nw * m` where it exceeds 1024).
pub proof fn law_cover_keeps_aspect(w: int, h: int)
    requires
        w > 0,
        h > 0,
    ensures
        min_of(cover_size(w, h).0, cover_size(w, h).1) == 1024,
        w <= h ==> cover_size(w, h).0 <= cover_size(w, h).1,
        h <= w ==> cover_size(w, h).1 <= cover_size(w, h).0,
        cover_size(w, h).0 >= 1024,
        cover_size(w, h).1 >= 1024,
        1024 * w <= cover_size(w, h).0 * min_of(w, h),
        cover_size(w, h).0 > 1024 ==> (cover_size(w, h).0 - 1) * min_of(w, h) < 1024 * w,
        1024 * h <= cover_size(w, h).1 * min_of(w, h),
        cover_size(w, h).1 > 1024 ==> (cover_size(w, h).1 - 1) * min_of(w, h) < 1024 * h,
{
    let m = min_of(w, h);
    let (a, b) = (ceil_div(w * 1024, m), ceil_div(h * 1024, m));
    vstd::arithmetic::div_mod::lemma_fundamental_div_mod(w * 1024 + m - 1, m);
    vstd::arithmetic::div_mod::lemma_mod_bound(w * 1024 + m - 1, m);
    vstd::arithmetic::div_mod::lemma_fundamental_div_mod(h * 1024 + m - 1, m);
    vstd::arithmetic::div_mod::lemma_mod_bound(h * 1024 + m - 1, m);
    let (ra, rb) = ((w * 1024 + m - 1) % m, (h * 1024 + m - 1) % m);
    assert(1024 * w <= a * m && (a - 1) * m < 1024 * w) by (nonlinear_arith)
        requires
            w * 1024 + m - 1 == m * a + ra,
            0 <= ra < m,
    ;
    assert(1024 * h <= b * m && (b - 1) * m < 1024 * h) by (nonlinear_arith)
        requires
            h * 1024 + m - 1 == m * b + rb,
            0 <= rb < m,
    ;
    if w <= h {
        assert(a == 1024) by (nonlinear_arith)
            requires
                m == w,
                m > 0,
                1024 * w <= a * m,
                (a - 1) * m < 1024 * w,
        ;
        assert(a <= b) by (nonlinear_arith)
            requires
                w <= h,
                m > 0,
                1024 * h <= b * m,
                (a - 1) * m < 1024 * w,
        ;
    }
    if h <= w {
        assert(b == 1024) by (nonlinear_arith)
            requires
                m == h,
                m > 0,
                1024 * h <= b * m,
                (b - 1) * m < 1024 * h,
        ;
        assert(b <= a) by (nonlinear_arith)
            requires
                h <= w,
                m > 0,
                1024 * w <= a * m,
                (b - 1) * m < 1024 * h,
        ;
    }
}

/// Flattening keeps fully opaque pixels as they are, turns fully transparent ones into
/// the background's colour, and always gives alpha 255.
pub proof fn law_flatten_keeps_opaque_and_fills_transparent(px: Rgba, bg: Rgba)
    ensures
        px.a == 255 ==> flatten_pixel(px, bg) == px,
        px.a == 0 ==> flatten_pixel(px, bg) == (Rgba { r: bg.r, g: bg.g, b: bg.b, a: 255 }),
        flatten_pixel(px, bg).a == 255,
{
    if px.a == 0 {
        assert((px.r as int * 0 + bg.r as int * 255) / 255 == bg.r) by (nonlinear_arith);
        assert((px.g as int * 0 + bg.g as int * 255) / 255 == bg.g) by (nonlinear_arith);
        assert((px.b as int * 0 + bg.b as int * 255) / 255 == bg.b) by (nonlinear_arith);
    }
}

/// Every opaque pixel among the first `n` positions of `r` has the colour of `c`.
pub open spec fn opaque_pixels_coloured(r: Raster, n: int, c: Rgba) -> bool {
    forall|p: int|
        0 <= p < n && #[trigger] r.at(p).a >= OPAQUE ==> r.at(p).r == c.r && r.at(p).g == c.g && r.at(p).b
            == c.b
}

proof fn lemma_single_colour_buckets(r: Raster, n: int, c: Rgba, k: int)
    requires
        n >= 0,
        opaque_pixels_coloured(r, n, c),
    ensures
        bucket_count(r, n, k) == if k == bucket_key(c) {
            opaque_upto(r, n)
        } else {
            0
        },
        bucket_sum(r, n, k, 0) == bucket_count(r, n, k) * c.r,
        bucket_sum(r, n, k, 1) == bucket_count(r, n, k) * c.g,
        bucket_sum(r, n, k, 2) == bucket_count(r, n, k) * c.b,
    decreases n,
{
    if n > 0 {
        assert(opaque_pixels_coloured(r, n - 1, c));
        lemma_single_colour_buckets(r, n - 1, c, k);
        let px = r.at(n - 1);
        if px.a >= OPAQUE {
            assert(px.r == c.r && px.g == c.g && px.b == c.b);
            assert(bucket_key(px) == bucket_key(c));
        }
        let cnt = bucket_count(r, n - 1, k);
        assert(cnt * c.r + c.r == (cnt + 1) * c.r) by (nonlinear_arith);
        assert(cnt * c.g + c.g == (cnt + 1) * c.g) by (nonlinear_arith);
        assert(cnt * c.b + c.b == (cnt + 1) * c.b) by (nonlinear_arith);
    }
}

/// An image whose opaque pixels (alpha at least 200) all have one colour, and which has
/// at least one, has that colour, fully opaque, as its dominant colour; an image without
/// an opaque pixel has white.
pub proof fn law_dominant_colour_of_one_colour(r: Raster, c: Rgba)
    ensures
        opaque_pixels_coloured(r, r.npix() as int, c) && opaque_upto(r, r.npix() as int) > 0
            ==> dominant_color_of(r) == (Rgba { r: c.r, g: c.g, b: c.b, a: 255 }),
        opaque_upto(r, r.npix() as int) == 0 ==> dominant_color_of(r) == (Rgba { r: 255, g: 255, b: 255, a: 255 }),
{
    let n = r.npix() as int;
    crate::pixels::lemma_best_bucket_is_max(r, 4096);
    let k = crate::pixels::best_bucket(r, 4096);
    if opaque_upto(r, n) == 0 {
        lemma_no_opaque_no_bucket(r, n, k);
    }
    if opaque_pixels_coloured(r, n, c) && opaque_upto(r, n) > 0 {
        let kc = bucket_key(c);
        law_buckets_separate_quantised_colours(c, c);
        lemma_single_colour_buckets(r, n, c, kc);
        lemma_single_colour_buckets(r, n, c, k);
        assert(bucket_count(r, n, kc) <= bucket_count(r, n, k));
        assert(k == kc);
        let cnt: int = bucket_count(r, n, k) as int;
        assert(cnt > 0);
        assert((cnt * c.r) / cnt == c.r) by (nonlinear_arith)
            requires
                cnt > 0,
        ;
        assert((cnt * c.g) / cnt == c.g) by (nonlinear_arith)
            requires
                cnt > 0,
        ;
        assert((cnt * c.b) / cnt == c.b) by (nonlinear_arith)
            requires
                cnt > 0,
        ;
    }
}

proof fn lemma_no_opaque_no_bucket(r: Raster, n: int, k: int)
    requires
        n >= 0,
        opaque_upto(r, n) == 0,
    ensures
        bucket_count(r, n, k) == 0,
    decreases n,
{
    if n > 0 {
        lemma_no_opaque_no_bucket(r, n - 1, k);
    }
}

/// A command's report keeps both streams, standard output first and standard error on
/// the next line; an empty stream is left out, and `done` stands only for no output.
pub proof fn law_output_keeps_both_streams(stdout: Seq<char>, stderr: Seq<char>, done: Seq<char>)
    ensures
        stdout.len() > 0 && stderr.len() > 0 ==> combined_output(stdout, stderr, done) == stdout + "\n"@
            + stderr,
        stdout.len() == 0 ==> combined_output(stdout, stderr, done) == (if stderr.len() == 0 {
            done
        } else {
            stderr
        }),
        stderr.len() == 0 && stdout.len() > 0 ==> combined_output(stdout, stderr, done) == stdout,
{
}

} // verus!
