use icon_forge::full_bleed::{full_bleed, prepare_full_bleed, FullBleed, Preparation, CANVAS};
use icon_forge::macos_look::{bake_macos_look, iconset_entries, try_bake_macos_look};
use icon_forge::paths::{extension, file_name, path_extension_of, path_join};
use icon_forge::pixels::{alpha_bbox, crop, dominant_color, flatten, opaque_count};
use icon_forge::raster::{LumaImage, Rgba, RgbaImage};
use icon_forge::image_ops::{decode_grey, overlay, resize};

fn rgba(r: u8, g: u8, b: u8, a: u8) -> Rgba {
    Rgba { r, g, b, a }
}

fn check_output(img: &RgbaImage) {
    assert_eq!((img.width(), img.height()), (CANVAS, CANVAS), "输出应为 1024²");
    assert!(img.as_raw().chunks(4).all(|p| p[3] == 255), "输出应完全不透明");
}

fn png_of(img: RgbaImage) -> Vec<u8> {
    let (w, h) = (img.width(), img.height());
    let buf = image::RgbaImage::from_raw(w, h, img.into_raw()).unwrap();
    let mut bytes = Vec::new();
    buf.write_to(&mut std::io::Cursor::new(&mut bytes), image::ImageFormat::Png).unwrap();
    bytes
}

fn normalised(src: &str, bytes: Vec<u8>) -> FullBleed {
    match prepare_full_bleed(src, Ok(bytes)) {
        Ok(Preparation::Normalised(fb)) => fb,
        Ok(Preparation::Unchanged(_)) => panic!("a PNG source must be normalised"),
        Err(e) => panic!("{}", e),
    }
}

/// SVG 原样透传
#[test]
fn svg_passes_through() {
    let src = "/tmp/nonexistent-icon.svg";
    match prepare_full_bleed(src, Err("No such file or directory (os error 2)".to_string())) {
        Ok(Preparation::Unchanged(prep)) => {
            assert!(!prep.is_temp);
            assert_eq!(prep.path, src);
        }
        _ => panic!("an SVG source must pass through"),
    }
}

/// 不规则 glyph（圆形，bbox 内不透明度约 78%）→ PLATE 分支
#[test]
fn plate_branch_fills_canvas() {
    let mut art = RgbaImage::from_pixel(300, 300, rgba(0, 0, 0, 0));
    for y in 0..300u32 {
        for x in 0..300u32 {
            let (dx, dy) = (x as f32 - 149.5, y as f32 - 149.5);
            if dx * dx + dy * dy <= 150.0 * 150.0 {
                art.put_pixel(x, y, rgba(200, 60, 40, 255));
            }
        }
    }
    let prep = normalised("circle.png", png_of(art));
    assert!(prep.note.contains("底色"), "note = {}", prep.note);
    check_output(&prep.canvas);
    // 四角是底板色（取自图稿主色），中心是图稿本身
    assert_eq!(prep.canvas.get_pixel(2, 2), prep.canvas.get_pixel(CANVAS - 3, CANVAS - 3));
}

/// 方形不透明底板 → COVER 分支，内容不被缩小
#[test]
fn cover_branch_keeps_square_plate() {
    let mut art = RgbaImage::from_pixel(300, 300, rgba(10, 20, 30, 255));
    // 角落打个标记，确认没有被裁掉
    art.put_pixel(4, 4, rgba(255, 0, 0, 255));
    let prep = normalised("square.png", png_of(art));
    assert!(prep.note.contains("cover"), "note = {}", prep.note);
    check_output(&prep.canvas);
    assert_eq!(prep.canvas.get_pixel(CANVAS / 2, CANVAS / 2).r, 10);
}

#[test]
fn unreadable_source_is_reported() {
    let err = prepare_full_bleed("/tmp/missing.png", Err("gone".to_string())).err().unwrap();
    assert_eq!(err, "读取图片失败: gone");
    let err = prepare_full_bleed("/tmp/junk.png", Ok(b"not a png".to_vec())).err().unwrap();
    assert!(err.starts_with("读取图片失败: "), "{}", err);
    let err = prepare_full_bleed("/tmp/no_extension", Ok(png_of(RgbaImage::from_pixel(2, 2, rgba(1, 2, 3, 255)))))
        .err()
        .unwrap();
    assert!(err.starts_with("读取图片失败: "), "{}", err);
}

#[test]
fn transparent_source_is_reported() {
    let err = prepare_full_bleed("clear.png", Ok(png_of(RgbaImage::from_pixel(5, 5, rgba(9, 9, 9, 0)))))
        .err()
        .unwrap();
    assert_eq!(err, "图片完全透明");
}

#[test]
fn plate_note_names_the_dominant_colour() {
    let mut art = RgbaImage::from_pixel(300, 300, rgba(0, 0, 0, 0));
    for y in 0..300u32 {
        for x in 0..300u32 {
            let (dx, dy) = (x as f32 - 149.5, y as f32 - 149.5);
            if dx * dx + dy * dy <= 150.0 * 150.0 {
                art.put_pixel(x, y, rgba(200, 60, 40, 255));
            }
        }
    }
    let prep = full_bleed(&art).unwrap();
    assert_eq!(prep.note, "满幅预处理: 底色 #C83C28 填充");
    assert_eq!(prep.canvas.get_pixel(0, 0), rgba(200, 60, 40, 255));
    assert_eq!(prep.canvas.get_pixel(1023, 0), rgba(200, 60, 40, 255));
}

#[test]
fn square_artwork_note_is_cover() {
    let art = RgbaImage::from_pixel(64, 64, rgba(1, 2, 3, 255));
    let prep = full_bleed(&art).unwrap();
    assert_eq!(prep.note, "满幅预处理: cover 裁切");
    assert_eq!(prep.canvas.get_pixel(100, 900), rgba(1, 2, 3, 255));
}

#[test]
fn wide_opaque_artwork_goes_on_a_plate() {
    // aspect 2:1 exceeds 1.15 although every pixel is opaque
    let art = RgbaImage::from_pixel(200, 100, rgba(40, 80, 120, 255));
    let prep = full_bleed(&art).unwrap();
    assert_eq!(prep.note, "满幅预处理: 底色 #285078 填充");
    check_output(&prep.canvas);
}

#[test]
fn fully_transparent_image_is_refused() {
    let art = RgbaImage::from_pixel(10, 10, rgba(255, 255, 255, 8));
    assert_eq!(full_bleed(&art).err(), Some("图片完全透明".to_string()));
}

#[test]
fn empty_image_becomes_a_white_plate() {
    let art = RgbaImage::from_pixel(0, 0, rgba(0, 0, 0, 0));
    let prep = full_bleed(&art).unwrap();
    assert_eq!(prep.note, "满幅预处理: 底色 #FFFFFF 填充");
    check_output(&prep.canvas);
    assert_eq!(prep.canvas.get_pixel(512, 512), rgba(255, 255, 255, 255));
}

#[test]
fn bbox_is_tight_around_visible_pixels() {
    let mut img = RgbaImage::from_pixel(20, 10, rgba(0, 0, 0, 8));
    img.put_pixel(3, 7, rgba(0, 0, 0, 9));
    img.put_pixel(15, 2, rgba(9, 9, 9, 255));
    assert_eq!(alpha_bbox(&img), Some((3, 2, 13, 6)));
    let blank = RgbaImage::from_pixel(20, 10, rgba(0, 0, 0, 8));
    assert_eq!(alpha_bbox(&blank), None);
    let none = RgbaImage::from_pixel(0, 0, rgba(0, 0, 0, 0));
    assert_eq!(alpha_bbox(&none), Some((0, 0, 1, 1)));
    let thin = RgbaImage::from_pixel(5, 0, rgba(0, 0, 0, 0));
    assert_eq!(alpha_bbox(&thin), None);
}

#[test]
fn opaque_pixels_are_counted_from_alpha_200() {
    let mut img = RgbaImage::from_pixel(4, 4, rgba(0, 0, 0, 199));
    img.put_pixel(0, 0, rgba(0, 0, 0, 200));
    img.put_pixel(3, 3, rgba(0, 0, 0, 255));
    assert_eq!(opaque_count(&img), 2);
}

#[test]
fn flatten_composites_onto_background() {
    let mut img = RgbaImage::from_pixel(2, 1, rgba(10, 20, 30, 255));
    img.put_pixel(1, 0, rgba(200, 100, 0, 128));
    let out = flatten(&img, rgba(0, 0, 255, 255));
    assert_eq!(out.get_pixel(0, 0), rgba(10, 20, 30, 255));
    // (200 * 128 + 0 * 127) / 255 = 100, (100 * 128) / 255 = 50, (0 + 255 * 127) / 255 = 127
    assert_eq!(out.get_pixel(1, 0), rgba(100, 50, 127, 255));
    let again = flatten(&out, rgba(9, 9, 9, 255));
    assert_eq!(again.as_raw(), out.as_raw());
}

#[test]
fn dominant_colour_is_the_mean_of_the_largest_bucket() {
    let mut img = RgbaImage::from_pixel(3, 2, rgba(100, 100, 100, 255));
    img.put_pixel(0, 0, rgba(101, 103, 105, 255));
    img.put_pixel(1, 0, rgba(10, 10, 10, 255));
    img.put_pixel(2, 0, rgba(250, 0, 0, 100));
    // bucket (6, 6, 6) holds four pixels: 100+100+100+101 = 401 -> 100, 403 -> 100, 405 -> 101
    assert_eq!(dominant_color(&img), rgba(100, 100, 101, 255));
    let clear = RgbaImage::from_pixel(3, 3, rgba(1, 1, 1, 199));
    assert_eq!(dominant_color(&clear), rgba(255, 255, 255, 255));
}

#[test]
fn crop_copies_and_clamps() {
    let mut img = RgbaImage::from_pixel(4, 3, rgba(0, 0, 0, 255));
    img.put_pixel(2, 1, rgba(7, 8, 9, 255));
    let part = crop(&img, 1, 1, 2, 2);
    assert_eq!((part.width(), part.height()), (2, 2));
    assert_eq!(part.get_pixel(1, 0), rgba(7, 8, 9, 255));
    let clamped = crop(&img, 3, 2, 10, 10);
    assert_eq!((clamped.width(), clamped.height()), (1, 1));
    let outside = crop(&img, 9, 9, 2, 2);
    assert_eq!((outside.width(), outside.height()), (0, 0));
}

#[test]
fn raw_buffers_must_match_their_size() {
    assert!(RgbaImage::from_raw(2, 2, vec![0; 16]).is_some());
    assert!(RgbaImage::from_raw(2, 2, vec![0; 15]).is_none());
    assert!(LumaImage::from_raw(2, 3, vec![0; 6]).is_some());
    assert!(LumaImage::from_raw(2, 3, vec![0; 5]).is_none());
}

#[test]
fn resize_changes_size_and_keeps_same_size_copies() {
    let img = RgbaImage::from_pixel(3, 3, rgba(5, 6, 7, 255));
    let big = resize(&img, 5, 4);
    assert_eq!((big.width(), big.height()), (5, 4));
    assert_ne!(big.as_raw().len(), img.as_raw().len());
    let same = resize(&img, 3, 3);
    assert_eq!(same.as_raw(), img.as_raw());
}

#[test]
fn overlay_replaces_opaque_and_keeps_outside() {
    let bottom = RgbaImage::from_pixel(4, 4, rgba(1, 1, 1, 255));
    let mut top = RgbaImage::from_pixel(2, 2, rgba(9, 9, 9, 255));
    top.put_pixel(1, 1, rgba(5, 5, 5, 0));
    let out = overlay(bottom, &top, 1, 1);
    assert_eq!(out.get_pixel(1, 1), rgba(9, 9, 9, 255));
    assert_eq!(out.get_pixel(2, 2), rgba(1, 1, 1, 255));
    assert_eq!(out.get_pixel(0, 0), rgba(1, 1, 1, 255));
    assert_eq!(out.get_pixel(3, 3), rgba(1, 1, 1, 255));
}

fn grey_png(w: u32, h: u32, v: u8) -> Vec<u8> {
    let img = image::GrayImage::from_pixel(w, h, image::Luma([v]));
    let mut bytes = Vec::new();
    img.write_to(&mut std::io::Cursor::new(&mut bytes), image::ImageFormat::Png).unwrap();
    bytes
}

#[test]
fn grey_assets_decode() {
    let g = decode_grey(&grey_png(3, 2, 77)).unwrap();
    assert_eq!((g.width(), g.height()), (3, 2));
    assert_eq!(g.get(2, 1), 77);
    assert!(decode_grey(b"not an image").is_err());
}

#[test]
fn macos_look_shows_only_shadow_outside_the_plate() {
    let full = RgbaImage::from_pixel(1024, 1024, rgba(30, 60, 90, 255));
    let look = bake_macos_look(&full, &grey_png(1024, 1024, 255), &grey_png(1024, 1024, 40)).unwrap();
    assert_eq!((look.width(), look.height()), (1024, 1024));
    assert_eq!(look.get_pixel(4, 4), rgba(0, 0, 0, 40));
    assert_eq!(look.get_pixel(99, 512), rgba(0, 0, 0, 40));
    // the plate is 824 wide and starts at 100
    let solid: Vec<u32> = (0..1024).filter(|&x| look.get_pixel(x, 512).a > 128).collect();
    assert_eq!(solid[0], 100);
    assert_eq!(solid[solid.len() - 1] - solid[0] + 1, 824);
}

#[test]
fn bad_assets_are_reported() {
    let full = RgbaImage::from_pixel(8, 8, rgba(0, 0, 0, 255));
    let err = bake_macos_look(&full, b"junk", &grey_png(1024, 1024, 0)).err().unwrap();
    assert!(err.starts_with("读取板形资源失败: "), "{}", err);
    let err = bake_macos_look(&full, &grey_png(1024, 1024, 0), b"junk").err().unwrap();
    assert!(err.starts_with("读取投影资源失败: "), "{}", err);
    assert!(try_bake_macos_look(&full, &grey_png(10, 10, 0), &grey_png(1024, 1024, 0)).is_none());
}

#[test]
fn iconset_lists_ten_images() {
    let entries = iconset_entries();
    let got: Vec<(String, u32)> = entries.iter().map(|e| (e.file_name.clone(), e.size)).collect();
    let want: Vec<(String, u32)> = vec![
        ("icon_16x16.png".to_string(), 16),
        ("icon_16x16@2x.png".to_string(), 32),
        ("icon_32x32.png".to_string(), 32),
        ("icon_32x32@2x.png".to_string(), 64),
        ("icon_128x128.png".to_string(), 128),
        ("icon_128x128@2x.png".to_string(), 256),
        ("icon_256x256.png".to_string(), 256),
        ("icon_256x256@2x.png".to_string(), 512),
        ("icon_512x512.png".to_string(), 512),
        ("icon_512x512@2x.png".to_string(), 1024),
    ];
    assert_eq!(got, want);
}

#[test]
fn file_names_and_extensions_follow_std_path() {
    for p in ["a/b.svg", "a/b.svg/", "a/b.svg/.", "b.tar.gz", ".bashrc", "a/..", "/", "", ".", "x.", "..x", "dir/name"] {
        let std_name = std::path::Path::new(p).file_name().map(|n| n.to_string_lossy().to_string());
        assert_eq!(file_name(p), std_name, "file name of {:?}", p);
        let std_ext = std::path::Path::new(p).extension().map(|n| n.to_string_lossy().to_string());
        assert_eq!(path_extension_of(p), std_ext, "extension of {:?}", p);
    }
    assert_eq!(extension(".."), None);
    assert_eq!(path_join("a", "b"), "a/b");
    assert_eq!(path_join("a/", "b"), "a/b");
    assert_eq!(path_join("", "b"), "b");
    assert_eq!(path_join("a", "/b"), "/b");
}

#[test]
fn svg_is_recognised_in_any_case() {
    let none = || Err("unread".to_string());
    assert!(matches!(prepare_full_bleed("/x/Logo.SVG", none()), Ok(Preparation::Unchanged(_))));
    assert!(matches!(prepare_full_bleed("/x/logo.Svg", none()), Ok(Preparation::Unchanged(_))));
    assert!(matches!(prepare_full_bleed("/x/logo.png", none()), Err(_)));
    assert!(matches!(prepare_full_bleed("/x/svg", none()), Err(_)));
    match prepare_full_bleed("a.svg", none()) {
        Ok(Preparation::Unchanged(p)) => assert_eq!(p.note, "SVG 跳过满幅预处理"),
        _ => panic!(),
    }
}

#[test]
fn cover_thresholds_are_inclusive() {
    // longer side exactly 1.15 times the shorter one: still cover
    let art = RgbaImage::from_pixel(115, 100, rgba(5, 5, 5, 255));
    assert_eq!(full_bleed(&art).unwrap().note, "满幅预处理: cover 裁切");
    let art = RgbaImage::from_pixel(116, 100, rgba(5, 5, 5, 255));
    assert_eq!(full_bleed(&art).unwrap().note, "满幅预处理: 底色 #050505 填充");
    // exactly 90 % opaque inside the bounding box: still cover
    let mut art = RgbaImage::from_pixel(10, 10, rgba(7, 7, 7, 255));
    for x in 1..9u32 {
        art.put_pixel(x, 0, rgba(7, 7, 7, 100));
    }
    art.put_pixel(1, 9, rgba(7, 7, 7, 100));
    art.put_pixel(2, 9, rgba(7, 7, 7, 100));
    assert_eq!(opaque_count(&art), 90);
    assert_eq!(full_bleed(&art).unwrap().note, "满幅预处理: cover 裁切");
    art.put_pixel(3, 9, rgba(7, 7, 7, 199));
    assert_eq!(opaque_count(&art), 89);
    assert_eq!(full_bleed(&art).unwrap().note, "满幅预处理: 底色 #070707 填充");
}
