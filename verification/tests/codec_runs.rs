use vavlt::classify::AssetClass;
use vavlt::codecs::{default_set, same_bytes, Codec, LeptonJpeg, Oxipng, Zstd};
use vavlt::picture::same_pixels;

fn picture(width: u32, height: u32) -> image::DynamicImage {
    let mut img = image::RgbImage::new(width, height);
    for (x, y, p) in img.enumerate_pixels_mut() {
        *p = image::Rgb([(x * 7 % 256) as u8, (y * 5 % 256) as u8, ((x + y) % 256) as u8]);
    }
    image::DynamicImage::ImageRgb8(img)
}

fn encoded(format: image::ImageFormat) -> Vec<u8> {
    let mut out = Vec::new();
    picture(64, 48).write_to(&mut std::io::Cursor::new(&mut out), format).expect("encode");
    out
}

fn text() -> Vec<u8> {
    let mut t = Vec::new();
    for i in 0..2000 {
        t.extend_from_slice(format!("line {i}: the quick brown fox\n").as_bytes());
    }
    t
}

#[test]
fn zstd_compresses_and_proves_the_roundtrip() {
    let input = text();
    let out = Zstd { level: 19 }.run(&input).expect("zstd");
    let expected = zstd::encode_all(&input[..], 19).expect("direct");
    assert_eq!(out.out_bytes, expected.len() as u64);
    assert!(out.out_bytes < input.len() as u64);
    assert_eq!(out.roundtrip_ok, Some(true));
    assert!(out.decode_ms.is_some());
}

#[test]
fn oxipng_proves_the_pixels_survive() {
    let png = encoded(image::ImageFormat::Png);
    let out = Oxipng { preset: 4 }.run(&png).expect("oxipng");
    let expected =
        oxipng::optimize_from_memory(&png, &oxipng::Options::from_preset(4)).expect("direct");
    assert_eq!(out.out_bytes, expected.len() as u64);
    assert_eq!(out.roundtrip_ok, Some(true));
    assert!(out.decode_ms.is_some());
}

#[test]
fn pixels_compare_by_what_they_show() {
    let png = encoded(image::ImageFormat::Png);
    let mut other = Vec::new();
    picture(64, 47).write_to(&mut std::io::Cursor::new(&mut other), image::ImageFormat::Png).expect("encode");
    let mut recoloured = Vec::new();
    let mut img = picture(64, 48).to_rgb8();
    img.put_pixel(3, 3, image::Rgb([1, 2, 3]));
    image::DynamicImage::ImageRgb8(img)
        .write_to(&mut std::io::Cursor::new(&mut recoloured), image::ImageFormat::Png)
        .expect("encode");
    let mut as_rgba = Vec::new();
    image::DynamicImage::ImageRgba8(picture(64, 48).to_rgba8())
        .write_to(&mut std::io::Cursor::new(&mut as_rgba), image::ImageFormat::Png)
        .expect("encode");
    assert!(same_pixels(&png, &png));
    assert!(same_pixels(&png, &as_rgba));
    assert!(!same_pixels(&png, &other));
    assert!(!same_pixels(&png, &recoloured));
    assert!(!same_pixels(b"not a png", b"not a png"));
}

#[test]
fn oxipng_refuses_what_is_not_a_png() {
    let error = Oxipng { preset: 4 }.run(b"definitely not a png").expect_err("refused");
    assert!(error.starts_with("oxipng: "), "{error}");
}

#[test]
fn lepton_recodes_a_jpeg_and_proves_it() {
    let jpeg = encoded(image::ImageFormat::Jpeg);
    let out = LeptonJpeg.run(&jpeg).expect("lepton");
    assert_eq!(out.roundtrip_ok, Some(true));
    assert!(out.decode_ms.is_some());
    assert!(out.out_bytes > 0);
}

#[test]
fn lepton_refuses_what_is_not_a_jpeg() {
    let error = LeptonJpeg.run(b"not a jpeg at all").expect_err("refused");
    assert!(error.starts_with("lepton encode: ") || error.starts_with("lepton decode: "), "{error}");
}

#[test]
fn the_matrix_routes_each_codec_to_its_class() {
    let set = default_set();
    assert_eq!(set.len(), 3);
    let names: Vec<&str> = set.iter().map(Codec::name).collect();
    assert_eq!(names, ["lepton", "oxipng", "zstd"]);
    assert!(set[0].applies(AssetClass::Jpeg) && !set[0].applies(AssetClass::Png));
    assert!(set[1].applies(AssetClass::Png) && !set[1].applies(AssetClass::Jpeg));
    assert!(set[2].applies(AssetClass::Raw));
    assert!(set.iter().all(Codec::lossless));
    assert!(LeptonJpeg.lossless() && Oxipng { preset: 2 }.lossless() && Zstd { level: 1 }.lossless());
}

#[test]
fn codec_runs_through_the_enum_match_the_codecs() {
    let input = text();
    let direct = Zstd { level: 19 }.run(&input).expect("zstd");
    let routed = Codec::Zstd(Zstd { level: 19 }).run(&input).expect("zstd");
    assert_eq!(direct.out_bytes, routed.out_bytes);
    assert_eq!(direct.roundtrip_ok, routed.roundtrip_ok);
}

#[test]
fn bytes_compare_exactly() {
    assert!(same_bytes(b"abc", b"abc"));
    assert!(!same_bytes(b"abc", b"abd"));
    assert!(!same_bytes(b"abc", b"ab"));
    assert!(same_bytes(b"", b""));
}
