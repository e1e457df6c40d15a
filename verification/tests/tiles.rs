use vavlt::thumb::{thumbnail, tile_geometry, THUMB_EDGE};

fn png_of(width: u32, height: u32) -> Vec<u8> {
    let mut png = Vec::new();
    let source = image::RgbaImage::from_pixel(width, height, image::Rgba([9, 9, 9, 255]));
    image::DynamicImage::ImageRgba8(source)
        .write_to(&mut std::io::Cursor::new(&mut png), image::ImageFormat::Png)
        .expect("encode");
    png
}

#[test]
fn a_wide_photo_comes_back_square() {
    let png = png_of(200, 100);
    let (pixels, edge) = thumbnail(&png, 64).expect("thumbnail");
    assert_eq!(edge, 64);
    assert_eq!(pixels.len(), 64 * 64 * 4, "RGBA8 at the requested edge");
}

#[test]
fn rubbish_bytes_are_an_error() {
    assert!(thumbnail(b"not a picture at all", 64).is_err());
}

#[test]
fn a_decode_failure_says_what_it_was_doing() {
    let error = thumbnail(b"not a picture at all", 64).expect_err("rubbish");
    assert_eq!(error, "decoding for a thumbnail");
}

#[test]
fn a_small_picture_is_not_upscaled() {
    let png = png_of(30, 50);
    let (pixels, edge) = thumbnail(&png, THUMB_EDGE).expect("thumbnail");
    assert_eq!(edge, 30);
    assert_eq!(pixels.len(), 30 * 30 * 4);
}

#[test]
fn a_uniform_picture_keeps_its_colour() {
    let png = png_of(120, 80);
    let (pixels, edge) = thumbnail(&png, 40).expect("thumbnail");
    assert_eq!(edge, 40);
    assert!(pixels.chunks(4).all(|p| p == [9, 9, 9, 255]));
}

#[test]
fn the_square_is_cut_from_the_centre() {
    assert_eq!(tile_geometry(200, 100, 64), (50, 0, 100, 64));
    assert_eq!(tile_geometry(100, 300, 64), (0, 100, 100, 64));
    assert_eq!(tile_geometry(10, 10, 64), (0, 0, 10, 10));
    assert_eq!(tile_geometry(7, 4, 0), (1, 0, 4, 1));
    assert_eq!(tile_geometry(0, 5, 64), (0, 2, 0, 1));
}

#[test]
fn the_tile_is_cut_from_the_centre_of_the_picture() {
    // Left third black, middle third white, right third black: only the
    // centred square is all white.
    let mut source = image::RgbaImage::from_pixel(90, 30, image::Rgba([0, 0, 0, 255]));
    for x in 30..60 {
        for y in 0..30 {
            source.put_pixel(x, y, image::Rgba([255, 255, 255, 255]));
        }
    }
    let mut png = Vec::new();
    image::DynamicImage::ImageRgba8(source)
        .write_to(&mut std::io::Cursor::new(&mut png), image::ImageFormat::Png)
        .expect("encode");
    let (pixels, edge) = thumbnail(&png, 30).expect("thumbnail");
    assert_eq!(edge, 30);
    assert!(pixels.chunks(4).all(|p| p == [255, 255, 255, 255]));
}
