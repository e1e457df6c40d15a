use std::path::Path;

use vavlt::classify::{classify_bytes, classify_name, classify_video, AssetClass};

fn video_by_windows(head: &[u8]) -> AssetClass {
    let has = |tag: &[u8]| head.windows(4).any(|w| w == tag);
    if has(b"hvc1") || has(b"hev1") {
        AssetClass::VideoHevc
    } else if has(b"avc1") || has(b"avc3") {
        AssetClass::VideoH264
    } else if has(b"av01") {
        AssetClass::VideoAv1
    } else {
        AssetClass::VideoOther
    }
}

/// The header first, the extension only for RAW and documents.
fn bytes_by_infer(head: &[u8], path: &str) -> AssetClass {
    let mime = infer::get(head).map(|k| k.mime_type()).unwrap_or("");
    match mime {
        "image/jpeg" => return AssetClass::Jpeg,
        "image/png" => return AssetClass::Png,
        "image/heif" | "image/heic" | "image/avif" => return AssetClass::Heic,
        "image/x-canon-cr2" | "image/x-nikon-nef" | "image/tiff" => return AssetClass::Raw,
        "audio/x-flac" | "audio/x-wav" | "audio/wav" => return AssetClass::AudioLossless,
        "audio/mpeg" | "audio/m4a" | "audio/aac" | "audio/ogg" => return AssetClass::AudioLossy,
        "video/mp4" | "video/quicktime" | "video/x-matroska" | "video/webm" => {
            return video_by_windows(head)
        }
        _ => {}
    }
    let ext = Path::new(path)
        .extension()
        .and_then(|e| e.to_str())
        .unwrap_or("")
        .to_ascii_lowercase();
    match ext.as_str() {
        "dng" | "cr2" | "cr3" | "nef" | "arw" | "raf" | "orf" | "rw2" => AssetClass::Raw,
        "txt" | "md" | "json" | "csv" | "xml" | "log" | "html" | "pdf" => AssetClass::Document,
        "" => AssetClass::Other,
        _ => {
            if head
                .iter()
                .take(8192)
                .all(|b| *b == b'\n' || *b == b'\r' || *b == b'\t' || (*b >= 0x20 && *b < 0x7f))
            {
                AssetClass::Document
            } else {
                AssetClass::Other
            }
        }
    }
}

fn mp4(brand: &[u8; 4], codec: &[u8; 4]) -> Vec<u8> {
    let mut v = vec![0, 0, 0, 0x18];
    v.extend_from_slice(b"ftyp");
    v.extend_from_slice(brand);
    v.extend_from_slice(&[0, 0, 0, 0]);
    v.extend_from_slice(b"isommp41");
    v.extend_from_slice(&[0, 0, 0, 8]);
    v.extend_from_slice(b"moov");
    v.extend_from_slice(b"stsd");
    v.extend_from_slice(codec);
    v
}

fn png_bytes() -> Vec<u8> {
    let mut png = Vec::new();
    image::DynamicImage::ImageRgba8(image::RgbaImage::from_pixel(4, 4, image::Rgba([1, 2, 3, 255])))
        .write_to(&mut std::io::Cursor::new(&mut png), image::ImageFormat::Png)
        .expect("encode");
    png
}

#[test]
fn names_classify_by_extension_alone() {
    assert_eq!(classify_name("IMG_0001.JPG"), AssetClass::Jpeg);
    assert_eq!(classify_name("a.jfif"), AssetClass::Jpeg);
    assert_eq!(classify_name("screen.png"), AssetClass::Png);
    assert_eq!(classify_name("x.HEIC"), AssetClass::Heic);
    assert_eq!(classify_name("x.avif"), AssetClass::Heic);
    assert_eq!(classify_name("clip.MOV"), AssetClass::VideoOther);
    assert_eq!(classify_name("raw.dng"), AssetClass::Raw);
    assert_eq!(classify_name("raw.RW2"), AssetClass::Raw);
    assert_eq!(classify_name("song.flac"), AssetClass::AudioLossless);
    assert_eq!(classify_name("song.opus"), AssetClass::AudioLossy);
    assert_eq!(classify_name("notes.md"), AssetClass::Document);
    assert_eq!(classify_name("archive.tar.gz"), AssetClass::Other);
    assert_eq!(classify_name("README"), AssetClass::Other);
    assert_eq!(classify_name("trailing."), AssetClass::Other);
    assert_eq!(classify_name(".png"), AssetClass::Png);
}

#[test]
fn a_header_beats_the_name() {
    let png = png_bytes();
    assert_eq!(classify_bytes(&png, "photo.jpg"), AssetClass::Png);
    assert_eq!(classify_bytes(&[0xFF, 0xD8, 0xFF, 0xE0, 0, 0x10], "x.png"), AssetClass::Jpeg);
}

#[test]
fn videos_classify_by_their_sample_entry() {
    assert_eq!(classify_bytes(&mp4(b"isom", b"avc1"), "a.mp4"), AssetClass::VideoH264);
    assert_eq!(classify_bytes(&mp4(b"isom", b"hvc1"), "a.mp4"), AssetClass::VideoHevc);
    assert_eq!(classify_bytes(&mp4(b"isom", b"av01"), "a.mp4"), AssetClass::VideoAv1);
    assert_eq!(classify_bytes(&mp4(b"isom", b"mp4a"), "a.mp4"), AssetClass::VideoOther);
    assert_eq!(classify_video(b"xxhev1yy"), AssetClass::VideoHevc);
    assert_eq!(classify_video(b"avc"), AssetClass::VideoOther);
    assert_eq!(classify_video(b"av01avc3"), AssetClass::VideoH264);
}

#[test]
fn without_a_header_only_raw_and_documents_trust_the_name() {
    assert_eq!(classify_bytes(b"\x00\x01binary", "IMG.DNG"), AssetClass::Raw);
    assert_eq!(classify_bytes(b"\x00\x01binary", "notes.txt"), AssetClass::Document);
    assert_eq!(classify_bytes(b"plain text here\n", "notes.weird"), AssetClass::Document);
    assert_eq!(classify_bytes(b"\x00\x01binary", "blob.weird"), AssetClass::Other);
    assert_eq!(classify_bytes(b"plain text", "noextension"), AssetClass::Other);
    assert_eq!(classify_bytes(b"plain text", "dir.d/file"), AssetClass::Other);
}

#[test]
fn classification_agrees_with_infer() {
    let mut heads: Vec<Vec<u8>> = vec![
        png_bytes(),
        vec![0xFF, 0xD8, 0xFF, 0xDB, 1, 2, 3],
        mp4(b"isom", b"avc1"),
        mp4(b"qt  ", b"hvc1"),
        mp4(b"heic", b"hvc1"),
        mp4(b"avif", b"av01"),
        mp4(b"M4A ", b"mp4a"),
        b"fLaC\0\0\0\x22".to_vec(),
        b"RIFF\x24\0\0\0WAVEfmt ".to_vec(),
        b"ID3\x03\0\0\0\0\0\0".to_vec(),
        b"OggS\0\x02\0\0\0\0\0\0\0\0".to_vec(),
        b"II*\0\x08\0\0\0".to_vec(),
        b"II*\0\x10\0\0\0CR\x02\0".to_vec(),
        b"%PDF-1.7\n".to_vec(),
        b"\x1aE\xdf\xa3\x01\0\0\0".to_vec(),
        b"hello, world\r\n\tindented".to_vec(),
        vec![0u8; 16],
        vec![],
        b"caf\xc3\xa9".to_vec(),
    ];
    heads.push(vec![b'a'; 9000]);
    let mut long = vec![b'a'; 8192];
    long.push(0);
    heads.push(long);
    let names = ["x", "x.jpg", "x.DNG", "x.json", "x.bin", "x.", "dir/x.cr3", ".hidden", "a.b.TXT"];
    for head in &heads {
        for name in names {
            assert_eq!(classify_bytes(head, name), bytes_by_infer(head, name), "{name} {head:?}");
        }
    }
}

#[test]
fn only_raw_is_protected_and_classes_know_their_kind() {
    let all = [
        AssetClass::Jpeg,
        AssetClass::Png,
        AssetClass::Heic,
        AssetClass::VideoH264,
        AssetClass::VideoHevc,
        AssetClass::VideoAv1,
        AssetClass::VideoOther,
        AssetClass::Raw,
        AssetClass::AudioLossless,
        AssetClass::AudioLossy,
        AssetClass::Document,
        AssetClass::Other,
    ];
    for c in all {
        assert_eq!(c.is_protected(), c == AssetClass::Raw);
        assert!(!(c.is_photo() && c.is_video()));
    }
    assert_eq!(all.iter().filter(|c| c.is_photo()).count(), 3);
    assert_eq!(all.iter().filter(|c| c.is_video()).count(), 4);
    assert_eq!(AssetClass::VideoH264.label(), "Video H.264");
    assert_eq!(AssetClass::Raw.label(), "RAW/DNG");
}

#[test]
fn a_name_claims_the_same_class_in_any_case() {
    for name in ["IMG_1.JPG", "clip.Mov", "scan.DnG", "notes.TXT", "song.FLAC", "x.heic", "a.b.PNG"] {
        let upper = name.to_ascii_uppercase();
        let lower = name.to_ascii_lowercase();
        assert_eq!(classify_name(&upper), classify_name(name), "{name}");
        assert_eq!(classify_name(&lower), classify_name(name), "{name}");
    }
    assert_eq!(classify_name("README"), AssetClass::Other);
    assert_eq!(classify_name(""), AssetClass::Other);
    for name in ["a.h264", "a.hevc", "a.av1", "a.mp4", "a.mkv"] {
        let c = classify_name(name);
        assert!(c != AssetClass::VideoH264 && c != AssetClass::VideoHevc && c != AssetClass::VideoAv1);
    }
}
