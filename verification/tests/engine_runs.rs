use vavlt::classify::AssetClass;
use vavlt::digest::content_hash;
use vavlt::engine::{codec_for, process, run_step, settle, skip_reason, RunStep, Source};
use vavlt::item::{manifest_hash, Item, Outcome, Proof};
use vavlt::tier::{PhotoPolicy, Tier, VideoPolicy};

struct Memory {
    files: Vec<(String, Vec<u8>)>,
}

impl Source for Memory {
    fn read(&self, handle: &str) -> Result<Vec<u8>, anyhow::Error> {
        self.files
            .iter()
            .find(|(h, _)| h == handle)
            .map(|(_, b)| b.clone())
            .ok_or_else(|| anyhow::Error::msg(format!("{handle} was never handed over")))
    }
}

fn png_bytes() -> Vec<u8> {
    let mut png = Vec::new();
    let mut img = image::RgbImage::new(32, 32);
    for (x, y, p) in img.enumerate_pixels_mut() {
        *p = image::Rgb([(x * 8) as u8, (y * 8) as u8, 7]);
    }
    image::DynamicImage::ImageRgb8(img)
        .write_to(&mut std::io::Cursor::new(&mut png), image::ImageFormat::Png)
        .expect("encode");
    png
}

#[test]
fn raw_is_never_reencoded() {
    let item = Item::new("h1".to_string(), "IMG_1.DNG".to_string(), 10);
    let o = settle(&item, Ok(b"\x00\x01\x02raw sensor data".to_vec()), Tier::DeepMovePlus);
    assert_eq!(o.proof, Proof::Skipped);
    assert_eq!(o.codec, "—");
    assert_eq!(o.before, o.after);
    assert_eq!(o.note, "RAW is never re-encoded, in any tier");
    assert_eq!(o.saved(), 0);
}

#[test]
fn an_unreadable_file_costs_only_itself() {
    let item = Item::new("gone".to_string(), "a.jpg".to_string(), 1234);
    let o = settle(&item, Err("permission revoked".to_string()), Tier::Move);
    assert_eq!(o.proof, Proof::Failed);
    assert_eq!(o.before, 1234);
    assert_eq!(o.after, 1234);
    assert_eq!(o.note, "permission revoked");
    assert!(!o.fell_back);
}

#[test]
fn a_document_is_zstd_compressed_and_proven() {
    let text: Vec<u8> = "notes notes notes\n".repeat(400).into_bytes();
    let item = Item::new("d".to_string(), "notes.txt".to_string(), text.len() as u64);
    let o = settle(&item, Ok(text.clone()), Tier::Move);
    assert_eq!(o.codec, "zstd");
    assert_eq!(o.proof, Proof::Proven);
    assert_eq!(o.after, zstd::encode_all(&text[..], 19).expect("zstd").len() as u64);
    assert_eq!(o.saved(), o.before - o.after);
    assert_eq!(o.note, "");
}

#[test]
fn a_png_named_jpg_is_caught_and_falls_back_under_deep_move() {
    let png = png_bytes();
    let item = Item::new("p".to_string(), "photo.jpg".to_string(), png.len() as u64);
    assert_eq!(item.class, AssetClass::Jpeg);
    let o = settle(&item, Ok(png), Tier::DeepMove);
    assert_eq!(o.codec, "oxipng");
    assert_eq!(o.proof, Proof::Unqualified);
    assert!(!o.proof.countable());
    assert!(o.fell_back);
    assert_eq!(
        o.note,
        "header says PNG — the name said JPEG · Deep Move fell back to lossless: no perceptual scorer in this build"
    );
}

#[test]
fn move_never_falls_back() {
    let png = png_bytes();
    let item = Item::new("p".to_string(), "p.png".to_string(), png.len() as u64);
    let o = settle(&item, Ok(png), Tier::Move);
    assert!(!o.fell_back);
    assert_eq!(o.proof, Proof::PixelLossless);
    assert_eq!(o.note, "");
}

#[test]
fn processing_reads_through_the_source() {
    let source = Memory { files: vec![("h".to_string(), b"hello hello hello hello".to_vec())] };
    let item = Item::new("h".to_string(), "hello.md".to_string(), 23);
    let o = process(&source, &item, Tier::Move);
    assert_eq!(o.codec, "zstd");
    assert_eq!(o.before, 23);
    let missing = Item::new("nope".to_string(), "x.md".to_string(), 5);
    let o = process(&source, &missing, Tier::Move);
    assert_eq!(o.proof, Proof::Failed);
    assert_eq!(o.note, "nope was never handed over");
    assert!(source.thumbnail("h", 64).is_none());
}

#[test]
fn the_matrix_and_its_reasons() {
    assert!(codec_for(AssetClass::Raw).is_none());
    assert!(codec_for(AssetClass::Heic).is_none());
    assert!(codec_for(AssetClass::VideoH264).is_none());
    assert_eq!(codec_for(AssetClass::Jpeg).map(|c| c.name()), Some("lepton"));
    assert_eq!(codec_for(AssetClass::Png).map(|c| c.name()), Some("oxipng"));
    assert_eq!(codec_for(AssetClass::Other).map(|c| c.name()), Some("zstd"));
    assert_eq!(skip_reason(AssetClass::Heic), "already efficient — stored as-is");
    assert_eq!(skip_reason(AssetClass::VideoAv1), "no hardware encoder in this build — stored as-is");
    assert_eq!(skip_reason(AssetClass::AudioLossy), "no codec applies");
}

#[test]
fn proofs_say_what_they_count() {
    assert_eq!(Proof::Proven.label(), "proven");
    assert_eq!(Proof::PixelLossless.label(), "pixel-lossless");
    assert_eq!(Proof::Unqualified.label(), "unqualified");
    assert_eq!(Proof::Failed.label(), "failed");
    assert_eq!(Proof::Skipped.label(), "skipped");
    assert!(Proof::Proven.countable() && Proof::PixelLossless.countable());
    assert!(!Proof::Unqualified.countable() && !Proof::Failed.countable() && !Proof::Skipped.countable());
}

#[test]
fn savings_never_go_negative() {
    let grew = Outcome {
        name: "x".to_string(),
        codec: "zstd".to_string(),
        before: 10,
        after: 12,
        proof: Proof::Proven,
        note: String::new(),
        fell_back: false,
    };
    assert_eq!(grew.saved(), 0);
}

#[test]
fn a_manifest_binds_every_handle_size_and_the_tier() {
    let items = vec![
        Item::new("content://1".to_string(), "a.jpg".to_string(), 10),
        Item::new("content://2".to_string(), "b.png".to_string(), 20),
    ];
    let mut bytes = b"deep".to_vec();
    for it in &items {
        bytes.extend_from_slice(it.handle.as_bytes());
        bytes.extend_from_slice(&(it.handle.len() as u64).to_le_bytes());
        bytes.extend_from_slice(&it.bytes.to_le_bytes());
    }
    bytes.extend_from_slice(&(items.len() as u64).to_le_bytes());
    let expected = blake3::hash(&bytes).to_hex()[..32].to_string();
    assert_eq!(manifest_hash(&items, Tier::DeepMove), expected);
    assert_ne!(manifest_hash(&items, Tier::DeepMove), manifest_hash(&items, Tier::Move));
    assert_ne!(manifest_hash(&items, Tier::DeepMove), manifest_hash(&items, Tier::DeepMovePlus));
    assert_eq!(manifest_hash(&items, Tier::Move).len(), 32);
}

#[test]
fn a_handle_cannot_borrow_from_the_tier() {
    let a = vec![Item::new("+x".to_string(), "p.jpg".to_string(), 1)];
    let b = vec![Item::new("x".to_string(), "p.jpg".to_string(), 1)];
    assert_ne!(manifest_hash(&a, Tier::DeepMove), manifest_hash(&b, Tier::DeepMovePlus));
}

#[test]
fn a_handle_cannot_borrow_from_its_neighbour() {
    let a = vec![
        Item::new("ab".to_string(), "p.jpg".to_string(), 1),
        Item::new("c".to_string(), "q.jpg".to_string(), 1),
    ];
    let b = vec![
        Item::new("a".to_string(), "p.jpg".to_string(), 1),
        Item::new("bc".to_string(), "q.jpg".to_string(), 1),
    ];
    assert_ne!(manifest_hash(&a, Tier::Move), manifest_hash(&b, Tier::Move));
    assert_ne!(manifest_hash(&a, Tier::Move), manifest_hash(&a[..1], Tier::Move));
    assert_eq!(manifest_hash(&[], Tier::Move).len(), 32);
}

#[test]
fn content_hash_is_blake3_hex() {
    assert_eq!(content_hash(b"abc"), blake3::hash(b"abc").to_hex().to_string());
    assert_eq!(content_hash(b"").len(), 64);
}

#[test]
fn items_guess_from_the_name_and_become_metadata() {
    let it = Item::new("h".to_string(), "clip.mov".to_string(), 99);
    assert_eq!(it.class, AssetClass::VideoOther);
    let m = it.meta();
    assert_eq!(m.path, "clip.mov");
    assert_eq!(m.bytes, 99);
    assert_eq!(m.class, AssetClass::VideoOther);
}

#[test]
fn tiers_are_policy_only() {
    let all = Tier::all();
    assert_eq!(all, [Tier::Move, Tier::DeepMove, Tier::DeepMovePlus]);
    assert_eq!(Tier::Move.label(), "Move");
    assert_eq!(Tier::DeepMove.label(), "Deep Move");
    assert_eq!(Tier::DeepMovePlus.label(), "Deep Move+");
    assert!(Tier::Move.reversible() && !Tier::DeepMove.reversible() && !Tier::DeepMovePlus.reversible());
    let p = Tier::Move.policy();
    assert_eq!(p.photo, PhotoPolicy::Lossless);
    assert_eq!(p.video, VideoPolicy::Passthrough);
    assert_eq!(p.retain_originals_days, 0);
    let p = Tier::DeepMovePlus.policy();
    assert_eq!(p.photo, PhotoPolicy::Perceptual { min_ssimulacra2: 82 });
    assert_eq!(
        p.video,
        VideoPolicy::Transcode { min_vmaf: 90, max_height: Some(1080), opus_audio_kbps: Some(48) }
    );
    assert_eq!(p.retain_originals_days, 14);
    assert!(p.dedup);
    assert_eq!(Tier::DeepMove.policy().tier, Tier::DeepMove);
}

#[test]
fn a_run_checks_for_cancel_between_files() {
    assert_eq!(run_step(0, 3, false), RunStep::Process(0));
    assert_eq!(run_step(2, 3, false), RunStep::Process(2));
    assert_eq!(run_step(1, 3, true), RunStep::Finish(true));
    assert_eq!(run_step(3, 3, false), RunStep::Finish(false));
    assert_eq!(run_step(3, 3, true), RunStep::Finish(false));
    assert_eq!(run_step(0, 0, true), RunStep::Finish(false));
}

#[test]
fn a_codec_failure_is_reported_in_the_codecs_own_words() {
    let mut jpeg = vec![0xFF, 0xD8, 0xFF, 0xE0];
    jpeg.extend_from_slice(b"not really a jpeg after the magic");
    let item = Item::new("j".to_string(), "broken.jpg".to_string(), jpeg.len() as u64);
    let o = settle(&item, Ok(jpeg.clone()), Tier::Move);
    assert_eq!(o.codec, "lepton");
    assert_eq!(o.proof, Proof::Failed);
    assert_eq!(o.after, o.before);
    assert!(o.note.starts_with("lepton encode: "), "{}", o.note);

    let mut png = vec![0x89, b'P', b'N', b'G', 0x0D, 0x0A, 0x1A, 0x0A];
    png.extend_from_slice(b"truncated chunks");
    let item = Item::new("p".to_string(), "broken.png".to_string(), png.len() as u64);
    let o = settle(&item, Ok(png), Tier::Move);
    assert_eq!(o.codec, "oxipng");
    assert_eq!(o.proof, Proof::Failed);
    assert!(o.note.starts_with("oxipng: "), "{}", o.note);
}
