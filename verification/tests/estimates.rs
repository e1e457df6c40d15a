use std::collections::BTreeMap;

use vavlt::classify::{AssetClass, AssetMeta};
use vavlt::estimate::{estimate_library, ClassRollup, Estimate, PREVIEW_BYTES, THUMB_BYTES};
use vavlt::tier::Tier;

/// The published-benchmark priors, per class: Move, Deep, Deep+.
const RATIOS: &[(AssetClass, [f32; 3])] = &[
    (AssetClass::Jpeg, [0.21, 0.50, 0.70]),
    (AssetClass::Png, [0.18, 0.80, 0.85]),
    (AssetClass::Heic, [0.00, 0.00, 0.15]),
    (AssetClass::VideoH264, [0.00, 0.44, 0.70]),
    (AssetClass::VideoHevc, [0.00, 0.10, 0.40]),
    (AssetClass::VideoAv1, [0.00, 0.00, 0.25]),
    (AssetClass::VideoOther, [0.00, 0.30, 0.55]),
    (AssetClass::Raw, [0.00, 0.00, 0.00]),
    (AssetClass::AudioLossless, [0.45, 0.45, 0.60]),
    (AssetClass::AudioLossy, [0.00, 0.00, 0.10]),
    (AssetClass::Document, [0.65, 0.65, 0.65]),
    (AssetClass::Other, [0.10, 0.10, 0.10]),
];

const ASSUMED_DEDUP: f32 = 0.12;

const CLASSES: [AssetClass; 12] = [
    AssetClass::Jpeg,
    AssetClass::Png,
    AssetClass::Heic,
    AssetClass::VideoH264,
    AssetClass::VideoHevc,
    AssetClass::VideoAv1,
    AssetClass::VideoOther,
    AssetClass::Raw,
    AssetClass::AudioLossless,
    AssetClass::AudioLossy,
    AssetClass::Document,
    AssetClass::Other,
];

fn ratio(class: AssetClass, tier: Tier) -> f32 {
    let idx = match tier {
        Tier::Move => 0,
        Tier::DeepMove => 1,
        Tier::DeepMovePlus => 2,
    };
    RATIOS.iter().find(|(c, _)| *c == class).map(|(_, r)| r[idx]).unwrap_or(0.0)
}

/// The estimate computed with single-precision ratios and doubles.
struct ByDoubles {
    total: u64,
    codec: u64,
    dedup: u64,
    overhead: u64,
    net: u64,
    untouched: usize,
    by_class: BTreeMap<String, (usize, u64, u64)>,
}

fn by_doubles(assets: &[AssetMeta], tier: Tier, exact: Option<u64>) -> ByDoubles {
    let mut by_class: BTreeMap<String, (usize, u64, u64)> = BTreeMap::new();
    let mut total = 0u64;
    let mut codec = 0u64;
    let mut untouched = 0usize;
    let mut previewable = 0u64;
    for a in assets {
        total += a.bytes;
        let saved = (a.bytes as f64 * ratio(a.class, tier) as f64) as u64;
        if saved == 0 {
            untouched += 1;
        }
        codec += saved;
        if a.class.is_photo() || a.class.is_video() {
            previewable += 1;
        }
        let e = by_class.entry(a.class.label().to_string()).or_default();
        e.0 += 1;
        e.1 += a.bytes;
        e.2 += saved;
    }
    let dedup = exact.unwrap_or((total as f64 * ASSUMED_DEDUP as f64) as u64);
    let overhead = previewable * (THUMB_BYTES + PREVIEW_BYTES);
    let net = (codec + dedup).saturating_sub(overhead);
    ByDoubles { total, codec, dedup, overhead, net, untouched, by_class }
}

fn meta(class: AssetClass, bytes: u64) -> AssetMeta {
    AssetMeta { path: format!("{}-{bytes}", class.label()), bytes, class }
}

fn assert_same(e: &Estimate, r: &ByDoubles, tier: Tier) {
    assert_eq!(e.tier, tier);
    assert_eq!(e.total_bytes, r.total);
    assert_eq!(e.codec_saved, r.codec);
    assert_eq!(e.dedup_saved, r.dedup);
    assert_eq!(e.overhead_bytes, r.overhead);
    assert_eq!(e.net_saved, r.net);
    assert_eq!(e.untouched_count, r.untouched);
    let rows: Vec<(String, (usize, u64, u64))> = e
        .by_class
        .iter()
        .map(|(k, v): &(String, ClassRollup)| (k.clone(), (v.count, v.bytes, v.saved)))
        .collect();
    let expected: Vec<(String, (usize, u64, u64))> = r.by_class.clone().into_iter().collect();
    assert_eq!(rows, expected);
}

#[test]
fn one_photo_of_each_class() {
    let assets: Vec<AssetMeta> = CLASSES.iter().map(|c| meta(*c, 1_000_000)).collect();
    for tier in [Tier::Move, Tier::DeepMove, Tier::DeepMovePlus] {
        let e = estimate_library(&assets, tier, None);
        assert_same(&e, &by_doubles(&assets, tier, None), tier);
        assert_eq!(e.by_class.len(), 12);
    }
}

#[test]
fn an_empty_library_saves_nothing() {
    let e = estimate_library(&[], Tier::DeepMove, None);
    assert_eq!(e.total_bytes, 0);
    assert_eq!(e.codec_saved, 0);
    assert_eq!(e.dedup_saved, 0);
    assert_eq!(e.overhead_bytes, 0);
    assert_eq!(e.net_saved, 0);
    assert_eq!(e.untouched_count, 0);
    assert!(e.by_class.is_empty());
}

#[test]
fn jpeg_under_move_by_hand() {
    let assets = vec![meta(AssetClass::Jpeg, 10_000_000)];
    let e = estimate_library(&assets, Tier::Move, Some(0));
    // 0.21 as a single is 14092861 / 2^26, a hair under 0.21.
    assert_eq!(e.codec_saved, 2_099_999);
    assert_eq!(e.dedup_saved, 0);
    assert_eq!(e.overhead_bytes, 97_280);
    assert_eq!(e.net_saved, 2_099_999 - 97_280);
    assert_eq!(e.by_class[0].0, "JPEG");
    assert_eq!(e.by_class[0].1, ClassRollup { count: 1, bytes: 10_000_000, saved: 2_099_999 });
}

#[test]
fn overhead_can_eat_the_whole_saving() {
    let assets = vec![meta(AssetClass::Heic, 50_000)];
    let e = estimate_library(&assets, Tier::Move, None);
    assert_eq!(e.codec_saved, 0);
    assert_eq!(e.untouched_count, 1);
    assert_eq!(e.dedup_saved, 5_999);
    assert_eq!(e.overhead_bytes, THUMB_BYTES + PREVIEW_BYTES);
    assert_eq!(e.net_saved, 0);
}

#[test]
fn an_exact_dedup_figure_replaces_the_assumption() {
    let assets = vec![meta(AssetClass::Document, 4096), meta(AssetClass::Raw, 40_000_000)];
    let assumed = estimate_library(&assets, Tier::Move, None);
    let exact = estimate_library(&assets, Tier::Move, Some(777));
    assert_eq!(exact.dedup_saved, 777);
    assert_eq!(assumed.dedup_saved, by_doubles(&assets, Tier::Move, None).dedup);
    assert_eq!(assumed.codec_saved, exact.codec_saved);
}

#[test]
fn rows_are_ordered_by_label() {
    let assets = vec![
        meta(AssetClass::VideoOther, 9),
        meta(AssetClass::AudioLossless, 8),
        meta(AssetClass::Png, 7),
        meta(AssetClass::VideoAv1, 6),
        meta(AssetClass::Png, 5),
    ];
    let e = estimate_library(&assets, Tier::DeepMovePlus, None);
    let labels: Vec<&str> = e.by_class.iter().map(|(k, _)| k.as_str()).collect();
    assert_eq!(labels, ["Audio lossless", "PNG", "Video AV1", "Video other"]);
    assert_eq!(e.by_class[1].1.count, 2);
    assert_eq!(e.by_class[1].1.bytes, 12);
}

#[test]
fn huge_and_odd_sizes_round_as_doubles_do() {
    let sizes = [
        1u64,
        3,
        7,
        99,
        1023,
        65_537,
        (1 << 53) - 1,
        1 << 53,
        (1 << 53) + 1,
        (1 << 54) + 3,
        (1 << 60) + 12_345,
        3_000_000_000_000_000_001,
    ];
    for tier in [Tier::Move, Tier::DeepMove, Tier::DeepMovePlus] {
        for class in CLASSES {
            let assets: Vec<AssetMeta> = sizes.iter().map(|b| meta(class, *b)).collect();
            let e = estimate_library(&assets, tier, None);
            assert_same(&e, &by_doubles(&assets, tier, None), tier);
        }
    }
}

#[test]
fn a_mixed_library_agrees_with_the_by_doubles() {
    let mut assets = Vec::new();
    let mut x: u64 = 12_345;
    for i in 0..500u64 {
        x = x.wrapping_mul(6_364_136_223_846_793_005).wrapping_add(1_442_695_040_888_963_407);
        let class = CLASSES[(x >> 60) as usize % 12];
        let bytes = (x >> 20) % 40_000_000 + i;
        assets.push(meta(class, bytes));
    }
    for tier in [Tier::Move, Tier::DeepMove, Tier::DeepMovePlus] {
        let e = estimate_library(&assets, tier, None);
        assert_same(&e, &by_doubles(&assets, tier, None), tier);
        let e = estimate_library(&assets, tier, Some(123_456_789));
        assert_same(&e, &by_doubles(&assets, tier, Some(123_456_789)), tier);
    }
}

#[test]
fn the_breakdown_accounts_for_every_asset() {
    let mut assets = Vec::new();
    let mut x: u64 = 99;
    for i in 0..300u64 {
        x = x.wrapping_mul(2_862_933_555_777_941_757).wrapping_add(3_037_000_493);
        assets.push(meta(CLASSES[(x >> 59) as usize % 12], (x >> 30) % 9_000_000 + i));
    }
    for tier in [Tier::Move, Tier::DeepMove, Tier::DeepMovePlus] {
        let e = estimate_library(&assets, tier, None);
        let count: usize = e.by_class.iter().map(|(_, r)| r.count).sum();
        let bytes: u64 = e.by_class.iter().map(|(_, r)| r.bytes).sum();
        let saved: u64 = e.by_class.iter().map(|(_, r)| r.saved).sum();
        assert_eq!(count, assets.len());
        assert_eq!(bytes, e.total_bytes);
        assert_eq!(saved, e.codec_saved);
        assert!(e.codec_saved <= e.total_bytes);
        assert!(e.by_class.iter().all(|(_, r)| r.saved <= r.bytes));
    }
}

#[test]
fn no_asset_is_expected_to_save_more_than_it_holds() {
    for b in [1u64, 2, 3, 1000, u32::MAX as u64, (1 << 53) + 1, u64::MAX / 2, u64::MAX] {
        for class in CLASSES {
            for tier in [Tier::Move, Tier::DeepMove, Tier::DeepMovePlus] {
                let e = estimate_library(&[meta(class, b)], tier, Some(0));
                assert!(e.codec_saved <= b, "{class:?} {tier:?} {b}");
            }
        }
        let e = estimate_library(&[meta(AssetClass::Raw, b)], Tier::Move, None);
        assert!(e.dedup_saved <= b);
    }
}

#[test]
fn deeper_tiers_never_estimate_less() {
    let mut x: u64 = 7;
    for _ in 0..200 {
        x = x.wrapping_mul(6_364_136_223_846_793_005).wrapping_add(1);
        let class = CLASSES[(x >> 60) as usize % 12];
        let bytes = x >> (x % 40);
        let assets = [meta(class, bytes)];
        let m = estimate_library(&assets, Tier::Move, Some(0)).codec_saved;
        let d = estimate_library(&assets, Tier::DeepMove, Some(0)).codec_saved;
        let p = estimate_library(&assets, Tier::DeepMovePlus, Some(0)).codec_saved;
        assert!(m <= d && d <= p, "{class:?} {bytes}: {m} {d} {p}");
    }
}

#[test]
fn raw_is_never_expected_to_save_anything() {
    let assets = vec![AssetMeta { path: "x.dng".into(), bytes: 1_000_000, class: AssetClass::Raw }];
    for tier in [Tier::Move, Tier::DeepMove, Tier::DeepMovePlus] {
        let e = estimate_library(&assets, tier, Some(0));
        assert_eq!(e.codec_saved, 0);
        assert_eq!(e.untouched_count, 1);
        assert_eq!(e.net_saved, 0);
    }
}

#[test]
fn deeper_tiers_never_leave_more_untouched() {
    let assets = vec![
        meta(AssetClass::Heic, 1_000),
        meta(AssetClass::VideoH264, 1_000),
        meta(AssetClass::Raw, 1_000),
        meta(AssetClass::Jpeg, 1_000),
    ];
    let m = estimate_library(&assets, Tier::Move, Some(0));
    let d = estimate_library(&assets, Tier::DeepMove, Some(0));
    let p = estimate_library(&assets, Tier::DeepMovePlus, Some(0));
    assert_eq!((m.untouched_count, d.untouched_count, p.untouched_count), (3, 2, 1));
    assert!(m.net_saved <= d.net_saved && d.net_saved <= p.net_saved);
}
