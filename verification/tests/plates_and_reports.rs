use std::collections::BTreeMap;

use vavlt::film::{dragon_turns, group_commas, hilbert_point, rot};
use vavlt::classify::{AssetClass, AssetMeta};
use vavlt::report::{codec_rollups, exact_dupes, file_totals, CodecRun, CodecTally, DupeTally, LabelledRun};
use vavlt::video::{transcode_args, vmaf_score_text};

/// Paperfolding, written out with a copy and a reversed walk.
fn dragon_by_folding(folds: usize) -> Vec<i32> {
    let mut turns: Vec<i32> = Vec::new();
    for _ in 0..folds {
        let mut next = turns.clone();
        next.push(1);
        for &t in turns.iter().rev() {
            next.push(-t);
        }
        turns = next;
    }
    turns
}

#[test]
fn the_dragon_folds_as_paper_does() {
    assert_eq!(dragon_turns(0), vec![0]);
    assert_eq!(dragon_turns(1), vec![0, 1]);
    assert_eq!(dragon_turns(2), vec![0, 1, 1, -1]);
    assert_eq!(dragon_turns(3), vec![0, 1, 1, -1, 1, 1, -1, -1]);
    for folds in 0..14 {
        let turns = dragon_turns(folds);
        assert_eq!(turns[0], 0);
        assert_eq!(turns[1..], dragon_by_folding(folds)[..]);
        assert_eq!(turns.len(), 1 << folds);
    }
}

#[test]
fn thirteen_folds_make_8192_turns() {
    assert_eq!(dragon_turns(13).len(), 8192);
}

/// The index-to-cell walk, written out directly.
fn cell_by_walk(side: usize, idx: usize) -> (usize, usize) {
    let (mut t, mut x, mut y, mut s) = (idx, 0usize, 0usize, 1usize);
    while s < side {
        let rx = 1 & (t / 2);
        let ry = 1 & (t ^ rx);
        let (qx, qy) = if ry == 0 {
            if rx == 1 {
                (s - 1 - y, s - 1 - x)
            } else {
                (y, x)
            }
        } else {
            (x, y)
        };
        x = qx + s * rx;
        y = qy + s * ry;
        t /= 4;
        s *= 2;
    }
    (x, y)
}

#[test]
fn the_hilbert_walk_visits_every_cell_once() {
    for order in 0..7u32 {
        let side = 1usize << order;
        let mut seen = vec![false; side * side];
        for idx in 0..side * side {
            let (x, y) = hilbert_point(order, idx);
            assert_eq!((x, y), cell_by_walk(side, idx));
            assert!(x < side && y < side);
            assert!(!seen[y * side + x], "cell visited twice");
            seen[y * side + x] = true;
        }
        assert!(seen.iter().all(|s| *s), "every cell reached");
    }
    // Each step moves to a neighbouring cell.
    for order in 0..7u32 {
        let side = 1usize << order;
        for idx in 1..side * side {
            let (px, py) = hilbert_point(order, idx - 1);
            let (x, y) = hilbert_point(order, idx);
            assert_eq!(px.abs_diff(x) + py.abs_diff(y), 1);
        }
    }
    assert_eq!(hilbert_point(1, 0), (0, 0));
    assert_eq!(hilbert_point(1, 1), (0, 1));
    assert_eq!(hilbert_point(1, 2), (1, 1));
    assert_eq!(hilbert_point(1, 3), (1, 0));
    assert_eq!(hilbert_point(2, 4), (0, 2));
    assert_eq!(hilbert_point(2, 15), (3, 0));
}

#[test]
fn quadrants_rotate_and_reflect() {
    assert_eq!(rot(2, 1, 0, 1, 0), (1, 0));
    assert_eq!(rot(4, 0, 1, 1, 0), (2, 3));
    assert_eq!(rot(4, 1, 2, 1, 0), (1, 2));
    assert_eq!(rot(4, 1, 2, 0, 0), (2, 1));
    assert_eq!(rot(4, 0, 3, 1, 0), (0, 3));
    assert_eq!(rot(4, 1, 2, 1, 1), (1, 2));
    assert_eq!(rot(0, 7, 9, 0, 1), (7, 9));
}

#[test]
fn counts_are_grouped_by_thousands() {
    assert_eq!(group_commas(0), "0");
    assert_eq!(group_commas(999), "999");
    assert_eq!(group_commas(1000), "1,000");
    assert_eq!(group_commas(10_800), "10,800");
    assert_eq!(group_commas(1_234_567), "1,234,567");
    assert_eq!(group_commas(u32::MAX), "4,294,967,295");
}

#[test]
fn a_transcode_asks_ffmpeg_for_hevc() {
    let args = transcode_args("in.mov", "out.mp4", 28, Some(64), 4);
    assert_eq!(
        args,
        [
            "-hide_banner", "-loglevel", "error", "-y", "-i", "in.mov", "-c:v", "libx265", "-crf", "28",
            "-preset", "medium", "-tag:v", "hvc1", "-threads", "4", "-c:a", "libopus", "-b:a", "64k",
            "-map_metadata", "0", "-movflags", "+faststart", "out.mp4",
        ]
    );
    let copy = transcode_args("a", "b", 23, None, 1);
    assert_eq!(&copy[16..18], ["-c:a", "copy"]);
    assert_eq!(copy.len(), 23);
}

#[test]
fn the_vmaf_score_is_the_word_after_the_last_marker() {
    assert_eq!(vmaf_score_text("[libvmaf] VMAF score: 95.123456\n"), Some("95.123456".to_string()));
    assert_eq!(vmaf_score_text("VMAF score: 1\nVMAF score:   88.5 done"), Some("88.5".to_string()));
    assert_eq!(vmaf_score_text("no score here"), None);
    assert_eq!(vmaf_score_text("VMAF score:    \n"), None);
    assert_eq!(vmaf_score_text("VMAF score: \u{3000}97\u{a0}x"), Some("97".to_string()));
    let log = "frame=  1\n[Parsed_libvmaf_0 @ 0x1] VMAF score: 93.881\n";
    let parsed: f64 = vmaf_score_text(log).expect("score").parse().expect("float");
    assert!((parsed - 93.881).abs() < 1e-9);
}

/// Dedup as a map of first sightings would count it.
fn dupes_by_map(hashes: &[&str], sizes: &[u64]) -> (usize, u64) {
    let mut seen: BTreeMap<&str, usize> = BTreeMap::new();
    let (mut files, mut bytes) = (0usize, 0u64);
    for (h, b) in hashes.iter().zip(sizes) {
        let d = seen.entry(h).or_insert(0);
        *d += 1;
        if *d > 1 {
            files += 1;
            bytes += b;
        }
    }
    (files, bytes)
}

#[test]
fn every_copy_after_the_first_is_recoverable() {
    let hashes = ["a", "b", "a", "c", "a", "b"];
    let sizes = [10u64, 20, 10, 30, 11, 20];
    let owned: Vec<String> = hashes.iter().map(|h| h.to_string()).collect();
    let tally = exact_dupes(&owned, &sizes);
    assert_eq!(tally, DupeTally { files: 3, bytes: 41 });
    assert_eq!((tally.files, tally.bytes), dupes_by_map(&hashes, &sizes));
    assert_eq!(exact_dupes(&[], &[]), DupeTally { files: 0, bytes: 0 });
    let distinct: Vec<String> = (0..50).map(|i| format!("{i:064x}")).collect();
    let sizes: Vec<u64> = (0..50).collect();
    assert_eq!(exact_dupes(&distinct, &sizes).files, 0);
}

fn run(failed: bool, lossless: bool, roundtrip_failed: bool, scored: bool) -> CodecRun {
    CodecRun { failed, lossless, in_bytes: 100, out_bytes: 60, encode_ms: 5, roundtrip_failed, scored }
}

#[test]
fn a_row_is_verified_only_end_to_end() {
    let mut lossless = CodecTally::new();
    for _ in 0..3 {
        assert!(lossless.fits(&run(false, true, false, false)));
        lossless.add(&run(false, true, false, false));
    }
    assert_eq!((lossless.files, lossless.in_bytes, lossless.out_bytes, lossless.encode_ms), (3, 300, 180, 15));
    assert!(lossless.verified());
    let mut broken = lossless;
    broken.add(&run(false, true, true, false));
    assert_eq!(broken.roundtrip_failures, 1);
    assert!(!broken.verified());
    let mut errored = lossless;
    errored.add(&run(true, true, false, false));
    assert_eq!((errored.errors, errored.files, errored.in_bytes), (1, 3, 300));
    assert!(!errored.verified());

    let mut lossy = CodecTally::new();
    assert!(!lossy.verified());
    lossy.add(&run(false, false, false, true));
    lossy.add(&run(false, false, false, true));
    assert!(lossy.verified());
    lossy.add(&run(false, false, false, false));
    assert_eq!((lossy.files, lossy.quality_scored), (3, 2));
    assert!(!lossy.verified());
}

#[test]
fn a_counter_that_would_overflow_does_not_fit() {
    let mut t = CodecTally::new();
    t.in_bytes = u64::MAX - 10;
    assert!(!t.fits(&run(false, true, false, false)));
    assert!(t.fits(&run(true, true, false, false)));
    t.errors = usize::MAX;
    assert!(!t.fits(&run(true, true, false, false)));
}

#[test]
fn duplicates_and_distinct_contents_account_for_every_file() {
    let hashes = ["x", "y", "x", "x", "z", "y", "w"];
    let owned: Vec<String> = hashes.iter().map(|h| h.to_string()).collect();
    let sizes = vec![1u64; hashes.len()];
    let distinct: std::collections::BTreeSet<&str> = hashes.iter().copied().collect();
    assert_eq!(exact_dupes(&owned, &sizes).files + distinct.len(), hashes.len());
}

#[test]
fn each_dragon_begins_the_next() {
    for folds in 0..12 {
        let a = dragon_turns(folds);
        let b = dragon_turns(folds + 1);
        assert_eq!(&b[..a.len()], &a[..]);
        assert_eq!(a[0], 0);
        assert!(a[1..].iter().all(|t| *t == 1 || *t == -1));
    }
}

#[test]
fn a_report_counts_files_and_bytes_per_class_in_label_order() {
    let meta = |class, bytes| AssetMeta { path: format!("f{bytes}"), bytes, class };
    let files = vec![
        meta(AssetClass::Png, 5),
        meta(AssetClass::Jpeg, 7),
        meta(AssetClass::Png, 11),
        meta(AssetClass::AudioLossy, 13),
    ];
    let t = file_totals(&files);
    assert_eq!(t.files, 4);
    assert_eq!(t.total_bytes, 36);
    assert_eq!(
        t.by_class,
        vec![("Audio lossy".to_string(), 1, 13), ("JPEG".to_string(), 1, 7), ("PNG".to_string(), 2, 16)]
    );
    let empty = file_totals(&[]);
    assert_eq!((empty.files, empty.total_bytes, empty.by_class.len()), (0, 0, 0));
}

fn run_of(in_bytes: u64, out_bytes: u64, failed: bool) -> CodecRun {
    CodecRun {
        failed,
        lossless: true,
        in_bytes,
        out_bytes,
        encode_ms: 1,
        roundtrip_failed: false,
        scored: false,
    }
}

fn labelled(label: &str, codec: &str, run: CodecRun) -> LabelledRun {
    LabelledRun { label: label.to_string(), codec: codec.to_string(), run }
}

#[test]
fn codec_runs_are_grouped_by_class_and_codec_in_key_order() {
    let runs = vec![
        labelled("PNG", "zstd", run_of(10, 9, false)),
        labelled("JPEG", "lepton", run_of(100, 78, false)),
        labelled("PNG", "oxipng", run_of(50, 40, false)),
        labelled("JPEG", "lepton", run_of(200, 150, false)),
        labelled("JPEG", "zstd", run_of(100, 99, true)),
        labelled("PNG", "zstd", run_of(20, 19, false)),
    ];
    let rows = codec_rollups(&runs).expect("fits");
    let keys: Vec<&str> = rows.iter().map(|(k, _)| k.as_str()).collect();
    assert_eq!(keys, ["JPEG/lepton", "JPEG/zstd", "PNG/oxipng", "PNG/zstd"]);
    let lepton = rows[0].1;
    assert_eq!((lepton.files, lepton.in_bytes, lepton.out_bytes, lepton.encode_ms), (2, 300, 228, 2));
    assert_eq!((rows[1].1.files, rows[1].1.errors), (0, 1));
    assert_eq!((rows[3].1.files, rows[3].1.in_bytes), (2, 30));
    let mut by_hand = CodecTally::new();
    by_hand.add(&run_of(50, 40, false));
    assert_eq!(rows[2].1, by_hand);
}

#[test]
fn codec_rows_that_would_overflow_are_refused() {
    let runs = vec![
        labelled("PNG", "zstd", run_of(u64::MAX, 1, false)),
        labelled("PNG", "zstd", run_of(1, 1, false)),
    ];
    assert!(codec_rollups(&runs).is_none());
    let apart = vec![
        labelled("PNG", "zstd", run_of(u64::MAX, 1, false)),
        labelled("JPEG", "zstd", run_of(1, 1, false)),
    ];
    assert_eq!(codec_rollups(&apart).expect("separate rows").len(), 2);
    assert!(codec_rollups(&[]).expect("empty").is_empty());
}
