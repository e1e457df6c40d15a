//! Metadata-only estimation: the tier screen's source of truth.
//!
//! Reads no pixel data: it runs on the rows a photo library keeps, so it
//! needs no media permission and opens no files.
//!
//! Every ratio below is an assumption, a published-benchmark prior. Each is
//! held as `numerator / 2^shift`, the exact value of the single-precision
//! constant it stands for, and a saving is `bytes * ratio` rounded as binary
//! doubles round: the byte count to 53 significant bits, the product to 53
//! significant bits, the quotient cut to a whole number of bytes.

use vstd::prelude::*;

use vstd::arithmetic::power2::{lemma_pow2_pos, pow2};

use crate::classify::{class_is_photo, class_is_video, class_label, AssetClass, AssetMeta};
use crate::rounding::{
    as_double, lemma_round_to_bits_above, pow2_u128, round_to_bits_u128, DOUBLE_BITS,
};
use crate::tier::Tier;

verus! {

/// Grid thumbnail kept per photo or video.
pub const THUMB_BYTES: u64 = 15360;

/// Full-screen preview kept per photo or video, for the before/after viewer.
pub const PREVIEW_BYTES: u64 = 81920;

/// Whole-file dedup yield assumed when no exact figure is known: twelve per
/// cent, as `numerator / 2^shift`.
pub const ASSUMED_DEDUP_NUM: u64 = 16106127;

pub const ASSUMED_DEDUP_SHIFT: u32 = 27;

/// One of three values, by tier.
pub open spec fn by_tier(t: Tier, m: (nat, nat), d: (nat, nat), p: (nat, nat)) -> (nat, nat) {
    match t {
        Tier::Move => m,
        Tier::DeepMove => d,
        Tier::DeepMovePlus => p,
    }
}

/// Fraction of bytes saved, per (class, tier), as `(numerator, shift)` for
/// `numerator / 2^shift`. In per cent:
///
/// | class          | Move | Deep | Deep+ |
/// |----------------|------|------|-------|
/// | JPEG           | 21   | 50   | 70    |
/// | PNG            | 18   | 80   | 85    |
/// | HEIC           | 0    | 0    | 15    |
/// | Video H.264    | 0    | 44   | 70    |
/// | Video HEVC     | 0    | 10   | 40    |
/// | Video AV1      | 0    | 0    | 25    |
/// | Video other    | 0    | 30   | 55    |
/// | RAW/DNG        | 0    | 0    | 0     |
/// | Audio lossless | 45   | 45   | 60    |
/// | Audio lossy    | 0    | 0    | 10    |
/// | Document       | 65   | 65   | 65    |
/// | Other          | 10   | 10   | 10    |
///
/// RAW is never re-encoded, in any tier, so nothing is expected of it.
pub open spec fn ratio_of(c: AssetClass, t: Tier) -> (nat, nat) {
    match c {
        AssetClass::Jpeg => by_tier(t, (14092861, 26), (1, 1), (11744051, 24)),
        AssetClass::Png => by_tier(t, (3019899, 24), (13421773, 24), (7130317, 23)),
        AssetClass::Heic => by_tier(t, (0, 0), (0, 0), (5033165, 25)),
        AssetClass::VideoH264 => by_tier(t, (0, 0), (7381975, 24), (11744051, 24)),
        AssetClass::VideoHevc => by_tier(t, (0, 0), (13421773, 27), (13421773, 25)),
        AssetClass::VideoAv1 => by_tier(t, (0, 0), (0, 0), (1, 2)),
        AssetClass::VideoOther => by_tier(t, (0, 0), (5033165, 24), (9227469, 24)),
        AssetClass::Raw => (0, 0),
        AssetClass::AudioLossless => by_tier(t, (7549747, 24), (7549747, 24), (5033165, 23)),
        AssetClass::AudioLossy => by_tier(t, (0, 0), (0, 0), (13421773, 27)),
        AssetClass::Document => (5452595, 23),
        AssetClass::Other => (13421773, 27),
    }
}

/// `b * num / 2^shift` as doubles compute it and `as u64` keeps it: `b`
/// rounded to a double, the product rounded to a double, the quotient cut
/// toward zero and held at `u64::MAX`.
pub open spec fn scaled(b: nat, num: nat, shift: nat) -> nat {
    let d = as_double(as_double(b) * num) / pow2(shift);
    if d > u64::MAX {
        u64::MAX as nat
    } else {
        d
    }
}

/// Bytes a re-encode is expected to save on one asset.
pub open spec fn asset_saved(a: AssetMeta, t: Tier) -> nat {
    scaled(a.bytes as nat, ratio_of(a.class, t).0, ratio_of(a.class, t).1)
}

pub open spec fn is_previewable(a: AssetMeta) -> bool {
    class_is_photo(a.class) || class_is_video(a.class)
}

pub open spec fn total_bytes_of(s: Seq<AssetMeta>) -> nat
    decreases s.len(),
{
    if s.len() == 0 {
        0
    } else {
        total_bytes_of(s.drop_last()) + s.last().bytes as nat
    }
}

pub open spec fn codec_saved_of(s: Seq<AssetMeta>, t: Tier) -> nat
    decreases s.len(),
{
    if s.len() == 0 {
        0
    } else {
        codec_saved_of(s.drop_last(), t) + asset_saved(s.last(), t)
    }
}

/// Assets on which nothing is expected to be saved.
pub open spec fn untouched_of(s: Seq<AssetMeta>, t: Tier) -> nat
    decreases s.len(),
{
    if s.len() == 0 {
        0
    } else {
        untouched_of(s.drop_last(), t) + if asset_saved(s.last(), t) == 0 {
            1nat
        } else {
            0nat
        }
    }
}

/// Photos and videos: each costs a thumbnail and a preview.
pub open spec fn previewable_of(s: Seq<AssetMeta>) -> nat
    decreases s.len(),
{
    if s.len() == 0 {
        0
    } else {
        previewable_of(s.drop_last()) + if is_previewable(s.last()) {
            1nat
        } else {
            0nat
        }
    }
}

pub open spec fn class_count(s: Seq<AssetMeta>, c: AssetClass) -> nat
    decreases s.len(),
{
    if s.len() == 0 {
        0
    } else {
        class_count(s.drop_last(), c) + if s.last().class == c {
            1nat
        } else {
            0nat
        }
    }
}

pub open spec fn class_bytes(s: Seq<AssetMeta>, c: AssetClass) -> nat
    decreases s.len(),
{
    if s.len() == 0 {
        0
    } else {
        class_bytes(s.drop_last(), c) + if s.last().class == c {
            s.last().bytes as nat
        } else {
            0nat
        }
    }
}

pub open spec fn class_saved(s: Seq<AssetMeta>, c: AssetClass, t: Tier) -> nat
    decreases s.len(),
{
    if s.len() == 0 {
        0
    } else {
        class_saved(s.drop_last(), c, t) + if s.last().class == c {
            asset_saved(s.last(), t)
        } else {
            0nat
        }
    }
}

/// Dedup savings: the exact figure when there is one, else the assumed
/// yield on the total.
pub open spec fn dedup_of(s: Seq<AssetMeta>, exact: Option<u64>) -> nat {
    match exact {
        Some(d) => d as nat,
        None => scaled(total_bytes_of(s), ASSUMED_DEDUP_NUM as nat, ASSUMED_DEDUP_SHIFT as nat),
    }
}

pub open spec fn overhead_of(s: Seq<AssetMeta>) -> nat {
    previewable_of(s) * ((THUMB_BYTES + PREVIEW_BYTES) as nat)
}

/// What the user gets back: codec and dedup savings less the overhead,
/// never below zero.
pub open spec fn net_of(s: Seq<AssetMeta>, t: Tier, exact: Option<u64>) -> nat {
    let gross = codec_saved_of(s, t) + dedup_of(s, exact);
    if gross > overhead_of(s) {
        (gross - overhead_of(s)) as nat
    } else {
        0
    }
}

/// The classes in the order of their labels.
pub open spec fn class_at(k: int) -> AssetClass {
    if k == 0 {
        AssetClass::AudioLossless
    } else if k == 1 {
        AssetClass::AudioLossy
    } else if k == 2 {
        AssetClass::Document
    } else if k == 3 {
        AssetClass::Heic
    } else if k == 4 {
        AssetClass::Jpeg
    } else if k == 5 {
        AssetClass::Other
    } else if k == 6 {
        AssetClass::Png
    } else if k == 7 {
        AssetClass::Raw
    } else if k == 8 {
        AssetClass::VideoAv1
    } else if k == 9 {
        AssetClass::VideoH264
    } else if k == 10 {
        AssetClass::VideoHevc
    } else {
        AssetClass::VideoOther
    }
}

/// Position of a class in label order.
pub open spec fn label_rank(c: AssetClass) -> int {
    match c {
        AssetClass::AudioLossless => 0,
        AssetClass::AudioLossy => 1,
        AssetClass::Document => 2,
        AssetClass::Heic => 3,
        AssetClass::Jpeg => 4,
        AssetClass::Other => 5,
        AssetClass::Png => 6,
        AssetClass::Raw => 7,
        AssetClass::VideoAv1 => 8,
        AssetClass::VideoH264 => 9,
        AssetClass::VideoHevc => 10,
        AssetClass::VideoOther => 11,
    }
}

pub const CLASS_COUNT: usize = 12;

/// One row of the per-class breakdown: label, count, bytes, saved.
pub open spec fn rollup_of(s: Seq<AssetMeta>, t: Tier, c: AssetClass) -> (Seq<char>, nat, nat, nat) {
    (class_label(c), class_count(s, c), class_bytes(s, c), class_saved(s, c, t))
}

/// The rows of the first `k` classes in label order, leaving out classes
/// with no asset.
pub open spec fn rollups_upto(s: Seq<AssetMeta>, t: Tier, k: nat) -> Seq<(Seq<char>, nat, nat, nat)>
    decreases k,
{
    if k == 0 {
        Seq::empty()
    } else {
        let prev = rollups_upto(s, t, (k - 1) as nat);
        let c = class_at(k - 1);
        if class_count(s, c) > 0 {
            prev.push(rollup_of(s, t, c))
        } else {
            prev
        }
    }
}

/// The per-class breakdown, keyed and ordered by label.
pub open spec fn rollups(s: Seq<AssetMeta>, t: Tier) -> Seq<(Seq<char>, nat, nat, nat)> {
    rollups_upto(s, t, CLASS_COUNT as nat)
}

#[derive(Debug, Clone, Copy, PartialEq, Eq, Structural)]
pub struct ClassRollup {
    pub count: usize,
    pub bytes: u64,
    pub saved: u64,
}

impl Default for ClassRollup {
    fn default() -> (r: Self)
        ensures
            r.count == 0,
            r.bytes == 0,
            r.saved == 0,
    {
        ClassRollup { count: 0, bytes: 0, saved: 0 }
    }
}

/// A breakdown row as the contracts read it.
pub open spec fn row_view(e: (String, ClassRollup)) -> (Seq<char>, nat, nat, nat) {
    (e.0@, e.1.count as nat, e.1.bytes as nat, e.1.saved as nat)
}

#[derive(Debug, Clone)]
pub struct Estimate {
    pub tier: Tier,
    pub total_bytes: u64,
    /// Savings from re-encoding alone.
    pub codec_saved: u64,
    /// Savings from whole-file dedup.
    pub dedup_saved: u64,
    /// Thumbnails and previews the vault must store.
    pub overhead_bytes: u64,
    /// What the user actually gets back: `codec + dedup - overhead`.
    pub net_saved: u64,
    pub untouched_count: usize,
    /// Per class, ordered by label; a class with no asset has no row.
    pub by_class: Vec<(String, ClassRollup)>,
}

fn by_tier_u(t: Tier, m: (u64, u32), d: (u64, u32), p: (u64, u32)) -> (r: (u64, u32))
    ensures
        (r.0 as nat, r.1 as nat) == by_tier(
            t,
            (m.0 as nat, m.1 as nat),
            (d.0 as nat, d.1 as nat),
            (p.0 as nat, p.1 as nat),
        ),
{
    match t {
        Tier::Move => m,
        Tier::DeepMove => d,
        Tier::DeepMovePlus => p,
    }
}

fn ratio(c: AssetClass, t: Tier) -> (r: (u64, u32))
    ensures
        (r.0 as nat, r.1 as nat) == ratio_of(c, t),
        r.0 < 16777216,
        r.1 < 64,
{
    match c {
        AssetClass::Jpeg => by_tier_u(t, (14092861, 26), (1, 1), (11744051, 24)),
        AssetClass::Png => by_tier_u(t, (3019899, 24), (13421773, 24), (7130317, 23)),
        AssetClass::Heic => by_tier_u(t, (0, 0), (0, 0), (5033165, 25)),
        AssetClass::VideoH264 => by_tier_u(t, (0, 0), (7381975, 24), (11744051, 24)),
        AssetClass::VideoHevc => by_tier_u(t, (0, 0), (13421773, 27), (13421773, 25)),
        AssetClass::VideoAv1 => by_tier_u(t, (0, 0), (0, 0), (1, 2)),
        AssetClass::VideoOther => by_tier_u(t, (0, 0), (5033165, 24), (9227469, 24)),
        AssetClass::Raw => (0, 0),
        AssetClass::AudioLossless => by_tier_u(t, (7549747, 24), (7549747, 24), (5033165, 23)),
        AssetClass::AudioLossy => by_tier_u(t, (0, 0), (0, 0), (13421773, 27)),
        AssetClass::Document => (5452595, 23),
        AssetClass::Other => (13421773, 27),
    }
}

/// `b * num / 2^shift`, rounded as doubles round it.
fn scaled_u64(b: u64, num: u64, shift: u32) -> (r: u64)
    requires
        num < 16777216,
        shift < 64,
    ensures
        r == scaled(b as nat, num as nat, shift as nat),
{
    let v = round_to_bits_u128(b as u128, DOUBLE_BITS);
    assert(v * num < 0x8000_0000_0000_0000_0000_0000_0000_0000) by (nonlinear_arith)
        requires
            v <= 2 * b,
            b < 0x1_0000_0000_0000_0000,
            num < 16777216,
    ;
    let w = round_to_bits_u128(v * (num as u128), DOUBLE_BITS);
    let unit = pow2_u128(shift);
    proof {
        lemma_pow2_pos(shift as nat);
    }
    let d = w / unit;
    if d > 0xFFFF_FFFF_FFFF_FFFF {
        u64::MAX
    } else {
        d as u64
    }
}


/// Label order lists each class once.
pub proof fn lemma_label_order()
    ensures
        forall|k: int| 0 <= k < 12 ==> label_rank(#[trigger] class_at(k)) == k,
        forall|c: AssetClass| class_at(#[trigger] label_rank(c)) == c,
        forall|c: AssetClass| 0 <= #[trigger] label_rank(c) < 12,
{
}

/// A prefix of a library sums to no more than the library.
pub proof fn lemma_prefix_sums(s: Seq<AssetMeta>, i: int, t: Tier)
    requires
        0 <= i <= s.len(),
    ensures
        total_bytes_of(s.take(i)) <= total_bytes_of(s),
        codec_saved_of(s.take(i), t) <= codec_saved_of(s, t),
        previewable_of(s.take(i)) <= previewable_of(s),
    decreases s.len(),
{
    if i < s.len() {
        assert(s.drop_last().take(i) =~= s.take(i));
        lemma_prefix_sums(s.drop_last(), i, t);
    } else {
        assert(s.take(i) =~= s);
    }
}

/// One class's share is part of the whole.
pub proof fn lemma_class_sums(s: Seq<AssetMeta>, c: AssetClass, t: Tier)
    ensures
        class_count(s, c) <= s.len(),
        class_bytes(s, c) <= total_bytes_of(s),
        class_saved(s, c, t) <= codec_saved_of(s, t),
        untouched_of(s, t) <= s.len(),
        previewable_of(s) <= s.len(),
    decreases s.len(),
{
    if s.len() > 0 {
        lemma_class_sums(s.drop_last(), c, t);
    }
}

pub(crate) fn label_rank_of(c: AssetClass) -> (k: usize)
    ensures
        k == label_rank(c),
{
    match c {
        AssetClass::AudioLossless => 0,
        AssetClass::AudioLossy => 1,
        AssetClass::Document => 2,
        AssetClass::Heic => 3,
        AssetClass::Jpeg => 4,
        AssetClass::Other => 5,
        AssetClass::Png => 6,
        AssetClass::Raw => 7,
        AssetClass::VideoAv1 => 8,
        AssetClass::VideoH264 => 9,
        AssetClass::VideoHevc => 10,
        AssetClass::VideoOther => 11,
    }
}

pub(crate) fn class_in_label_order(k: usize) -> (c: AssetClass)
    requires
        k < 12,
    ensures
        c == class_at(k as int),
{
    if k == 0 {
        AssetClass::AudioLossless
    } else if k == 1 {
        AssetClass::AudioLossy
    } else if k == 2 {
        AssetClass::Document
    } else if k == 3 {
        AssetClass::Heic
    } else if k == 4 {
        AssetClass::Jpeg
    } else if k == 5 {
        AssetClass::Other
    } else if k == 6 {
        AssetClass::Png
    } else if k == 7 {
        AssetClass::Raw
    } else if k == 8 {
        AssetClass::VideoAv1
    } else if k == 9 {
        AssetClass::VideoH264
    } else if k == 10 {
        AssetClass::VideoHevc
    } else {
        AssetClass::VideoOther
    }
}

/// Estimate what `tier` would save on `assets`, from metadata alone.
///
/// `exact_dupe_bytes` comes from whole-file hashing when available; `None`
/// falls back to the assumed dedup yield. The sums must fit in a `u64`.
pub fn estimate_library(assets: &[AssetMeta], tier: Tier, exact_dupe_bytes: Option<u64>) -> (e:
    Estimate)
    requires
        total_bytes_of(assets@) <= u64::MAX,
        codec_saved_of(assets@, tier) + dedup_of(assets@, exact_dupe_bytes) <= u64::MAX,
        overhead_of(assets@) <= u64::MAX,
    ensures
        e.tier == tier,
        e.total_bytes == total_bytes_of(assets@),
        e.codec_saved == codec_saved_of(assets@, tier),
        e.dedup_saved == dedup_of(assets@, exact_dupe_bytes),
        e.overhead_bytes == overhead_of(assets@),
        e.net_saved == net_of(assets@, tier, exact_dupe_bytes),
        e.untouched_count == untouched_of(assets@, tier),
        e.by_class@.map_values(|r: (String, ClassRollup)| row_view(r)) == rollups(assets@, tier),
{
    let mut counts: Vec<usize> = Vec::new();
    let mut bytes: Vec<u64> = Vec::new();
    let mut saved: Vec<u64> = Vec::new();
    let mut k: usize = 0;
    while k < CLASS_COUNT
        invariant
            k <= CLASS_COUNT,
            counts.len() == k,
            bytes.len() == k,
            saved.len() == k,
            forall|j: int| 0 <= j < k ==> counts@[j] == 0 && bytes@[j] == 0 && saved@[j] == 0,
        decreases CLASS_COUNT - k,
    {
        counts.push(0);
        bytes.push(0);
        saved.push(0);
        k += 1;
    }
    proof {
        lemma_label_order();
        assert(assets@.take(0) =~= Seq::<AssetMeta>::empty());
    }
    let mut total: u64 = 0;
    let mut codec: u64 = 0;
    let mut untouched: usize = 0;
    let mut previewable: u64 = 0;
    let mut i: usize = 0;
    while i < assets.len()
        invariant
            i <= assets.len(),
            total_bytes_of(assets@) <= u64::MAX,
            codec_saved_of(assets@, tier) + dedup_of(assets@, exact_dupe_bytes) <= u64::MAX,
            overhead_of(assets@) <= u64::MAX,
            total == total_bytes_of(assets@.take(i as int)),
            codec == codec_saved_of(assets@.take(i as int), tier),
            untouched == untouched_of(assets@.take(i as int), tier),
            previewable == previewable_of(assets@.take(i as int)),
            counts.len() == CLASS_COUNT,
            bytes.len() == CLASS_COUNT,
            saved.len() == CLASS_COUNT,
            forall|j: int|
                0 <= j < 12 ==> counts@[j] == class_count(assets@.take(i as int), #[trigger] class_at(j))
                    && bytes@[j] == class_bytes(assets@.take(i as int), class_at(j))
                    && saved@[j] == class_saved(assets@.take(i as int), class_at(j), tier),
            forall|k: int| 0 <= k < 12 ==> label_rank(#[trigger] class_at(k)) == k,
        decreases assets.len() - i,
    {
        let a = &assets[i];
        let ghost pre = assets@.take(i as int);
        let ghost post = assets@.take(i + 1);
        proof {
            assert(post.drop_last() =~= pre);
            assert(post.last() == *a);
            lemma_prefix_sums(assets@, i + 1, tier);
            lemma_class_sums(pre, a.class, tier);
            lemma_class_sums(post, a.class, tier);
        }
        let (num, shift) = ratio(a.class, tier);
        let s = scaled_u64(a.bytes, num, shift);
        total = total + a.bytes;
        if s == 0 {
            untouched += 1;
        }
        codec = codec + s;
        if a.class.is_photo() || a.class.is_video() {
            previewable += 1;
        }
        let r = label_rank_of(a.class);
        let ghost c = a.class;
        assert(class_at(r as int) == c);
        let n = counts[r];
        counts.set(r, n + 1);
        let b = bytes[r];
        bytes.set(r, b + a.bytes);
        let v = saved[r];
        saved.set(r, v + s);
        proof {
            assert forall|j: int| 0 <= j < 12 implies counts@[j] == class_count(post, #[trigger] class_at(j))
                && bytes@[j] == class_bytes(post, class_at(j))
                && saved@[j] == class_saved(post, class_at(j), tier) by {
                if j != r {
                    assert(label_rank(class_at(j)) == j);
                    assert(class_at(j) != c);
                }
            }
        }
        i += 1;
    }
    proof {
        assert(assets@.take(assets.len() as int) =~= assets@);
    }
    let dedup = match exact_dupe_bytes {
        Some(d) => d,
        None => scaled_u64(total, ASSUMED_DEDUP_NUM, ASSUMED_DEDUP_SHIFT),
    };
    let overhead = previewable * (THUMB_BYTES + PREVIEW_BYTES);
    let gross = codec + dedup;
    let net = if gross > overhead {
        gross - overhead
    } else {
        0
    };
    let mut by_class: Vec<(String, ClassRollup)> = Vec::new();
    let mut k: usize = 0;
    while k < CLASS_COUNT
        invariant
            k <= CLASS_COUNT,
            counts.len() == CLASS_COUNT,
            bytes.len() == CLASS_COUNT,
            saved.len() == CLASS_COUNT,
            forall|j: int|
                0 <= j < 12 ==> counts@[j] == class_count(assets@, #[trigger] class_at(j))
                    && bytes@[j] == class_bytes(assets@, class_at(j))
                    && saved@[j] == class_saved(assets@, class_at(j), tier),
            by_class@.map_values(|r: (String, ClassRollup)| row_view(r)) == rollups_upto(
                assets@,
                tier,
                k as nat,
            ),
        decreases CLASS_COUNT - k,
    {
        let n = counts[k];
        let ghost before = by_class@;
        if n > 0 {
            let c = class_in_label_order(k);
            let row = (c.label().to_owned(), ClassRollup { count: n, bytes: bytes[k], saved: saved[k] });
            by_class.push(row);
            assert(by_class@.map_values(|r: (String, ClassRollup)| row_view(r)) =~= before.map_values(
                |r: (String, ClassRollup)| row_view(r),
            ).push(row_view(row)));
        }
        k += 1;
    }
    Estimate {
        tier,
        total_bytes: total,
        codec_saved: codec,
        dedup_saved: dedup,
        overhead_bytes: overhead,
        net_saved: net,
        untouched_count: untouched,
        by_class,
    }
}

// ------------------------------------------------------------------ laws ----

/// Counts, bytes and savings summed over breakdown rows.
pub open spec fn rows_total(rows: Seq<(Seq<char>, nat, nat, nat)>) -> (nat, nat, nat)
    decreases rows.len(),
{
    if rows.len() == 0 {
        (0, 0, 0)
    } else {
        let r = rows_total(rows.drop_last());
        (r.0 + rows.last().1, r.1 + rows.last().2, r.2 + rows.last().3)
    }
}

/// The first `k` classes' shares, summed.
pub open spec fn classes_total(s: Seq<AssetMeta>, t: Tier, k: nat) -> (nat, nat, nat)
    decreases k,
{
    if k == 0 {
        (0, 0, 0)
    } else {
        let r = classes_total(s, t, (k - 1) as nat);
        let c = class_at(k - 1);
        (r.0 + class_count(s, c), r.1 + class_bytes(s, c), r.2 + class_saved(s, c, t))
    }
}

proof fn lemma_absent_class(s: Seq<AssetMeta>, c: AssetClass, t: Tier)
    requires
        class_count(s, c) == 0,
    ensures
        class_bytes(s, c) == 0,
        class_saved(s, c, t) == 0,
    decreases s.len(),
{
    if s.len() > 0 {
        lemma_absent_class(s.drop_last(), c, t);
    }
}

proof fn lemma_rows_are_classes(s: Seq<AssetMeta>, t: Tier, k: nat)
    ensures
        rows_total(rollups_upto(s, t, k)) == classes_total(s, t, k),
    decreases k,
{
    if k > 0 {
        lemma_rows_are_classes(s, t, (k - 1) as nat);
        let c = class_at(k - 1);
        let prev = rollups_upto(s, t, (k - 1) as nat);
        if class_count(s, c) > 0 {
            assert(prev.push(rollup_of(s, t, c)).drop_last() =~= prev);
        } else {
            lemma_absent_class(s, c, t);
        }
    }
}

/// One asset adds to the share of exactly one class: its own.
proof fn lemma_one_more(s: Seq<AssetMeta>, t: Tier, k: nat)
    requires
        s.len() > 0,
        k <= 12,
    ensures
        ({
            let a = s.last();
            let before = classes_total(s.drop_last(), t, k);
            let after = classes_total(s, t, k);
            let hit = label_rank(a.class) < k;
            &&& after.0 == before.0 + if hit {
                1nat
            } else {
                0nat
            }
            &&& after.1 == before.1 + if hit {
                a.bytes as nat
            } else {
                0nat
            }
            &&& after.2 == before.2 + if hit {
                asset_saved(a, t)
            } else {
                0nat
            }
        }),
    decreases k,
{
    lemma_label_order();
    if k > 0 {
        lemma_one_more(s, t, (k - 1) as nat);
    }
}

proof fn lemma_classes_cover(s: Seq<AssetMeta>, t: Tier)
    ensures
        classes_total(s, t, 12) == (s.len(), total_bytes_of(s), codec_saved_of(s, t)),
    decreases s.len(),
{
    lemma_label_order();
    if s.len() == 0 {
        assert(classes_total(s, t, 0) == (0nat, 0nat, 0nat));
        lemma_zero_classes(s, t, 12);
    } else {
        lemma_classes_cover(s.drop_last(), t);
        lemma_one_more(s, t, 12);
    }
}

proof fn lemma_zero_classes(s: Seq<AssetMeta>, t: Tier, k: nat)
    requires
        s.len() == 0,
    ensures
        classes_total(s, t, k) == (0nat, 0nat, 0nat),
    decreases k,
{
    if k > 0 {
        lemma_zero_classes(s, t, (k - 1) as nat);
    }
}

/// The per-class breakdown accounts for the whole library: its rows' counts,
/// bytes and savings add up to the number of assets, the total bytes and
/// the codec savings, each asset counted under its own class alone.
pub proof fn law_breakdown_covers_library(s: Seq<AssetMeta>, t: Tier)
    ensures
        rows_total(rollups(s, t)) == (s.len(), total_bytes_of(s), codec_saved_of(s, t)),
{
    lemma_rows_are_classes(s, t, 12);
    lemma_classes_cover(s, t);
}

/// A ratio below one, with room to spare for two roundings to 53 digits.
pub open spec fn ratio_fits(num: nat, shift: nat) -> bool {
    num * (pow2(53) + 1) * (pow2(53) + 1) <= pow2(shift) * pow2(53) * pow2(53)
}

proof fn lemma_scaled_within(b: nat, num: nat, shift: nat)
    requires
        ratio_fits(num, shift),
    ensures
        scaled(b, num, shift) <= b,
{
    let big = pow2(53);
    let r1 = as_double(b);
    let r2 = as_double(r1 * num);
    lemma_round_to_bits_above(b, 53);
    lemma_round_to_bits_above(r1 * num, 53);
    lemma_pow2_pos(shift);
    lemma_pow2_pos(53);
    assert(r2 * big * big <= b * num * (big + 1) * (big + 1)) by (nonlinear_arith)
        requires
            r1 * big <= b * (big + 1),
            r2 * big <= r1 * num * (big + 1),
            big > 0,
    ;
    assert(r2 <= b * pow2(shift)) by (nonlinear_arith)
        requires
            r2 * big * big <= b * num * (big + 1) * (big + 1),
            num * (big + 1) * (big + 1) <= pow2(shift) * big * big,
            big > 0,
    ;
    assert(r2 / pow2(shift) <= b) by (nonlinear_arith)
        requires
            r2 <= b * pow2(shift),
            pow2(shift) > 0,
    ;
}

/// A ratio of at most nine tenths leaves room for the roundings.
proof fn lemma_fits_from_tenths(num: nat, shift: nat)
    requires
        num * 10 <= pow2(shift) * 9,
    ensures
        ratio_fits(num, shift),
{
    vstd::arithmetic::power2::lemma2_to64_rest();
    let big = pow2(53);
    assert(big == 0x20_0000_0000_0000);
    assert(9 * (big + 1) * (big + 1) <= 10 * big * big) by (nonlinear_arith)
        requires
            big == 0x20_0000_0000_0000,
    ;
    assert(num * (big + 1) * (big + 1) <= pow2(shift) * big * big) by (nonlinear_arith)
        requires
            num * 10 <= pow2(shift) * 9,
            9 * (big + 1) * (big + 1) <= 10 * big * big,
    ;
}

/// Every ratio in the table leaves room for the roundings.
proof fn lemma_ratios_fit(c: AssetClass, t: Tier)
    ensures
        ratio_fits(ratio_of(c, t).0, ratio_of(c, t).1),
        ratio_fits(ASSUMED_DEDUP_NUM as nat, ASSUMED_DEDUP_SHIFT as nat),
{
    vstd::arithmetic::power2::lemma2_to64();
    let (num, shift) = ratio_of(c, t);
    assert(num * 10 <= pow2(shift) * 9);
    lemma_fits_from_tenths(num, shift);
    lemma_fits_from_tenths(ASSUMED_DEDUP_NUM as nat, ASSUMED_DEDUP_SHIFT as nat);
}

/// An estimate never promises more than an asset holds: its expected saving
/// is at most its size, and so a library's codec savings are at most its
/// total, and the assumed dedup yield too.
pub proof fn law_savings_within_size(s: Seq<AssetMeta>, t: Tier)
    ensures
        forall|i: int| 0 <= i < s.len() ==> asset_saved(#[trigger] s[i], t) <= s[i].bytes,
        codec_saved_of(s, t) <= total_bytes_of(s),
        dedup_of(s, None) <= total_bytes_of(s),
    decreases s.len(),
{
    assert forall|i: int| 0 <= i < s.len() implies asset_saved(#[trigger] s[i], t) <= s[i].bytes by {
        lemma_ratios_fit(s[i].class, t);
        lemma_scaled_within(s[i].bytes as nat, ratio_of(s[i].class, t).0, ratio_of(s[i].class, t).1);
    }
    lemma_ratios_fit(AssetClass::Other, t);
    lemma_scaled_within(total_bytes_of(s), ASSUMED_DEDUP_NUM as nat, ASSUMED_DEDUP_SHIFT as nat);
    if s.len() > 0 {
        law_savings_within_size(s.drop_last(), t);
        assert(s.last() == s[s.len() - 1]);
    }
}

/// `(a * c) / (b * c)` is `a / b`.
proof fn lemma_div_cancel(a: nat, b: nat, c: nat)
    requires
        b > 0,
        c > 0,
    ensures
        (a * c) / (b * c) == a / b,
{
    vstd::arithmetic::div_mod::lemma_fundamental_div_mod(a as int, b as int);
    let q = a / b;
    let r = a % b;
    assert(a * c == q * (b * c) + r * c) by (nonlinear_arith)
        requires
            a == b * q + r,
    ;
    assert(r * c < b * c) by (nonlinear_arith)
        requires
            r < b,
            c > 0,
    ;
    assert(b * c > 0) by (nonlinear_arith)
        requires
            b > 0,
            c > 0,
    ;
    vstd::arithmetic::div_mod::lemma_fundamental_div_mod_converse(
        (a * c) as int,
        (b * c) as int,
        q as int,
        (r * c) as int,
    );
}

/// A larger ratio never estimates a smaller saving.
proof fn lemma_scaled_monotone(b: nat, n1: nat, s1: nat, n2: nat, s2: nat)
    requires
        n1 * pow2(s2) <= n2 * pow2(s1),
    ensures
        scaled(b, n1, s1) <= scaled(b, n2, s2),
{
    let r1 = as_double(b);
    lemma_pow2_pos(s1);
    lemma_pow2_pos(s2);
    vstd::arithmetic::power2::lemma_pow2_adds(s1, s2);
    let whole = pow2(s1 + s2);
    crate::rounding::lemma_round_to_bits_scale(r1 * n1, s2, 53);
    crate::rounding::lemma_round_to_bits_scale(r1 * n2, s1, 53);
    let a = as_double(r1 * n1);
    let c = as_double(r1 * n2);
    assert(r1 * n1 * pow2(s2) <= r1 * n2 * pow2(s1)) by (nonlinear_arith)
        requires
            n1 * pow2(s2) <= n2 * pow2(s1),
    ;
    crate::rounding::lemma_round_to_bits_monotone(r1 * n1 * pow2(s2), r1 * n2 * pow2(s1), 53);
    assert(a * pow2(s2) <= c * pow2(s1));
    lemma_div_cancel(a, pow2(s1), pow2(s2));
    lemma_div_cancel(c, pow2(s2), pow2(s1));
    assert(pow2(s1) * pow2(s2) == pow2(s2) * pow2(s1)) by (nonlinear_arith);
    assert(pow2(s1) * pow2(s2) > 0) by (nonlinear_arith)
        requires
            pow2(s1) > 0,
            pow2(s2) > 0,
    ;
    vstd::arithmetic::div_mod::lemma_div_is_ordered(
        (a * pow2(s2)) as int,
        (c * pow2(s1)) as int,
        (pow2(s1) * pow2(s2)) as int,
    );
}

/// Within each class the ratios grow with the tier.
proof fn lemma_ratios_grow(c: AssetClass)
    ensures
        ratio_of(c, Tier::Move).0 * pow2(ratio_of(c, Tier::DeepMove).1) <= ratio_of(c, Tier::DeepMove).0
            * pow2(ratio_of(c, Tier::Move).1),
        ratio_of(c, Tier::DeepMove).0 * pow2(ratio_of(c, Tier::DeepMovePlus).1) <= ratio_of(
            c,
            Tier::DeepMovePlus,
        ).0 * pow2(ratio_of(c, Tier::DeepMove).1),
{
    vstd::arithmetic::power2::lemma2_to64();
    match c {
        AssetClass::Jpeg => {
            assert(14092861 * pow2(1) <= 1 * pow2(26));
            assert(1 * pow2(24) <= 11744051 * pow2(1));
        },
        AssetClass::Png => {
            assert(13421773 * pow2(23) <= 7130317 * pow2(24));
        },
        AssetClass::VideoHevc => {
            assert(13421773 * pow2(25) <= 13421773 * pow2(27));
        },
        AssetClass::AudioLossless => {
            assert(7549747 * pow2(23) <= 5033165 * pow2(24));
        },
        _ => {},
    }
}

pub open spec fn tier_rank(t: Tier) -> int {
    match t {
        Tier::Move => 0,
        Tier::DeepMove => 1,
        Tier::DeepMovePlus => 2,
    }
}

/// Each tier gives up more than the one before it, and for that the
/// estimate never promises less: every asset's expected saving, and so a
/// library's codec savings, grow with the tier.
pub proof fn law_deeper_tiers_save_more(s: Seq<AssetMeta>, a: Tier, b: Tier)
    requires
        tier_rank(a) <= tier_rank(b),
    ensures
        forall|i: int| 0 <= i < s.len() ==> asset_saved(#[trigger] s[i], a) <= asset_saved(s[i], b),
        codec_saved_of(s, a) <= codec_saved_of(s, b),
    decreases s.len(),
{
    assert forall|i: int| 0 <= i < s.len() implies asset_saved(#[trigger] s[i], a) <= asset_saved(
        s[i],
        b,
    ) by {
        let c = s[i].class;
        let bytes = s[i].bytes as nat;
        lemma_ratios_grow(c);
        let (n0, s0) = ratio_of(c, Tier::Move);
        let (n1, s1) = ratio_of(c, Tier::DeepMove);
        let (n2, s2) = ratio_of(c, Tier::DeepMovePlus);
        lemma_scaled_monotone(bytes, n0, s0, n1, s1);
        lemma_scaled_monotone(bytes, n1, s1, n2, s2);
    }
    if s.len() > 0 {
        law_deeper_tiers_save_more(s.drop_last(), a, b);
        assert(s.last() == s[s.len() - 1]);
    }
}

/// What the user gets back grows with the tier too: dedup and overhead do
/// not depend on it, so the net follows the codec savings.
pub proof fn law_deeper_tiers_net_more(s: Seq<AssetMeta>, a: Tier, b: Tier, exact: Option<u64>)
    requires
        tier_rank(a) <= tier_rank(b),
    ensures
        net_of(s, a, exact) <= net_of(s, b, exact),
{
    law_deeper_tiers_save_more(s, a, b);
}

/// Every photo and every video costs the vault one thumbnail and one
/// full-screen preview, and nothing else does: adding a JPEG, PNG, HEIC or
/// any of the four video classes to a library adds exactly
/// `THUMB_BYTES + PREVIEW_BYTES` to the overhead, and adding RAW, audio, a
/// document or anything else adds none.
pub proof fn law_previews_cost_photos_and_videos(s: Seq<AssetMeta>, a: AssetMeta)
    ensures
        ({
            let c = a.class;
            let shown = c == AssetClass::Jpeg || c == AssetClass::Png || c == AssetClass::Heic || c
                == AssetClass::VideoH264 || c == AssetClass::VideoHevc || c == AssetClass::VideoAv1
                || c == AssetClass::VideoOther;
            overhead_of(s.push(a)) == overhead_of(s) + if shown {
                (THUMB_BYTES + PREVIEW_BYTES) as nat
            } else {
                0nat
            }
        }),
{
    assert(s.push(a).drop_last() =~= s);
    let p = previewable_of(s);
    assert((p + 1) * ((THUMB_BYTES + PREVIEW_BYTES) as nat) == p * ((THUMB_BYTES + PREVIEW_BYTES) as nat)
        + (THUMB_BYTES + PREVIEW_BYTES) as nat) by (nonlinear_arith);
}

/// Nor does a deeper tier ever leave more assets untouched: an asset on
/// which a tier expects to save something keeps that expectation deeper down.
pub proof fn law_deeper_tiers_leave_fewer_untouched(s: Seq<AssetMeta>, a: Tier, b: Tier)
    requires
        tier_rank(a) <= tier_rank(b),
    ensures
        untouched_of(s, b) <= untouched_of(s, a),
    decreases s.len(),
{
    if s.len() > 0 {
        law_deeper_tiers_save_more(s, a, b);
        law_deeper_tiers_leave_fewer_untouched(s.drop_last(), a, b);
        assert(s.last() == s[s.len() - 1]);
    }
}

} // verus!
