//! The integer rules of a measurement report: the totals and per-class
//! rows, exact whole-file dedup, and when a codec's row may be called
//! verified.

use vstd::prelude::*;

use crate::text::{chars_of, string_of};

use crate::classify::{class_label, AssetClass, AssetMeta};
use crate::estimate::{
    class_at, class_bytes, class_count, class_in_label_order, label_rank, label_rank_of,
    law_breakdown_covers_library, lemma_class_sums, lemma_label_order, lemma_prefix_sums, rollups,
    rollups_upto, rows_total, total_bytes_of, CLASS_COUNT,
};
use crate::tier::Tier;

verus! {

pub open spec fn hash_views(h: Seq<String>) -> Seq<Seq<char>> {
    h.map_values(|s: String| s@)
}

/// Files whose hash already occurred earlier in the run.
pub open spec fn dupe_files_of(h: Seq<Seq<char>>) -> nat
    decreases h.len(),
{
    if h.len() == 0 {
        0
    } else {
        dupe_files_of(h.drop_last()) + if h.drop_last().contains(h.last()) {
            1nat
        } else {
            0nat
        }
    }
}

/// Bytes of the files whose hash already occurred earlier in the run.
pub open spec fn dupe_bytes_of(h: Seq<Seq<char>>, b: Seq<u64>) -> nat
    decreases h.len(),
{
    if h.len() == 0 || b.len() == 0 {
        0
    } else {
        dupe_bytes_of(h.drop_last(), b.drop_last()) + if h.drop_last().contains(h.last()) {
            b.last() as nat
        } else {
            0nat
        }
    }
}

pub open spec fn bytes_total(b: Seq<u64>) -> nat
    decreases b.len(),
{
    if b.len() == 0 {
        0
    } else {
        bytes_total(b.drop_last()) + b.last() as nat
    }
}

/// Bytes and files recoverable by whole-file dedup alone.
#[derive(Debug, Clone, Copy, PartialEq, Eq, Structural)]
pub struct DupeTally {
    pub files: usize,
    pub bytes: u64,
}

proof fn lemma_dupe_bytes_bounded(h: Seq<Seq<char>>, b: Seq<u64>)
    requires
        h.len() == b.len(),
    ensures
        dupe_bytes_of(h, b) <= bytes_total(b),
        dupe_files_of(h) <= h.len(),
    decreases h.len(),
{
    if h.len() > 0 {
        lemma_dupe_bytes_bounded(h.drop_last(), b.drop_last());
    }
}

proof fn lemma_total_prefix(b: Seq<u64>, i: int)
    requires
        0 <= i <= b.len(),
    ensures
        bytes_total(b.take(i)) <= bytes_total(b),
    decreases b.len(),
{
    if i < b.len() {
        assert(b.drop_last().take(i) =~= b.take(i));
        lemma_total_prefix(b.drop_last(), i);
    } else {
        assert(b.take(i) =~= b);
    }
}

/// Whole-file dedup over a run, file by file: the hash of each and its
/// size. Every occurrence of a hash after the first is recoverable.
pub fn exact_dupes(hashes: &[String], sizes: &[u64]) -> (r: DupeTally)
    requires
        hashes.len() == sizes.len(),
        bytes_total(sizes@) <= u64::MAX,
    ensures
        r.files == dupe_files_of(hash_views(hashes@)),
        r.bytes == dupe_bytes_of(hash_views(hashes@), sizes@),
{
    let ghost h = hash_views(hashes@);
    let mut files: usize = 0;
    let mut bytes: u64 = 0;
    let mut i: usize = 0;
    proof {
        assert(h.take(0) =~= Seq::<Seq<char>>::empty());
    }
    while i < hashes.len()
        invariant
            i <= hashes.len() == sizes.len(),
            h == hash_views(hashes@),
            bytes_total(sizes@) <= u64::MAX,
            files == dupe_files_of(h.take(i as int)),
            bytes == dupe_bytes_of(h.take(i as int), sizes@.take(i as int)),
        decreases hashes.len() - i,
    {
        let mut seen = false;
        let mut j: usize = 0;
        while j < i
            invariant
                j <= i < hashes.len(),
                h == hash_views(hashes@),
                seen == h.take(j as int).contains(h[i as int]),
            decreases i - j,
        {
            let ghost before = h.take(j as int);
            if hashes[j] == hashes[i] {
                seen = true;
            }
            proof {
                let t = h.take(j + 1);
                let x = h[i as int];
                assert(t =~= before.push(h[j as int]));
                assert(hashes@[j as int]@ == h[j as int]);
                assert(hashes@[i as int]@ == x);
                if h[j as int] == x {
                    assert(t[j as int] == x);
                }
                if t.contains(x) && h[j as int] != x {
                    let k = choose|k: int| 0 <= k < t.len() && #[trigger] t[k] == x;
                    assert(before[k] == x);
                }
                if before.contains(x) {
                    let k = choose|k: int| 0 <= k < before.len() && #[trigger] before[k] == x;
                    assert(t[k] == x);
                }
            }
            j += 1;
        }
        let ghost pre = h.take(i as int);
        let ghost post = h.take(i + 1);
        proof {
            assert(post.drop_last() =~= pre);
            assert(post.last() == h[i as int]);
            assert(sizes@.take(i + 1).drop_last() =~= sizes@.take(i as int));
            lemma_dupe_bytes_bounded(post, sizes@.take(i + 1));
            lemma_total_prefix(sizes@, i + 1);
        }
        if seen {
            files = files + 1;
            bytes = bytes + sizes[i];
        }
        i += 1;
    }
    proof {
        assert(h.take(hashes.len() as int) =~= h);
        assert(sizes@.take(sizes.len() as int) =~= sizes@);
    }
    DupeTally { files, bytes }
}

/// Every file but the first of each distinct content is a duplicate: the
/// duplicates and the distinct hashes together account for every file.
pub proof fn law_dupes_are_repeats(h: Seq<Seq<char>>)
    ensures
        dupe_files_of(h) + h.to_set().len() == h.len(),
    decreases h.len(),
{
    if h.len() > 0 {
        let front = h.drop_last();
        law_dupes_are_repeats(front);
        assert(h =~= front.push(h.last()));
        front.lemma_push_to_set_commute(h.last());
        vstd::seq_lib::seq_to_set_is_finite(front);
        vstd::set::axiom_set_insert_len(front.to_set(), h.last());
        assert(front.to_set().contains(h.last()) == front.contains(h.last()));
    } else {
        assert(h.to_set() =~= Set::<Seq<char>>::empty());
    }
}

/// One codec's run over one file, as a row of the report counts it.
#[derive(Debug, Clone, Copy, PartialEq, Eq, Structural)]
pub struct CodecRun {
    /// The run ended in an error.
    pub failed: bool,
    /// The codec claims byte- or pixel-exact reconstruction.
    pub lossless: bool,
    pub in_bytes: u64,
    pub out_bytes: u64,
    pub encode_ms: u128,
    /// A decode and byte-compare ran and found a difference.
    pub roundtrip_failed: bool,
    /// A perceptual score was taken.
    pub scored: bool,
}

/// One codec's row of a report, over every file it ran on.
#[derive(Debug, Clone, Copy, PartialEq, Eq, Structural)]
pub struct CodecTally {
    pub files: usize,
    pub lossless: bool,
    pub in_bytes: u64,
    pub out_bytes: u64,
    pub encode_ms: u128,
    pub roundtrip_failures: usize,
    pub errors: usize,
    /// Files on which a perceptual score was taken. Fewer than `files` means
    /// some of the row's ratio is unqualified.
    pub quality_scored: usize,
}

/// The row after one more run: an error is counted and nothing else; any
/// other run adds a file, its sizes and time, a failed roundtrip or a score,
/// and says whether the codec is lossless.
pub open spec fn tally_step(t: CodecTally, r: CodecRun) -> CodecTally {
    if r.failed {
        CodecTally { errors: (t.errors + 1) as usize, ..t }
    } else {
        CodecTally {
            files: (t.files + 1) as usize,
            lossless: r.lossless,
            in_bytes: (t.in_bytes + r.in_bytes) as u64,
            out_bytes: (t.out_bytes + r.out_bytes) as u64,
            encode_ms: (t.encode_ms + r.encode_ms) as u128,
            roundtrip_failures: (t.roundtrip_failures + if r.roundtrip_failed {
                1int
            } else {
                0int
            }) as usize,
            errors: t.errors,
            quality_scored: (t.quality_scored + if r.scored {
                1int
            } else {
                0int
            }) as usize,
        }
    }
}

/// Whether one more run still fits the row's counters.
pub open spec fn step_fits(t: CodecTally, r: CodecRun) -> bool {
    if r.failed {
        t.errors < usize::MAX
    } else {
        &&& t.files < usize::MAX
        &&& t.in_bytes + r.in_bytes <= u64::MAX
        &&& t.out_bytes + r.out_bytes <= u64::MAX
        &&& t.encode_ms + r.encode_ms <= u128::MAX
        &&& t.roundtrip_failures < usize::MAX
        &&& t.quality_scored < usize::MAX
    }
}

/// Whether a codec's row is quality-verified end to end: a lossless codec
/// with a clean roundtrip on every file and no error, or a lossy codec
/// scored on every file, and on at least one.
pub open spec fn row_verified(t: CodecTally) -> bool {
    if t.lossless {
        t.roundtrip_failures == 0 && t.errors == 0
    } else {
        t.quality_scored == t.files && t.files > 0
    }
}

impl CodecTally {
    /// A row with nothing counted yet.
    pub fn new() -> (t: CodecTally)
        ensures
            t == (CodecTally {
                files: 0,
                lossless: false,
                in_bytes: 0,
                out_bytes: 0,
                encode_ms: 0,
                roundtrip_failures: 0,
                errors: 0,
                quality_scored: 0,
            }),
    {
        CodecTally {
            files: 0,
            lossless: false,
            in_bytes: 0,
            out_bytes: 0,
            encode_ms: 0,
            roundtrip_failures: 0,
            errors: 0,
            quality_scored: 0,
        }
    }

    /// Whether `run` can be counted without a counter overflowing.
    pub fn fits(&self, run: &CodecRun) -> (b: bool)
        ensures
            b == step_fits(*self, *run),
    {
        if run.failed {
            self.errors < usize::MAX
        } else {
            self.files < usize::MAX && self.in_bytes <= u64::MAX - run.in_bytes && self.out_bytes
                <= u64::MAX - run.out_bytes && self.encode_ms <= u128::MAX - run.encode_ms
                && self.roundtrip_failures < usize::MAX && self.quality_scored < usize::MAX
        }
    }

    /// Count one more run.
    pub fn add(&mut self, run: &CodecRun)
        requires
            step_fits(*old(self), *run),
        ensures
            *final(self) == tally_step(*old(self), *run),
    {
        if run.failed {
            self.errors = self.errors + 1;
        } else {
            self.files = self.files + 1;
            self.lossless = run.lossless;
            self.in_bytes = self.in_bytes + run.in_bytes;
            self.out_bytes = self.out_bytes + run.out_bytes;
            self.encode_ms = self.encode_ms + run.encode_ms;
            if run.roundtrip_failed {
                self.roundtrip_failures = self.roundtrip_failures + 1;
            }
            if run.scored {
                self.quality_scored = self.quality_scored + 1;
            }
        }
    }

    /// True when this row's savings are quality-verified end to end.
    pub fn verified(&self) -> (r: bool)
        ensures
            r == row_verified(*self),
    {
        if self.lossless {
            self.roundtrip_failures == 0 && self.errors == 0
        } else {
            self.quality_scored == self.files && self.files > 0
        }
    }
}

/// A row is never called verified past a failure it counts: once a
/// lossless row has counted an error or a failed roundtrip it is not
/// verified, and a lossy row that counts an unscored file is not either.
/// Counting keeps the scored files among the files counted.
pub proof fn law_verified_past_no_failure(t: CodecTally, r: CodecRun)
    requires
        step_fits(t, r),
        t.quality_scored <= t.files,
    ensures
        ({
            let u = tally_step(t, r);
            &&& (u.lossless && (r.failed || r.roundtrip_failed)) ==> !row_verified(u)
            &&& (!r.failed && !r.lossless && !r.scored) ==> !row_verified(u)
            &&& u.quality_scored <= u.files
        }),
{
}

// ------------------------------------------------------------ by class ----

/// One row of a report's per-class breakdown: label, files, bytes.
pub open spec fn class_row(s: Seq<AssetMeta>, c: AssetClass) -> (Seq<char>, nat, nat) {
    (class_label(c), class_count(s, c), class_bytes(s, c))
}

/// The rows of the first `k` classes in label order, leaving out classes
/// with no file.
pub open spec fn class_rows_upto(s: Seq<AssetMeta>, k: nat) -> Seq<(Seq<char>, nat, nat)>
    decreases k,
{
    if k == 0 {
        Seq::empty()
    } else {
        let prev = class_rows_upto(s, (k - 1) as nat);
        let c = class_at(k - 1);
        if class_count(s, c) > 0 {
            prev.push(class_row(s, c))
        } else {
            prev
        }
    }
}

/// The per-class breakdown, keyed and ordered by label.
pub open spec fn class_rows(s: Seq<AssetMeta>) -> Seq<(Seq<char>, nat, nat)> {
    class_rows_upto(s, CLASS_COUNT as nat)
}

/// A report's file count, byte total, and per-class files and bytes.
#[derive(Debug, Clone)]
pub struct FileTotals {
    pub files: usize,
    pub total_bytes: u64,
    /// Label, files, bytes; ordered by label, and a class with no file has
    /// no row.
    pub by_class: Vec<(String, usize, u64)>,
}

/// A breakdown row as the contracts read it.
pub open spec fn class_row_view(r: (String, usize, u64)) -> (Seq<char>, nat, nat) {
    (r.0@, r.1 as nat, r.2 as nat)
}

/// Count the files and their bytes, in all and per class. The byte total
/// must fit in a `u64`.
pub fn file_totals(files: &[AssetMeta]) -> (t: FileTotals)
    requires
        total_bytes_of(files@) <= u64::MAX,
    ensures
        t.files == files.len(),
        t.total_bytes == total_bytes_of(files@),
        t.by_class@.map_values(|r: (String, usize, u64)| class_row_view(r)) == class_rows(files@),
{
    let mut counts: Vec<usize> = Vec::new();
    let mut bytes: Vec<u64> = Vec::new();
    let mut k: usize = 0;
    while k < CLASS_COUNT
        invariant
            k <= CLASS_COUNT,
            counts.len() == k,
            bytes.len() == k,
            forall|j: int| 0 <= j < k ==> counts@[j] == 0 && bytes@[j] == 0,
        decreases CLASS_COUNT - k,
    {
        counts.push(0);
        bytes.push(0);
        k += 1;
    }
    proof {
        lemma_label_order();
        assert(files@.take(0) =~= Seq::<AssetMeta>::empty());
    }
    let mut total: u64 = 0;
    let mut i: usize = 0;
    while i < files.len()
        invariant
            i <= files.len(),
            total_bytes_of(files@) <= u64::MAX,
            total == total_bytes_of(files@.take(i as int)),
            counts.len() == CLASS_COUNT,
            bytes.len() == CLASS_COUNT,
            forall|j: int|
                0 <= j < 12 ==> counts@[j] == class_count(files@.take(i as int), #[trigger] class_at(j))
                    && bytes@[j] == class_bytes(files@.take(i as int), class_at(j)),
            forall|k: int| 0 <= k < 12 ==> label_rank(#[trigger] class_at(k)) == k,
        decreases files.len() - i,
    {
        let a = &files[i];
        let ghost pre = files@.take(i as int);
        let ghost post = files@.take(i + 1);
        proof {
            assert(post.drop_last() =~= pre);
            assert(post.last() == *a);
            lemma_prefix_sums(files@, i + 1, Tier::Move);
            lemma_class_sums(pre, a.class, Tier::Move);
            lemma_class_sums(post, a.class, Tier::Move);
        }
        total = total + a.bytes;
        let r = label_rank_of(a.class);
        let ghost c = a.class;
        assert(class_at(r as int) == c);
        let n = counts[r];
        counts.set(r, n + 1);
        let b = bytes[r];
        bytes.set(r, b + a.bytes);
        proof {
            assert forall|j: int| 0 <= j < 12 implies counts@[j] == class_count(post, #[trigger] class_at(j))
                && bytes@[j] == class_bytes(post, class_at(j)) by {
                if j != r {
                    assert(label_rank(class_at(j)) == j);
                    assert(class_at(j) != c);
                }
            }
        }
        i += 1;
    }
    proof {
        assert(files@.take(files.len() as int) =~= files@);
    }
    let mut by_class: Vec<(String, usize, u64)> = Vec::new();
    let mut k: usize = 0;
    while k < CLASS_COUNT
        invariant
            k <= CLASS_COUNT,
            counts.len() == CLASS_COUNT,
            bytes.len() == CLASS_COUNT,
            forall|j: int|
                0 <= j < 12 ==> counts@[j] == class_count(files@, #[trigger] class_at(j))
                    && bytes@[j] == class_bytes(files@, class_at(j)),
            by_class@.map_values(|r: (String, usize, u64)| class_row_view(r)) == class_rows_upto(
                files@,
                k as nat,
            ),
        decreases CLASS_COUNT - k,
    {
        let n = counts[k];
        let ghost before = by_class@;
        if n > 0 {
            let c = class_in_label_order(k);
            let row = (c.label().to_owned(), n, bytes[k]);
            by_class.push(row);
            assert(by_class@.map_values(|r: (String, usize, u64)| class_row_view(r)) =~= before.map_values(
                |r: (String, usize, u64)| class_row_view(r),
            ).push(class_row_view(row)));
        }
        k += 1;
    }
    FileTotals { files: files.len(), total_bytes: total, by_class }
}

/// Files and bytes summed over breakdown rows.
pub open spec fn class_rows_total(rows: Seq<(Seq<char>, nat, nat)>) -> (nat, nat)
    decreases rows.len(),
{
    if rows.len() == 0 {
        (0, 0)
    } else {
        let r = class_rows_total(rows.drop_last());
        (r.0 + rows.last().1, r.1 + rows.last().2)
    }
}

/// A report's rows are the estimate's breakdown rows without the savings.
proof fn lemma_rows_match_breakdown(s: Seq<AssetMeta>, k: nat)
    ensures
        class_rows_upto(s, k).len() == rollups_upto(s, Tier::Move, k).len(),
        class_rows_total(class_rows_upto(s, k)) == (
            rows_total(rollups_upto(s, Tier::Move, k)).0,
            rows_total(rollups_upto(s, Tier::Move, k)).1,
        ),
    decreases k,
{
    if k > 0 {
        lemma_rows_match_breakdown(s, (k - 1) as nat);
        let c = class_at(k - 1);
        if class_count(s, c) > 0 {
            let a = class_rows_upto(s, (k - 1) as nat);
            let b = rollups_upto(s, Tier::Move, (k - 1) as nat);
            assert(a.push(class_row(s, c)).drop_last() =~= a);
            assert(b.push(crate::estimate::rollup_of(s, Tier::Move, c)).drop_last() =~= b);
        }
    }
}

/// A report's per-class rows account for every file and every byte, each
/// under its own class alone.
pub proof fn law_class_rows_cover_the_files(s: Seq<AssetMeta>)
    ensures
        class_rows_total(class_rows(s)) == (s.len(), total_bytes_of(s)),
{
    lemma_rows_match_breakdown(s, CLASS_COUNT as nat);
    law_breakdown_covers_library(s, Tier::Move);
}

// ------------------------------------------------------------ by codec ----

/// One codec run of a report, with the class label and the codec name it
/// is grouped under.
#[derive(Debug, Clone)]
pub struct LabelledRun {
    pub label: String,
    pub codec: String,
    pub run: CodecRun,
}

/// The key a run is grouped under, `<class>/<codec>`, so that JPEG-Lepton
/// and PNG-oxipng stay separate.
pub open spec fn run_key(label: Seq<char>, codec: Seq<char>) -> Seq<char> {
    label + seq!['/'] + codec
}

/// The runs as keys and counts.
pub open spec fn keyed_runs(rows: Seq<LabelledRun>) -> Seq<(Seq<char>, CodecRun)> {
    rows.map_values(|r: LabelledRun| (run_key(r.label@, r.codec@), r.run))
}

pub open spec fn keys_of(rows: Seq<(Seq<char>, CodecRun)>) -> Seq<Seq<char>> {
    rows.map_values(|r: (Seq<char>, CodecRun)| r.0)
}

/// A row with nothing counted.
pub open spec fn empty_tally() -> CodecTally {
    CodecTally {
        files: 0,
        lossless: false,
        in_bytes: 0,
        out_bytes: 0,
        encode_ms: 0,
        roundtrip_failures: 0,
        errors: 0,
        quality_scored: 0,
    }
}

/// The row of one key: every run under it counted, in order.
pub open spec fn tally_for(rows: Seq<(Seq<char>, CodecRun)>, key: Seq<char>) -> CodecTally
    decreases rows.len(),
{
    if rows.len() == 0 {
        empty_tally()
    } else {
        let t = tally_for(rows.drop_last(), key);
        if rows.last().0 == key {
            tally_step(t, rows.last().1)
        } else {
            t
        }
    }
}

/// Whether every run can be counted into its row without a counter
/// overflowing.
pub open spec fn tallies_fit(rows: Seq<(Seq<char>, CodecRun)>) -> bool
    decreases rows.len(),
{
    if rows.len() == 0 {
        true
    } else {
        tallies_fit(rows.drop_last()) && step_fits(tally_for(rows.drop_last(), rows.last().0), rows.last().1)
    }
}

/// The order of `String` keys: character by character by code point, a
/// proper prefix first. UTF-8 keeps code-point order, so this is the order
/// of the keys' bytes too.
pub open spec fn key_less(a: Seq<char>, b: Seq<char>) -> bool
    decreases a.len(),
{
    if a.len() == 0 {
        b.len() > 0
    } else if b.len() == 0 {
        false
    } else if a[0] != b[0] {
        a[0] < b[0]
    } else {
        key_less(a.drop_first(), b.drop_first())
    }
}

proof fn lemma_key_irreflexive(a: Seq<char>)
    ensures
        !key_less(a, a),
    decreases a.len(),
{
    if a.len() > 0 {
        lemma_key_irreflexive(a.drop_first());
    }
}

proof fn lemma_key_total(a: Seq<char>, b: Seq<char>)
    ensures
        a == b || key_less(a, b) || key_less(b, a),
    decreases a.len(),
{
    if a.len() > 0 && b.len() > 0 && a[0] == b[0] {
        lemma_key_total(a.drop_first(), b.drop_first());
        if a.drop_first() == b.drop_first() {
            assert(a =~= seq![a[0]] + a.drop_first());
            assert(b =~= seq![b[0]] + b.drop_first());
        }
    } else if a.len() == 0 && b.len() == 0 {
        assert(a =~= b);
    }
}

proof fn lemma_key_transitive(a: Seq<char>, b: Seq<char>, c: Seq<char>)
    requires
        key_less(a, b),
        key_less(b, c),
    ensures
        key_less(a, c),
    decreases a.len(),
{
    if a.len() > 0 && a[0] == b[0] && b[0] == c[0] {
        lemma_key_transitive(a.drop_first(), b.drop_first(), c.drop_first());
    }
}

proof fn lemma_key_asymmetric(a: Seq<char>, b: Seq<char>)
    requires
        key_less(a, b),
    ensures
        !key_less(b, a),
        a != b,
{
    lemma_key_irreflexive(a);
    if key_less(b, a) {
        lemma_key_transitive(a, b, a);
    }
}

/// Whether two keys are equal.
fn chars_equal(a: &[char], b: &[char]) -> (r: bool)
    ensures
        r == (a@ == b@),
{
    if a.len() != b.len() {
        return false;
    }
    let mut i: usize = 0;
    while i < a.len()
        invariant
            i <= a.len(),
            a.len() == b.len(),
            forall|j: int| 0 <= j < i ==> a@[j] == b@[j],
        decreases a.len() - i,
    {
        if a[i] != b[i] {
            return false;
        }
        i += 1;
    }
    assert(a@ =~= b@);
    true
}

/// Whether key `a` comes before key `b`.
fn chars_less(a: &[char], b: &[char]) -> (r: bool)
    ensures
        r == key_less(a@, b@),
{
    let mut i: usize = 0;
    assert(a@.skip(0) =~= a@);
    assert(b@.skip(0) =~= b@);
    while i < a.len() && i < b.len()
        invariant
            i <= a.len(),
            i <= b.len(),
            key_less(a@, b@) == key_less(a@.skip(i as int), b@.skip(i as int)),
        decreases a.len() - i,
    {
        if a[i] != b[i] {
            assert(a@.skip(i as int)[0] == a@[i as int]);
            assert(b@.skip(i as int)[0] == b@[i as int]);
            return a[i] < b[i];
        }
        assert(a@.skip(i as int).drop_first() =~= a@.skip(i + 1));
        assert(b@.skip(i as int).drop_first() =~= b@.skip(i + 1));
        i += 1;
    }
    i < b.len()
}

proof fn lemma_contains_push(s: Seq<Seq<char>>, e: Seq<char>, y: Seq<char>)
    ensures
        s.push(e).contains(y) == (s.contains(y) || y == e),
{
    if s.contains(y) {
        let w = choose|w: int| 0 <= w < s.len() && s[w] == y;
        assert(s.push(e)[w] == y);
    }
    if y == e {
        assert(s.push(e)[s.len() as int] == y);
    }
    if s.push(e).contains(y) {
        let w = choose|w: int| 0 <= w < s.push(e).len() && s.push(e)[w] == y;
        if w < s.len() {
            assert(s[w] == y);
        }
    }
}

proof fn lemma_contains_insert(s: Seq<Seq<char>>, q: int, e: Seq<char>, y: Seq<char>)
    requires
        0 <= q <= s.len(),
    ensures
        s.insert(q, e).contains(y) == (s.contains(y) || y == e),
{
    let t = s.insert(q, e);
    if s.contains(y) {
        let w = choose|w: int| 0 <= w < s.len() && s[w] == y;
        if w < q {
            assert(t[w] == y);
        } else {
            assert(t[w + 1] == y);
        }
    }
    if y == e {
        assert(t[q] == y);
    }
    if t.contains(y) {
        let w = choose|w: int| 0 <= w < t.len() && t[w] == y;
        if w < q {
            assert(s[w] == y);
        } else if w > q {
            assert(s[w - 1] == y);
        }
    }
}

/// A key no run has counts nothing.
proof fn lemma_absent_key(rows: Seq<(Seq<char>, CodecRun)>, key: Seq<char>)
    requires
        !keys_of(rows).contains(key),
    ensures
        tally_for(rows, key) == empty_tally(),
    decreases rows.len(),
{
    if rows.len() > 0 {
        assert(keys_of(rows.drop_last()) =~= keys_of(rows).drop_last());
        if keys_of(rows.drop_last()).contains(key) {
            let w = choose|w: int| 0 <= w < keys_of(rows.drop_last()).len() && keys_of(rows.drop_last())[w] == key;
            assert(keys_of(rows)[w] == key);
        }
        assert(keys_of(rows)[rows.len() - 1] == rows.last().0);
        lemma_absent_key(rows.drop_last(), key);
    }
}

/// Runs that all fit still fit when cut short.
proof fn lemma_fit_prefix(rows: Seq<(Seq<char>, CodecRun)>, k: int)
    requires
        0 <= k <= rows.len(),
        tallies_fit(rows),
    ensures
        tallies_fit(rows.take(k)),
    decreases rows.len(),
{
    if k < rows.len() {
        assert(rows.drop_last().take(k) =~= rows.take(k));
        lemma_fit_prefix(rows.drop_last(), k);
    } else {
        assert(rows.take(k) =~= rows);
    }
}

pub open spec fn key_views(keys: Seq<Vec<char>>) -> Seq<Seq<char>> {
    keys.map_values(|k: Vec<char>| k@)
}

pub open spec fn rollup_keys(v: Seq<(String, CodecTally)>) -> Seq<Seq<char>> {
    v.map_values(|e: (String, CodecTally)| e.0@)
}

/// The key of one run.
fn key_chars(label: &str, codec: &str) -> (k: Vec<char>)
    ensures
        k@ == run_key(label@, codec@),
{
    let mut k = chars_of(label);
    k.push('/');
    let mut c = chars_of(codec);
    k.append(&mut c);
    k
}

/// Group a report's codec runs by `<class>/<codec>` and count each group,
/// in the order of the runs: one row per key, ordered by key. `None` when a
/// counter would overflow.
pub fn codec_rollups(rows: &[LabelledRun]) -> (r: Option<Vec<(String, CodecTally)>>)
    ensures
        r is Some <==> tallies_fit(keyed_runs(rows@)),
        r matches Some(v) ==> {
            &&& forall|a: int, b: int| 0 <= a < b < v.len() ==> key_less(#[trigger] v@[a].0@, #[trigger] v@[b].0@)
            &&& forall|x: Seq<char>| rollup_keys(v@).contains(x) == keys_of(keyed_runs(rows@)).contains(x)
            &&& forall|a: int| 0 <= a < v.len() ==> #[trigger] v@[a].1 == tally_for(keyed_runs(rows@), v@[a].0@)
        },
{
    let ghost all = keyed_runs(rows@);
    let mut keys: Vec<Vec<char>> = Vec::new();
    let mut tallies: Vec<CodecTally> = Vec::new();
    let mut i: usize = 0;
    proof {
        assert(all.take(0) =~= Seq::<(Seq<char>, CodecRun)>::empty());
        assert(key_views(keys@) =~= Seq::<Seq<char>>::empty());
        assert(keys_of(all.take(0)) =~= Seq::<Seq<char>>::empty());
    }
    while i < rows.len()
        invariant
            i <= rows.len(),
            all == keyed_runs(rows@),
            keys.len() == tallies.len(),
            forall|a: int, b: int| 0 <= a < b < keys.len() ==> key_less(#[trigger] keys@[a]@, #[trigger] keys@[b]@),
            forall|x: Seq<char>| key_views(keys@).contains(x) == keys_of(all.take(i as int)).contains(x),
            forall|a: int| 0 <= a < keys.len() ==> #[trigger] tallies@[a] == tally_for(all.take(i as int), keys@[a]@),
            tallies_fit(all.take(i as int)),
        decreases rows.len() - i,
    {
        let row = &rows[i];
        let kk = key_chars(row.label.as_str(), row.codec.as_str());
        let ghost pre = all.take(i as int);
        let ghost post = all.take(i + 1);
        proof {
            assert(post.drop_last() =~= pre);
            assert(post.last() == all[i as int]);
            assert(all[i as int] == (kk@, row.run));
            assert(keys_of(post) =~= keys_of(pre).push(kk@));
        }
        let mut j: usize = 0;
        let mut found = false;
        while j < keys.len()
            invariant_except_break
                !found,
            invariant
                j <= keys.len(),
                forall|a: int| 0 <= a < j ==> key_less(#[trigger] keys@[a]@, kk@),
            ensures
                j <= keys.len(),
                forall|a: int| 0 <= a < j ==> key_less(#[trigger] keys@[a]@, kk@),
                found ==> j < keys.len() && keys@[j as int]@ == kk@,
                !found ==> j == keys.len() || key_less(kk@, keys@[j as int]@),
            decreases keys.len() - j,
        {
            if chars_equal(&kk, &keys[j]) {
                found = true;
                break;
            }
            if chars_less(&kk, &keys[j]) {
                break;
            }
            proof {
                lemma_key_total(kk@, keys@[j as int]@);
            }
            j += 1;
        }
        if found {
            let t = tallies[j];
            if !t.fits(&row.run) {
                proof {
                    assert(!tallies_fit(post));
                    if tallies_fit(all) {
                        lemma_fit_prefix(all, i + 1);
                    }
                }
                return None;
            }
            let mut u = t;
            u.add(&row.run);
            tallies.set(j, u);
            proof {
                assert forall|a: int| 0 <= a < keys.len() implies #[trigger] tallies@[a] == tally_for(
                    post,
                    keys@[a]@,
                ) by {
                    if a < j {
                        lemma_key_asymmetric(keys@[a]@, keys@[j as int]@);
                    } else if a > j {
                        lemma_key_asymmetric(keys@[j as int]@, keys@[a]@);
                    }
                }
                assert forall|x: Seq<char>| key_views(keys@).contains(x) == keys_of(post).contains(x) by {
                    lemma_contains_push(keys_of(pre), kk@, x);
                    assert(key_views(keys@)[j as int] == kk@);
                }
            }
        } else {
            proof {
                if keys_of(pre).contains(kk@) {
                    assert(key_views(keys@).contains(kk@));
                    let w = choose|w: int| 0 <= w < key_views(keys@).len() && key_views(keys@)[w] == kk@;
                    if w < j {
                        lemma_key_irreflexive(kk@);
                        assert(key_less(keys@[w]@, kk@));
                    } else {
                        lemma_key_irreflexive(kk@);
                        if w > j {
                            lemma_key_transitive(kk@, keys@[j as int]@, keys@[w]@);
                        }
                    }
                }
                lemma_absent_key(pre, kk@);
            }
            let mut t = CodecTally::new();
            t.add(&row.run);
            let ghost old_keys = keys@;
            let ghost old_tallies = tallies@;
            keys.insert(j, kk);
            tallies.insert(j, t);
            proof {
                assert forall|a: int, b: int| 0 <= a < b < keys.len() implies key_less(
                    #[trigger] keys@[a]@,
                    #[trigger] keys@[b]@,
                ) by {
                    if b < j {
                        assert(keys@[a] == old_keys[a] && keys@[b] == old_keys[b]);
                    } else if b == j {
                        assert(keys@[a] == old_keys[a]);
                    } else if a == j {
                        assert(keys@[b] == old_keys[b - 1]);
                        if b - 1 > j {
                            lemma_key_transitive(kk@, old_keys[j as int]@, old_keys[b - 1]@);
                        }
                    } else if a < j {
                        assert(keys@[a] == old_keys[a] && keys@[b] == old_keys[b - 1]);
                    } else {
                        assert(keys@[a] == old_keys[a - 1] && keys@[b] == old_keys[b - 1]);
                    }
                }
                assert(key_views(keys@) =~= key_views(old_keys).insert(j as int, kk@));
                assert forall|x: Seq<char>| key_views(keys@).contains(x) == keys_of(post).contains(x) by {
                    lemma_contains_push(keys_of(pre), kk@, x);
                    lemma_contains_insert(key_views(old_keys), j as int, kk@, x);
                }
                assert forall|a: int| 0 <= a < keys.len() implies #[trigger] tallies@[a] == tally_for(
                    post,
                    keys@[a]@,
                ) by {
                    if a != j {
                        let oa = if a < j { a } else { a - 1 };
                        assert(keys@[a] == old_keys[oa] && tallies@[a] == old_tallies[oa]);
                        assert(key_views(old_keys)[oa] == old_keys[oa]@);
                        assert(key_views(old_keys).contains(old_keys[oa]@));
                        if old_keys[oa]@ == kk@ {
                            assert(keys_of(pre).contains(kk@));
                        }
                    }
                }
            }
        }
        i += 1;
    }
    proof {
        assert(all.take(rows.len() as int) =~= all);
    }
    let mut out: Vec<(String, CodecTally)> = Vec::new();
    let mut a: usize = 0;
    while a < keys.len()
        invariant
            a <= keys.len(),
            keys.len() == tallies.len(),
            out.len() == a,
            forall|b: int| 0 <= b < a ==> (#[trigger] out@[b]).0@ == keys@[b]@ && out@[b].1 == tallies@[b],
        decreases keys.len() - a,
    {
        out.push((string_of(&keys[a]), tallies[a]));
        a += 1;
    }
    proof {
        assert(rollup_keys(out@) =~= key_views(keys@));
    }
    Some(out)
}

} // verus!
