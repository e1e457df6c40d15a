//! One file on its way through a run, and what came back.

use vstd::prelude::*;
use vstd::utf8::encode_utf8;

use crate::classify::{classify_name, extension_class, name_extension, AssetClass, AssetMeta};
use crate::digest::{blake3_hex, digest_prefix, is_hex_digit, le_bytes, push_bytes, push_le_u64};
use crate::text::lower_seq;
use crate::tier::Tier;

verus! {

/// A file the user handed over, before anything has been opened.
///
/// `class` is guessed from the name here and confirmed from the header
/// during the run: the extension was only ever a claim.
#[derive(Debug, Clone)]
pub struct Item {
    /// An opaque reference to the file, issued by the host. Never parsed.
    pub handle: String,
    pub name: String,
    pub bytes: u64,
    pub class: AssetClass,
}

/// An item as plain values.
pub struct ItemView {
    pub handle: Seq<char>,
    pub name: Seq<char>,
    pub bytes: u64,
    pub class: AssetClass,
}

impl View for Item {
    type V = ItemView;

    open spec fn view(&self) -> ItemView {
        ItemView { handle: self.handle@, name: self.name@, bytes: self.bytes, class: self.class }
    }
}

/// The class a display name claims.
pub open spec fn name_class(name: Seq<char>) -> AssetClass {
    extension_class(lower_seq(name_extension(name)))
}

impl Item {
    /// Build one from what a picker reported: a handle, a display name, a
    /// size. No file is opened.
    pub fn new(handle: String, name: String, bytes: u64) -> (it: Item)
        ensures
            it@ == (ItemView { handle: handle@, name: name@, bytes, class: name_class(name@) }),
    {
        let class = classify_name(name.as_str());
        Item { class, handle, name, bytes }
    }

    /// The item as estimation metadata: its name as the path.
    pub fn meta(&self) -> (m: AssetMeta)
        ensures
            m.path@ == self.name@,
            m.bytes == self.bytes,
            m.class == self.class,
    {
        AssetMeta { path: self.name.clone(), bytes: self.bytes, class: self.class }
    }
}

// -------------------------------------------------------------- manifest ----

/// The bytes that name a tier in a manifest.
pub open spec fn tier_tag(t: Tier) -> Seq<u8> {
    match t {
        Tier::Move => seq![109u8, 111u8, 118u8, 101u8],
        Tier::DeepMove => seq![100u8, 101u8, 101u8, 112u8],
        Tier::DeepMovePlus => seq![100u8, 101u8, 101u8, 112u8, 43u8],
    }
}

/// One item's record: its handle's UTF-8 bytes, then the count of those
/// bytes and the item's size, each as eight little-endian bytes. The count
/// marks where the handle begins, reading back from the end.
pub open spec fn item_record(it: ItemView) -> Seq<u8> {
    encode_utf8(it.handle) + le_bytes(encode_utf8(it.handle).len(), 8) + le_bytes(it.bytes as nat, 8)
}

/// Every item's record, in order.
pub open spec fn items_bytes(items: Seq<ItemView>) -> Seq<u8>
    decreases items.len(),
{
    if items.len() == 0 {
        Seq::empty()
    } else {
        items_bytes(items.drop_last()) + item_record(items.last())
    }
}

/// Everything a plan commits to: the tier, every item's record, then the
/// number of items as eight little-endian bytes.
pub open spec fn manifest_bytes(items: Seq<ItemView>, tier: Tier) -> Seq<u8> {
    tier_tag(tier) + items_bytes(items) + le_bytes(items.len(), 8)
}

pub open spec fn item_views(items: Seq<Item>) -> Seq<ItemView> {
    items.map_values(|i: Item| i@)
}

/// Binds a grant to the exact plan the user was shown: the first 32 hex
/// digits of the BLAKE3 digest of the tier and every handle and size, laid
/// out so that no two plans lay out alike.
pub fn manifest_hash(items: &[Item], tier: Tier) -> (h: String)
    ensures
        h@ == blake3_hex(manifest_bytes(item_views(items@), tier)).take(32),
        forall|i: int| 0 <= i < h@.len() ==> is_hex_digit(#[trigger] h@[i]),
{
    let mut bytes: Vec<u8> = Vec::new();
    match tier {
        Tier::Move => {
            push_bytes(&mut bytes, &[109u8, 111, 118, 101]);
        },
        Tier::DeepMove => {
            push_bytes(&mut bytes, &[100u8, 101, 101, 112]);
        },
        Tier::DeepMovePlus => {
            push_bytes(&mut bytes, &[100u8, 101, 101, 112, 43]);
        },
    }
    assert(bytes@ =~= tier_tag(tier));
    let mut i: usize = 0;
    while i < items.len()
        invariant
            i <= items.len(),
            bytes@ == tier_tag(tier) + items_bytes(item_views(items@).take(i as int)),
        decreases items.len() - i,
    {
        let handle = items[i].handle.as_str().as_bytes();
        push_bytes(&mut bytes, handle);
        push_le_u64(&mut bytes, handle.len() as u64);
        push_le_u64(&mut bytes, items[i].bytes);
        proof {
            let vs = item_views(items@);
            assert(vs.take(i + 1).drop_last() =~= vs.take(i as int));
            assert(vs.take(i + 1).last() == items@[i as int]@);
            assert(bytes@ =~= tier_tag(tier) + items_bytes(vs.take(i + 1)));
        }
        i += 1;
    }
    push_le_u64(&mut bytes, items.len() as u64);
    assert(item_views(items@).take(items.len() as int) =~= item_views(items@));
    digest_prefix(&bytes, 32)
}

/// `256^k`: one more than the largest count `k` little-endian bytes hold.
pub open spec fn byte_span(k: nat) -> nat
    decreases k,
{
    if k == 0 {
        1
    } else {
        256 * byte_span((k - 1) as nat)
    }
}

/// Counts below `256^k` have `k` little-endian bytes of their own.
proof fn lemma_le_bytes_injective(n: nat, m: nat, k: nat)
    requires
        n < byte_span(k),
        m < byte_span(k),
        le_bytes(n, k) == le_bytes(m, k),
    ensures
        n == m,
    decreases k,
{
    if k > 0 {
        let span = byte_span((k - 1) as nat);
        assert(le_bytes(n, k) == seq![(n % 256) as u8] + le_bytes(n / 256, (k - 1) as nat));
        assert(le_bytes(m, k) == seq![(m % 256) as u8] + le_bytes(m / 256, (k - 1) as nat));
        assert(le_bytes(n, k)[0] == (n % 256) as u8);
        assert(le_bytes(m, k)[0] == (m % 256) as u8);
        assert((n % 256) as u8 == (m % 256) as u8);
        assert(n % 256 == m % 256);
        assert(le_bytes(n / 256, (k - 1) as nat) =~= le_bytes(n, k).skip(1));
        assert(le_bytes(m / 256, (k - 1) as nat) =~= le_bytes(m, k).skip(1));
        assert(n / 256 < span && m / 256 < span) by (nonlinear_arith)
            requires
                n < 256 * span,
                m < 256 * span,
        ;
        lemma_le_bytes_injective(n / 256, m / 256, (k - 1) as nat);
    }
}

proof fn lemma_le_bytes_len(n: nat, k: nat)
    ensures
        le_bytes(n, k).len() == k,
    decreases k,
{
    if k > 0 {
        lemma_le_bytes_len(n / 256, (k - 1) as nat);
    }
}

/// Eight bytes hold every `u64`.
proof fn lemma_u64_span()
    ensures
        byte_span(8) == 0x1_0000_0000_0000_0000,
{
    reveal_with_fuel(byte_span, 9);
}

/// A handle short enough for its byte count to fit the eight bytes that
/// record it, as every handle a `String` can hold is.
pub open spec fn countable_handles(items: Seq<ItemView>) -> bool {
    forall|i: int| 0 <= i < items.len() ==> #[trigger] encode_utf8(items[i].handle).len() <= u64::MAX
}

/// Reading records back from the end recovers the items and what came
/// before them.
#[verifier::spinoff_prover]
#[verifier::rlimit(50)]
proof fn lemma_records_parse(a: Seq<ItemView>, b: Seq<ItemView>, pa: Seq<u8>, pb: Seq<u8>)
    requires
        a.len() == b.len(),
        countable_handles(a),
        countable_handles(b),
        pa + items_bytes(a) == pb + items_bytes(b),
    ensures
        pa == pb,
        forall|i: int| #![trigger a[i]] 0 <= i < a.len() ==> a[i].handle == b[i].handle && a[i].bytes == b[i].bytes,
    decreases a.len(),
{
    if a.len() == 0 {
        assert(pa =~= pa + items_bytes(a));
        assert(pb =~= pb + items_bytes(b));
    } else {
        let ia = a.last();
        let ib = b.last();
        let ha = encode_utf8(ia.handle);
        let hb = encode_utf8(ib.handle);
        let xa = pa + items_bytes(a.drop_last());
        let xb = pb + items_bytes(b.drop_last());
        let whole = pa + items_bytes(a);
        lemma_le_bytes_len(ha.len(), 8);
        lemma_le_bytes_len(hb.len(), 8);
        lemma_le_bytes_len(ia.bytes as nat, 8);
        lemma_le_bytes_len(ib.bytes as nat, 8);
        lemma_u64_span();
        assert(whole =~= xa + ha + le_bytes(ha.len(), 8) + le_bytes(ia.bytes as nat, 8));
        assert(whole =~= xb + hb + le_bytes(hb.len(), 8) + le_bytes(ib.bytes as nat, 8));
        let n = whole.len();
        assert(le_bytes(ia.bytes as nat, 8) =~= whole.subrange(n - 8, n as int));
        assert(le_bytes(ib.bytes as nat, 8) =~= whole.subrange(n - 8, n as int));
        lemma_le_bytes_injective(ia.bytes as nat, ib.bytes as nat, 8);
        assert(le_bytes(ha.len(), 8) =~= whole.subrange(n - 16, n - 8));
        assert(le_bytes(hb.len(), 8) =~= whole.subrange(n - 16, n - 8));
        assert(countable_handles(a) ==> encode_utf8(a[a.len() - 1].handle).len() <= u64::MAX);
        assert(countable_handles(b) ==> encode_utf8(b[b.len() - 1].handle).len() <= u64::MAX);
        lemma_le_bytes_injective(ha.len(), hb.len(), 8);
        assert(ha =~= whole.subrange(n - 16 - ha.len(), n - 16));
        assert(hb =~= whole.subrange(n - 16 - ha.len(), n - 16));
        vstd::utf8::encode_utf8_decode_utf8(ia.handle);
        vstd::utf8::encode_utf8_decode_utf8(ib.handle);
        assert(xa =~= whole.subrange(0, n - 16 - ha.len()));
        assert(xb =~= whole.subrange(0, n - 16 - ha.len()));
        assert forall|i: int| 0 <= i < a.drop_last().len() implies #[trigger] encode_utf8(
            a.drop_last()[i].handle,
        ).len() <= u64::MAX by {
            assert(a.drop_last()[i] == a[i]);
        }
        assert forall|i: int| 0 <= i < b.drop_last().len() implies #[trigger] encode_utf8(
            b.drop_last()[i].handle,
        ).len() <= u64::MAX by {
            assert(b.drop_last()[i] == b[i]);
        }
        lemma_records_parse(a.drop_last(), b.drop_last(), pa, pb);
        assert forall|i: int| #![trigger a[i]] 0 <= i < a.len() implies a[i].handle == b[i].handle && a[i].bytes
            == b[i].bytes by {
            if i < a.len() - 1 {
                assert(a.drop_last()[i] == a[i]);
                assert(b.drop_last()[i] == b[i]);
            }
        }
    }
}

/// Any drift in a plan, one file added or dropped, a handle or a size
/// changed, the tier changed, changes the bytes it commits to: equal
/// manifest bytes mean the same tier and the same handles and sizes, in the
/// same order.
pub proof fn law_manifest_binds_the_plan(a: Seq<ItemView>, ta: Tier, b: Seq<ItemView>, tb: Tier)
    requires
        a.len() <= u64::MAX,
        b.len() <= u64::MAX,
        countable_handles(a),
        countable_handles(b),
        manifest_bytes(a, ta) == manifest_bytes(b, tb),
    ensures
        ta == tb,
        a.len() == b.len(),
        forall|i: int| #![trigger a[i]] 0 <= i < a.len() ==> a[i].handle == b[i].handle && a[i].bytes == b[i].bytes,
{
    let whole = manifest_bytes(a, ta);
    let n = whole.len();
    lemma_le_bytes_len(a.len(), 8);
    lemma_le_bytes_len(b.len(), 8);
    lemma_u64_span();
    assert(le_bytes(a.len(), 8) =~= whole.subrange(n - 8, n as int));
    assert(le_bytes(b.len(), 8) =~= manifest_bytes(b, tb).subrange(n - 8, n as int));
    lemma_le_bytes_injective(a.len(), b.len(), 8);
    assert(tier_tag(ta) + items_bytes(a) =~= whole.subrange(0, n - 8));
    assert(tier_tag(tb) + items_bytes(b) =~= manifest_bytes(b, tb).subrange(0, n - 8));
    lemma_records_parse(a, b, tier_tag(ta), tier_tag(tb));
    assert(tier_tag(ta) == tier_tag(tb));
    assert(ta == tb) by {
        if ta != tb {
            assert(tier_tag(ta)[0] != tier_tag(tb)[0] || tier_tag(ta).len() != tier_tag(tb).len());
        }
    }
}

// --------------------------------------------------------------- results ----

/// What the engine is willing to say about a result.
#[derive(Debug, Clone, Copy, PartialEq, Eq, Structural)]
pub enum Proof {
    /// Decoded back and byte-compared. The only basis for calling a file
    /// reversible.
    Proven,
    /// Pixels survive, bytes do not: the original file is not reconstructable.
    PixelLossless,
    /// Encoded, but no perceptual score, so the ratio is not a saving.
    Unqualified,
    Failed,
    /// The engine declined to touch it at all.
    Skipped,
}

pub open spec fn proof_label(p: Proof) -> Seq<char> {
    match p {
        Proof::Proven => "proven"@,
        Proof::PixelLossless => "pixel-lossless"@,
        Proof::Unqualified => "unqualified"@,
        Proof::Failed => "failed"@,
        Proof::Skipped => "skipped"@,
    }
}

pub open spec fn proof_countable(p: Proof) -> bool {
    p == Proof::Proven || p == Proof::PixelLossless
}

impl Proof {
    pub fn label(self) -> (r: &'static str)
        ensures
            r@ == proof_label(self),
    {
        match self {
            Proof::Proven => "proven",
            Proof::PixelLossless => "pixel-lossless",
            Proof::Unqualified => "unqualified",
            Proof::Failed => "failed",
            Proof::Skipped => "skipped",
        }
    }

    /// Whether this row's bytes may be counted toward the headline figure:
    /// a ratio with no quality qualification is not a saving the user can
    /// have, so it is not one the app will quote.
    pub fn countable(self) -> (r: bool)
        ensures
            r == proof_countable(self),
    {
        match self {
            Proof::Proven | Proof::PixelLossless => true,
            _ => false,
        }
    }
}

#[derive(Debug, Clone)]
pub struct Outcome {
    pub name: String,
    pub codec: String,
    pub before: u64,
    pub after: u64,
    pub proof: Proof,
    pub note: String,
    /// The chosen tier promised something this build cannot deliver, so the
    /// engine delivered the safe thing instead.
    pub fell_back: bool,
}

/// An outcome as plain values.
pub struct OutcomeView {
    pub name: Seq<char>,
    pub codec: Seq<char>,
    pub before: u64,
    pub after: u64,
    pub proof: Proof,
    pub note: Seq<char>,
    pub fell_back: bool,
}

impl View for Outcome {
    type V = OutcomeView;

    open spec fn view(&self) -> OutcomeView {
        OutcomeView {
            name: self.name@,
            codec: self.codec@,
            before: self.before,
            after: self.after,
            proof: self.proof,
            note: self.note@,
            fell_back: self.fell_back,
        }
    }
}

/// Bytes given back: what went in less what came out, never below zero.
pub open spec fn saved_of(before: u64, after: u64) -> u64 {
    if before > after {
        (before - after) as u64
    } else {
        0
    }
}

impl Outcome {
    pub fn saved(&self) -> (r: u64)
        ensures
            r == saved_of(self.before, self.after),
    {
        self.before.saturating_sub(self.after)
    }
}

} // verus!
