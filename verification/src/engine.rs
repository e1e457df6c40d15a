//! Encode, prove, report: the per-file decisions of a run.
//!
//! Nothing is written and nothing is deleted: a run measures on the real
//! files and leaves every original where it was. The only ingress is a
//! [`Source`], the host's answer to "give me the bytes behind this handle".

use vstd::prelude::*;

use crate::classify::{class_from, class_is_photo, class_is_video, class_label, classify_bytes, infer_mime, AssetClass};
use crate::codecs::{codec_error, codec_name, codec_result, lepton_result, oxipng_result, Codec, LeptonJpeg, Oxipng, Zstd};
use crate::item::{Item, ItemView, Outcome, OutcomeView, Proof};
use crate::codecs::{lepton_decoded, lepton_encoded, zstd_decoded, zstd_encoded};
use crate::text::push_str;
use crate::tier::Tier;

verus! {

#[verifier::external_type_specification]
#[verifier::external_body]
pub struct ExAnyhowError(anyhow::Error);

/// The host's answer to "give me the bytes behind this handle".
///
/// The engine cannot enumerate anything and cannot open anything it was not
/// handed: whatever the host is willing to open is exactly what the engine
/// can see. An `Err` is a per-file failure, not a run failure.
pub trait Source: Send + Sync {
    /// The file's bytes, or why they could not be read.
    fn read(&self, handle: &str) -> Result<Vec<u8>, anyhow::Error>;

    /// A pre-rendered thumbnail, if the platform has one cheaper than
    /// decoding. It opens the file, so a host must not call it before the
    /// grant that allows that. A host with nothing cheaper keeps the default,
    /// which has none to give, and sends the caller to the full bytes.
    fn thumbnail(&self, handle: &str, edge: u32) -> (r: Option<Vec<u8>>)
        default_ensures
            r is None,
    {
        let _ = (handle, edge);
        None
    }
}

/// What a run tells whoever is watching it: one `File` per item, in order,
/// as it completes.
#[derive(Debug)]
pub enum Event {
    Started,
    File { index: usize, name: String, outcome: Outcome },
    Finished { cancelled: bool },
}

/// The `Display` text of a read error. Nothing is claimed of it.
#[verifier::external_body]
fn anyhow_text(e: &anyhow::Error) -> String {
    format!("{e}")
}

/// The compression matrix, for the codecs that exist in this build.
///
/// `None` is a policy statement, not a gap: RAW is never re-encoded in any
/// tier, and already-efficient formats are stored as they are.
pub open spec fn codec_choice(c: AssetClass) -> Option<Codec> {
    match c {
        AssetClass::Jpeg => Some(Codec::Lepton(LeptonJpeg)),
        AssetClass::Png => Some(Codec::Oxipng(Oxipng { preset: 4 })),
        AssetClass::Document | AssetClass::Other => Some(Codec::Zstd(Zstd { level: 19 })),
        _ => None,
    }
}

pub fn codec_for(class: AssetClass) -> (r: Option<Codec>)
    ensures
        r == codec_choice(class),
{
    match class {
        AssetClass::Jpeg => Some(Codec::Lepton(LeptonJpeg)),
        AssetClass::Png => Some(Codec::Oxipng(Oxipng { preset: 4 })),
        AssetClass::Document | AssetClass::Other => Some(Codec::Zstd(Zstd { level: 19 })),
        _ => None,
    }
}

pub open spec fn skip_reason_of(c: AssetClass) -> Seq<char> {
    if c == AssetClass::Raw {
        "RAW is never re-encoded, in any tier"@
    } else if c == AssetClass::Heic {
        "already efficient — stored as-is"@
    } else if class_is_video(c) {
        "no hardware encoder in this build — stored as-is"@
    } else {
        "no codec applies"@
    }
}

pub fn skip_reason(class: AssetClass) -> (r: &'static str)
    ensures
        r@ == skip_reason_of(class),
{
    match class {
        AssetClass::Raw => "RAW is never re-encoded, in any tier",
        AssetClass::Heic => "already efficient — stored as-is",
        c => {
            if c.is_video() {
                "no hardware encoder in this build — stored as-is"
            } else {
                "no codec applies"
            }
        },
    }
}

/// The note a run leaves when the header contradicts the name.
pub open spec fn mismatch_note(sniffed: AssetClass, claimed: AssetClass) -> Seq<char> {
    if sniffed != claimed {
        "header says "@ + class_label(sniffed) + " — the name said "@ + class_label(claimed)
    } else {
        Seq::empty()
    }
}

pub open spec fn fallback_text() -> Seq<char> {
    "Deep Move fell back to lossless: no perceptual scorer in this build"@
}

/// The note once a codec has run: the mismatch, then the fallback if any.
pub open spec fn run_note(mismatch: Seq<char>, fell_back: bool) -> Seq<char> {
    if !fell_back {
        mismatch
    } else if mismatch.len() == 0 {
        fallback_text()
    } else {
        mismatch + " · "@ + fallback_text()
    }
}

/// The dash a row shows where no codec ran.
pub open spec fn no_codec() -> Seq<char> {
    "—"@
}

/// The header's verdict on a file's class.
pub open spec fn sniffed(bytes: Seq<u8>, name: Seq<char>) -> AssetClass {
    class_from(infer_mime(bytes), bytes, name)
}

/// What the engine is willing to say of a codec's result: nothing good
/// unless the codec verified its own roundtrip; `Unqualified` when the tier
/// promised more than this build delivered, so the result is no saving the
/// headline may quote; otherwise byte-proven, or pixel-lossless for the one
/// codec that reconstructs pixels and not bytes.
pub open spec fn proof_of(c: Codec, rt: Option<bool>, fell_back: bool) -> Proof {
    if rt != Some(true) {
        Proof::Failed
    } else if fell_back {
        Proof::Unqualified
    } else if c is Oxipng {
        Proof::PixelLossless
    } else {
        Proof::Proven
    }
}

/// What a run reports for an item whose bytes were read: every field pinned,
/// except that when the codec itself fails the note is its own error
/// message, of which the step it names is pinned and the crate's text is not.
pub open spec fn bytes_outcome(item: ItemView, bytes: Seq<u8>, tier: Tier, o: OutcomeView) -> bool {
    let s = sniffed(bytes, item.name);
    let len = bytes.len() as u64;
    &&& o.name == item.name
    &&& o.before == len
    &&& match codec_choice(s) {
        None => {
            &&& o.codec == no_codec()
            &&& o.after == len
            &&& o.proof == Proof::Skipped
            &&& o.note == skip_reason_of(s)
            &&& !o.fell_back
        },
        Some(c) => {
            &&& o.codec == codec_name(c)
            &&& match codec_result(c, bytes) {
                Some((n, rt)) => {
                    let fell_back = tier != Tier::Move && class_is_photo(s);
                    &&& o.after == n
                    &&& o.proof == proof_of(c, rt, fell_back)
                    &&& o.fell_back == fell_back
                    &&& o.note == run_note(mismatch_note(s, item.class), fell_back)
                },
                None => {
                    &&& o.after == len
                    &&& o.proof == Proof::Failed
                    &&& !o.fell_back
                    &&& codec_error(c, bytes, o.note)
                },
            }
        },
    }
}

/// What a run reports for an item, given what the host answered to the read:
/// the bytes, or the text of why they could not be read.
pub open spec fn settles(item: ItemView, read: Result<Seq<u8>, Seq<char>>, tier: Tier, o: OutcomeView) -> bool {
    match read {
        Ok(bytes) => bytes_outcome(item, bytes, tier, o),
        Err(msg) => {
            &&& o.name == item.name
            &&& o.codec == no_codec()
            &&& o.before == item.bytes
            &&& o.after == item.bytes
            &&& o.proof == Proof::Failed
            &&& o.note == msg
            &&& !o.fell_back
        },
    }
}

fn dash() -> (s: String)
    ensures
        s@ == no_codec(),
{
    let mut s = String::new();
    push_str(&mut s, "—");
    s
}

/// The header is authoritative; the extension was only ever a claim.
pub fn outcome_for_bytes(item: &Item, bytes: &[u8], tier: Tier) -> (o: Outcome)
    ensures
        bytes_outcome(item@, bytes@, tier, o@),
{
    let sniffed = classify_bytes(bytes, item.name.as_str());
    let len = bytes.len() as u64;
    let codec = match codec_for(sniffed) {
        Some(c) => c,
        None => {
            let mut note = String::new();
            push_str(&mut note, skip_reason(sniffed));
            return Outcome {
                name: item.name.clone(),
                codec: dash(),
                before: len,
                after: len,
                proof: Proof::Skipped,
                note,
                fell_back: false,
            };
        },
    };
    let mut note = String::new();
    if sniffed != item.class {
        push_str(&mut note, "header says ");
        push_str(&mut note, sniffed.label());
        push_str(&mut note, " — the name said ");
        push_str(&mut note, item.class.label());
    }
    assert(note@ =~= mismatch_note(sniffed, item.class));
    let mut name = String::new();
    push_str(&mut name, codec.name());
    match codec.run(bytes) {
        Ok(out) => {
            // Deep Move promises a smaller result than Move, and can only
            // deliver that with a scored lossy encode. There is no scorer
            // here, so say so rather than presenting the lossless number as
            // if the tier had been honoured: the result is unqualified.
            let fell_back = tier != Tier::Move && sniffed.is_photo();
            let proof = match out.roundtrip_ok {
                Some(true) => {
                    if fell_back {
                        Proof::Unqualified
                    } else {
                        match codec {
                            // Pixels survive, bytes do not.
                            Codec::Oxipng(_) => Proof::PixelLossless,
                            _ => Proof::Proven,
                        }
                    }
                },
                _ => Proof::Failed,
            };
            let ghost mismatch = note@;
            if fell_back {
                if !note.as_str().is_empty() {
                    push_str(&mut note, " · ");
                }
                push_str(
                    &mut note,
                    "Deep Move fell back to lossless: no perceptual scorer in this build",
                );
            }
            proof {
                assert(note@ =~= run_note(mismatch, fell_back));
            }
            Outcome {
                name: item.name.clone(),
                codec: name,
                before: len,
                after: out.out_bytes,
                proof,
                note,
                fell_back,
            }
        },
        Err(error) => Outcome {
            name: item.name.clone(),
            codec: name,
            before: len,
            after: len,
            proof: Proof::Failed,
            note: error,
            fell_back: false,
        },
    }
}

/// What a run reports for an item, given the host's answer to the read.
/// A read that failed costs this file and nothing else.
pub fn settle(item: &Item, read: Result<Vec<u8>, String>, tier: Tier) -> (o: Outcome)
    ensures
        settles(
            item@,
            match read {
                Ok(b) => Ok(b@),
                Err(m) => Err(m@),
            },
            tier,
            o@,
        ),
{
    match read {
        Ok(bytes) => outcome_for_bytes(item, &bytes, tier),
        Err(msg) => Outcome {
            name: item.name.clone(),
            codec: dash(),
            before: item.bytes,
            after: item.bytes,
            proof: Proof::Failed,
            note: msg,
            fell_back: false,
        },
    }
}

/// What a run does next, between files: process the file at an index, or
/// finish, saying whether it was cancelled.
#[derive(Debug, Clone, Copy, PartialEq, Eq, Structural)]
pub enum RunStep {
    Process(usize),
    Finish(bool),
}

/// The decision a run makes before each file. Cancellation is checked
/// between files, never inside a codec: a run asked to stop finishes before
/// the next file, and a run that has processed every file finishes
/// uncancelled.
pub fn run_step(index: usize, len: usize, cancelled: bool) -> (s: RunStep)
    ensures
        index >= len ==> s == RunStep::Finish(false),
        index < len && cancelled ==> s == RunStep::Finish(true),
        index < len && !cancelled ==> s == RunStep::Process(index),
{
    if index >= len {
        RunStep::Finish(false)
    } else if cancelled {
        RunStep::Finish(true)
    } else {
        RunStep::Process(index)
    }
}

/// The host's answer to a read, as [`settles`] takes it: the bytes, or the
/// text `msg` of why they could not be read.
pub open spec fn read_view(r: Result<Vec<u8>, anyhow::Error>, msg: Seq<char>) -> Result<Seq<u8>, Seq<char>> {
    match r {
        Ok(b) => Ok(b@),
        Err(_) => Err(msg),
    }
}

/// Read `item` through `source` and report on it. The read asks the host
/// for the item's own handle, and whatever the host answers, the outcome is
/// the one [`settle`] gives for that answer.
pub fn process<S: Source>(source: &S, item: &Item, tier: Tier) -> (o: Outcome)
    ensures
        exists|h: &str, r: Result<Vec<u8>, anyhow::Error>, msg: Seq<char>|
            #![trigger call_ensures(S::read, (source, h), r), settles(item@, read_view(r, msg), tier, o@)]
            h@ == item.handle@ && call_ensures(S::read, (source, h), r) && settles(
                item@,
                read_view(r, msg),
                tier,
                o@,
            ),
{
    let h = item.handle.as_str();
    let answer = source.read(h);
    let ghost r = answer;
    let read = match answer {
        Ok(bytes) => Ok(bytes),
        Err(error) => Err(anyhow_text(&error)),
    };
    let ghost msg: Seq<char> = match &read {
        Ok(_) => Seq::empty(),
        Err(m) => m@,
    };
    let o = settle(item, read, tier);
    assert(call_ensures(S::read, (source, h), r) && settles(item@, read_view(r, msg), tier, o@));
    o
}

// ----------------------------------------------------------------- laws ----

/// RAW is never re-encoded, in any tier: it is skipped and comes back at its
/// own size.
pub proof fn law_raw_is_never_reencoded(item: ItemView, bytes: Seq<u8>, tier: Tier, o: OutcomeView)
    requires
        settles(item, Ok(bytes), tier, o),
        sniffed(bytes, item.name) == AssetClass::Raw,
    ensures
        o.proof == Proof::Skipped,
        o.after == o.before,
        o.codec == no_codec(),
{
}

/// A skipped file comes back at the size it went in.
pub proof fn law_skipped_keeps_size(
    item: ItemView,
    read: Result<Seq<u8>, Seq<char>>,
    tier: Tier,
    o: OutcomeView,
)
    requires
        settles(item, read, tier, o),
        o.proof == Proof::Skipped,
    ensures
        o.after == o.before,
        !o.fell_back,
{
}

/// A read that fails costs that file and nothing else: it is reported as
/// failed, at the size the picker gave, with the host's reason as the note.
pub proof fn law_unreadable_is_failed(item: ItemView, msg: Seq<char>, tier: Tier, o: OutcomeView)
    requires
        settles(item, Err(msg), tier, o),
    ensures
        o.proof == Proof::Failed,
        o.before == item.bytes,
        o.after == item.bytes,
        o.note == msg,
{
}

/// A file is called proven only when its codec decoded its own output back
/// to exactly the bytes that went in.
pub proof fn law_proven_roundtrips(item: ItemView, bytes: Seq<u8>, tier: Tier, o: OutcomeView)
    requires
        settles(item, Ok(bytes), tier, o),
        o.proof == Proof::Proven,
    ensures
        (lepton_encoded(bytes) matches Some(c) && lepton_decoded(c) == Some(bytes)) || (
        zstd_encoded(19, bytes) matches Some(c) && zstd_decoded(c) == Some(bytes)),
{
}

/// Deep Move and Deep Move+ both promise more for a photograph than this
/// build can deliver: under either, a JPEG or PNG whose codec ran and gave
/// output is reported as fallen back, never as a countable saving (it is
/// unqualified, or failed if its roundtrip did not hold), and its note ends
/// by saying so. Under Move nothing falls back.
pub proof fn law_deep_tiers_fall_back_on_photos(item: ItemView, bytes: Seq<u8>, tier: Tier, o: OutcomeView)
    requires
        settles(item, Ok(bytes), tier, o),
    ensures
        (tier == Tier::DeepMove || tier == Tier::DeepMovePlus) && ((sniffed(bytes, item.name)
            == AssetClass::Jpeg && lepton_result(bytes) is Some) || (sniffed(bytes, item.name)
            == AssetClass::Png && oxipng_result(4, bytes) is Some)) ==> {
            &&& o.fell_back
            &&& o.proof == Proof::Unqualified || o.proof == Proof::Failed
            &&& o.note.len() >= "Deep Move fell back to lossless: no perceptual scorer in this build"@.len()
            &&& o.note.subrange(
                o.note.len() - "Deep Move fell back to lossless: no perceptual scorer in this build"@.len(),
                o.note.len() as int,
            ) == "Deep Move fell back to lossless: no perceptual scorer in this build"@
        },
        tier == Tier::Move ==> !o.fell_back,
{
    let s = sniffed(bytes, item.name);
    if (tier == Tier::DeepMove || tier == Tier::DeepMovePlus) && ((s == AssetClass::Jpeg && lepton_result(
        bytes,
    ) is Some) || (s == AssetClass::Png && oxipng_result(4, bytes) is Some)) {
        assert(o.fell_back);
        law_fallback_is_declared(item, Ok(bytes), tier, o);
    }
}

/// Only a tier that promised more than this build can deliver falls back,
/// only for photographs, and the note says so; the result is reported as
/// unqualified (or failed), never as a saving the headline may count.
pub proof fn law_fallback_is_declared(
    item: ItemView,
    read: Result<Seq<u8>, Seq<char>>,
    tier: Tier,
    o: OutcomeView,
)
    requires
        settles(item, read, tier, o),
        o.fell_back,
    ensures
        tier != Tier::Move,
        read matches Ok(bytes) && class_is_photo(sniffed(bytes, item.name)),
        o.proof == Proof::Unqualified || o.proof == Proof::Failed,
        o.note.len() >= fallback_text().len(),
        o.note.subrange(o.note.len() - fallback_text().len(), o.note.len() as int) == fallback_text(),
{
    match read {
        Ok(bytes) => {
            let s = sniffed(bytes, item.name);
            let m = mismatch_note(s, item.class);
            if m.len() == 0 {
                assert(o.note.subrange(0, o.note.len() as int) =~= o.note);
            } else {
                let pre = m + " · "@;
                assert(o.note =~= pre + fallback_text());
                assert(o.note.subrange(pre.len() as int, o.note.len() as int) =~= fallback_text());
            }
        },
        Err(_) => {},
    }
}

} // verus!
