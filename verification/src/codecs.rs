//! The codecs, behind one set of contracts, so the engine and a measurement
//! run exercise exactly the same code.
//!
//! Invariant: every lossless codec verifies its own roundtrip: it decodes
//! its own output and compares, bytes where it promises bytes and pixels
//! where it promises pixels, before it reports success.

use vstd::prelude::*;

use crate::classify::AssetClass;
use crate::picture::{same_picture, same_pixels};

verus! {

/// What one codec run produced.
#[derive(Debug, Clone, Copy)]
pub struct CodecOutput {
    pub out_bytes: u64,
    pub encode_ms: u128,
    /// `Some(true/false)` for codecs that ran a real decode and compare;
    /// `None` for a lossy codec, where there is nothing exact to compare.
    pub roundtrip_ok: Option<bool>,
    pub decode_ms: Option<u128>,
}

/// Lossless JPEG recode. Bit-exact; the original JPEG is reconstructable.
#[derive(Debug, Clone, Copy)]
pub struct LeptonJpeg;

/// Lossless PNG re-optimisation. Pixels identical; file bytes differ.
#[derive(Debug, Clone, Copy)]
pub struct Oxipng {
    pub preset: u8,
}

/// General-purpose lossless compression: the document-bucket workhorse.
#[derive(Debug, Clone, Copy)]
pub struct Zstd {
    pub level: i32,
}

// ------------------------------------------------------------- outside ----

#[verifier::external_type_specification]
#[verifier::external_body]
pub struct ExLeptonError(lepton_jpeg::LeptonError);

#[verifier::external_type_specification]
#[verifier::external_body]
pub struct ExPngError(oxipng::PngError);

#[verifier::external_type_specification]
#[verifier::external_body]
pub struct ExIoError(std::io::Error);

#[verifier::external_type_specification]
#[verifier::external_body]
pub struct ExInstant(std::time::Instant);

/// What `lepton_jpeg::encode_lepton` makes of a JPEG (compat-vector
/// features, one thread), or `None` when it refuses the input or panics.
pub uninterp spec fn lepton_encoded(input: Seq<u8>) -> Option<Seq<u8>>;

/// What `lepton_jpeg::decode_lepton` makes of a Lepton stream, or `None`
/// when it refuses the stream or panics.
pub uninterp spec fn lepton_decoded(input: Seq<u8>) -> Option<Seq<u8>>;

/// What `oxipng::optimize_from_memory` makes of a PNG at a preset, or `None`.
pub uninterp spec fn oxipng_optimized(preset: u8, input: Seq<u8>) -> Option<Seq<u8>>;

/// What `zstd::encode_all` makes of the input at a level, or `None`.
pub uninterp spec fn zstd_encoded(level: i32, input: Seq<u8>) -> Option<Seq<u8>>;

/// What `zstd::decode_all` makes of a frame, or `None`.
pub uninterp spec fn zstd_decoded(input: Seq<u8>) -> Option<Seq<u8>>;

/// `lepton_jpeg::encode_lepton` over memory, with the compat-vector features
/// and a single-thread pool, run under `lepton_jpeg::catch_unwind_result` so
/// that a panic on a malformed JPEG comes back as an error. Claims the result
/// is the named function of the input: `Ok` exactly when it is `Some`.
#[verifier::external_body]
fn lepton_encode(input: &[u8]) -> (r: Result<Vec<u8>, lepton_jpeg::LeptonError>)
    ensures
        match r {
            Ok(v) => lepton_encoded(input@) == Some(v@),
            Err(_) => lepton_encoded(input@) is None,
        },
{
    let features = lepton_jpeg::EnabledFeatures::compat_lepton_vector_write();
    let pool = lepton_jpeg::SingleThreadPool::default();
    lepton_jpeg::catch_unwind_result(|| {
        let mut out = std::io::Cursor::new(Vec::new());
        lepton_jpeg::encode_lepton(&mut std::io::Cursor::new(input), &mut out, &features, &pool)?;
        Ok(out.into_inner())
    })
}

/// `lepton_jpeg::decode_lepton` over memory, same features and pool, under
/// `lepton_jpeg::catch_unwind_result` as above. Claims the result is the
/// named function of the input.
#[verifier::external_body]
fn lepton_decode(input: &[u8]) -> (r: Result<Vec<u8>, lepton_jpeg::LeptonError>)
    ensures
        match r {
            Ok(v) => lepton_decoded(input@) == Some(v@),
            Err(_) => lepton_decoded(input@) is None,
        },
{
    let features = lepton_jpeg::EnabledFeatures::compat_lepton_vector_write();
    let pool = lepton_jpeg::SingleThreadPool::default();
    lepton_jpeg::catch_unwind_result(|| {
        let mut out = Vec::new();
        lepton_jpeg::decode_lepton(&mut std::io::Cursor::new(input), &mut out, &features, &pool)?;
        Ok(out)
    })
}

/// The `Debug` text of a Lepton error. Nothing is claimed of it.
#[verifier::external_body]
fn lepton_error_text(e: &lepton_jpeg::LeptonError) -> String {
    format!("{e:?}")
}

/// `oxipng::optimize_from_memory` with `Options::from_preset(preset)`.
/// Claims the result is the named function of preset and input.
#[verifier::external_body]
fn oxipng_optimize(preset: u8, input: &[u8]) -> (r: Result<Vec<u8>, oxipng::PngError>)
    ensures
        match r {
            Ok(v) => oxipng_optimized(preset, input@) == Some(v@),
            Err(_) => oxipng_optimized(preset, input@) is None,
        },
{
    oxipng::optimize_from_memory(input, &oxipng::Options::from_preset(preset))
}

/// The `Display` text of an oxipng error. Nothing is claimed of it.
#[verifier::external_body]
fn png_error_text(e: &oxipng::PngError) -> String {
    format!("{e}")
}

/// `zstd::encode_all` over memory. Claims the result is the named function
/// of level and input.
#[verifier::external_body]
fn zstd_encode(level: i32, input: &[u8]) -> (r: Result<Vec<u8>, std::io::Error>)
    ensures
        match r {
            Ok(v) => zstd_encoded(level, input@) == Some(v@),
            Err(_) => zstd_encoded(level, input@) is None,
        },
{
    zstd::encode_all(input, level)
}

/// `zstd::decode_all` over memory. Claims the result is the named function
/// of the input.
#[verifier::external_body]
fn zstd_decode(input: &[u8]) -> (r: Result<Vec<u8>, std::io::Error>)
    ensures
        match r {
            Ok(v) => zstd_decoded(input@) == Some(v@),
            Err(_) => zstd_decoded(input@) is None,
        },
{
    zstd::decode_all(input)
}

/// The `Display` text of an I/O error. Nothing is claimed of it.
#[verifier::external_body]
fn io_error_text(e: &std::io::Error) -> String {
    format!("{e}")
}

/// `Instant::now`. Nothing is claimed of it.
#[verifier::external_body]
fn timer_start() -> std::time::Instant {
    std::time::Instant::now()
}

/// `Instant::elapsed`. Nothing is claimed of it.
#[verifier::external_body]
fn timer_elapsed(t: &std::time::Instant) -> std::time::Duration {
    t.elapsed()
}

/// `Duration::as_millis`. Nothing is claimed of it.
#[verifier::external_body]
fn duration_ms(d: &std::time::Duration) -> u128 {
    d.as_millis()
}

fn elapsed_ms(t: &std::time::Instant) -> u128 {
    duration_ms(&timer_elapsed(t))
}

/// Whether two byte runs are equal.
pub fn same_bytes(a: &[u8], b: &[u8]) -> (r: bool)
    ensures
        r == (a@ == b@),
{
    if a.len() != b.len() {
        return false;
    }
    let mut i: usize = 0;
    while i < a.len()
        invariant
            i <= a.len(),
            a.len() == b.len(),
            forall|j: int| 0 <= j < i ==> a@[j] == b@[j],
        decreases a.len() - i,
    {
        if a[i] != b[i] {
            return false;
        }
        i += 1;
    }
    assert(a@ =~= b@);
    true
}

/// `prefix` followed by `rest`, as one `String`.
fn message(prefix: &str, rest: String) -> (m: String)
    ensures
        m@ == prefix@ + rest@,
{
    let mut m = String::new();
    crate::text::push_str(&mut m, prefix);
    crate::text::push_str(&mut m, rest.as_str());
    m
}

// ---------------------------------------------------------------- specs ----

/// The sizes and roundtrip a Lepton run reports, or `None` when it fails.
pub open spec fn lepton_result(input: Seq<u8>) -> Option<(nat, Option<bool>)> {
    match lepton_encoded(input) {
        Some(c) => match lepton_decoded(c) {
            Some(d) => Some((c.len(), Some(d == input))),
            None => None,
        },
        None => None,
    }
}

/// The sizes and roundtrip an oxipng run reports: pixel-lossless, so the
/// roundtrip compares the pixels of the two files, not their bytes.
pub open spec fn oxipng_result(preset: u8, input: Seq<u8>) -> Option<(nat, Option<bool>)> {
    match oxipng_optimized(preset, input) {
        Some(c) => Some((c.len(), Some(same_picture(input, c)))),
        None => None,
    }
}

/// The sizes and roundtrip a zstd run reports, or `None` when it fails.
pub open spec fn zstd_result(level: i32, input: Seq<u8>) -> Option<(nat, Option<bool>)> {
    match zstd_encoded(level, input) {
        Some(c) => match zstd_decoded(c) {
            Some(d) => Some((c.len(), Some(d == input))),
            None => None,
        },
        None => None,
    }
}

/// Whether a run's output matches what the codec computed.
pub open spec fn reports(out: CodecOutput, expected: Option<(nat, Option<bool>)>) -> bool {
    match expected {
        Some((n, rt)) => out.out_bytes == n && out.roundtrip_ok == rt && (rt is Some
            <==> out.decode_ms is Some),
        None => false,
    }
}

/// The message of a failed Lepton run: the step that failed, then the
/// crate's own error text.
pub open spec fn lepton_error(input: Seq<u8>, m: Seq<char>) -> bool {
    if lepton_encoded(input) is None {
        "lepton encode: "@.is_prefix_of(m)
    } else {
        "lepton decode: "@.is_prefix_of(m)
    }
}

// --------------------------------------------------------------- codecs ----

impl LeptonJpeg {
    pub fn name(&self) -> (r: &'static str)
        ensures
            r@ == "lepton"@,
    {
        "lepton"
    }

    pub fn applies(&self, class: AssetClass) -> (r: bool)
        ensures
            r == (class == AssetClass::Jpeg),
    {
        class == AssetClass::Jpeg
    }

    pub fn lossless(&self) -> (r: bool)
        ensures
            r,
    {
        true
    }

    /// Encode, then decode the encoding and byte-compare: proof, not
    /// assumption.
    pub fn run(&self, input: &[u8]) -> (r: Result<CodecOutput, String>)
        ensures
            match r {
                Ok(out) => reports(out, lepton_result(input@)),
                Err(m) => lepton_result(input@) is None && lepton_error(input@, m@),
            },
    {
        let t = timer_start();
        let compressed = match lepton_encode(input) {
            Ok(c) => c,
            Err(e) => {
                let m = message("lepton encode: ", lepton_error_text(&e));
                assert("lepton encode: "@.is_prefix_of(m@)) by {
                    assert(m@.take("lepton encode: "@.len() as int) =~= "lepton encode: "@);
                }
                return Err(m);
            },
        };
        let encode_ms = elapsed_ms(&t);
        let t = timer_start();
        let restored = match lepton_decode(&compressed) {
            Ok(d) => d,
            Err(e) => {
                let m = message("lepton decode: ", lepton_error_text(&e));
                assert("lepton decode: "@.is_prefix_of(m@)) by {
                    assert(m@.take("lepton decode: "@.len() as int) =~= "lepton decode: "@);
                }
                return Err(m);
            },
        };
        let decode_ms = elapsed_ms(&t);
        Ok(
            CodecOutput {
                out_bytes: compressed.len() as u64,
                encode_ms,
                roundtrip_ok: Some(same_bytes(&restored, input)),
                decode_ms: Some(decode_ms),
            },
        )
    }
}

impl Oxipng {
    pub fn name(&self) -> (r: &'static str)
        ensures
            r@ == "oxipng"@,
    {
        "oxipng"
    }

    pub fn applies(&self, class: AssetClass) -> (r: bool)
        ensures
            r == (class == AssetClass::Png),
    {
        class == AssetClass::Png
    }

    pub fn lossless(&self) -> (r: bool)
        ensures
            r,
    {
        true
    }

    /// Re-optimise, then decode both files and compare their pixels.
    /// Pixel-lossless, not byte-lossless: the original file cannot be
    /// reproduced, so the pixels are what is checked.
    pub fn run(&self, input: &[u8]) -> (r: Result<CodecOutput, String>)
        ensures
            match r {
                Ok(out) => reports(out, oxipng_result(self.preset, input@)),
                Err(m) => oxipng_result(self.preset, input@) is None && "oxipng: "@.is_prefix_of(
                    m@,
                ),
            },
    {
        let t = timer_start();
        let out = match oxipng_optimize(self.preset, input) {
            Ok(out) => out,
            Err(e) => {
                let m = message("oxipng: ", png_error_text(&e));
                assert("oxipng: "@.is_prefix_of(m@)) by {
                    assert(m@.take("oxipng: "@.len() as int) =~= "oxipng: "@);
                }
                return Err(m);
            },
        };
        let encode_ms = elapsed_ms(&t);
        let t = timer_start();
        let same = same_pixels(input, &out);
        let decode_ms = elapsed_ms(&t);
        Ok(
            CodecOutput {
                out_bytes: out.len() as u64,
                encode_ms,
                roundtrip_ok: Some(same),
                decode_ms: Some(decode_ms),
            },
        )
    }
}

impl Zstd {
    pub fn name(&self) -> (r: &'static str)
        ensures
            r@ == "zstd"@,
    {
        "zstd"
    }

    pub fn applies(&self, class: AssetClass) -> (r: bool)
        ensures
            r,
    {
        true
    }

    pub fn lossless(&self) -> (r: bool)
        ensures
            r,
    {
        true
    }

    /// Compress, then decompress and byte-compare.
    pub fn run(&self, input: &[u8]) -> (r: Result<CodecOutput, String>)
        ensures
            match r {
                Ok(out) => reports(out, zstd_result(self.level, input@)),
                Err(_) => zstd_result(self.level, input@) is None,
            },
    {
        let t = timer_start();
        let out = match zstd_encode(self.level, input) {
            Ok(o) => o,
            Err(e) => {
                return Err(io_error_text(&e));
            },
        };
        let encode_ms = elapsed_ms(&t);
        let t = timer_start();
        let restored = match zstd_decode(&out) {
            Ok(d) => d,
            Err(e) => {
                return Err(io_error_text(&e));
            },
        };
        let decode_ms = elapsed_ms(&t);
        Ok(
            CodecOutput {
                out_bytes: out.len() as u64,
                encode_ms,
                roundtrip_ok: Some(same_bytes(&restored, input)),
                decode_ms: Some(decode_ms),
            },
        )
    }
}

/// One of the codecs in this build.
#[derive(Debug, Clone, Copy)]
pub enum Codec {
    Lepton(LeptonJpeg),
    Oxipng(Oxipng),
    Zstd(Zstd),
}

/// The name a codec reports under.
pub open spec fn codec_name(c: Codec) -> Seq<char> {
    match c {
        Codec::Lepton(_) => "lepton"@,
        Codec::Oxipng(_) => "oxipng"@,
        Codec::Zstd(_) => "zstd"@,
    }
}

/// What a failed run says: the codec's own error message, which for Lepton
/// and oxipng begins by naming the codec and the step; zstd's is the I/O
/// error's text alone.
pub open spec fn codec_error(c: Codec, input: Seq<u8>, m: Seq<char>) -> bool {
    match c {
        Codec::Lepton(_) => lepton_error(input, m),
        Codec::Oxipng(_) => "oxipng: "@.is_prefix_of(m),
        Codec::Zstd(_) => true,
    }
}

/// What a codec reports on an input, or `None` when it fails.
pub open spec fn codec_result(c: Codec, input: Seq<u8>) -> Option<(nat, Option<bool>)> {
    match c {
        Codec::Lepton(_) => lepton_result(input),
        Codec::Oxipng(o) => oxipng_result(o.preset, input),
        Codec::Zstd(z) => zstd_result(z.level, input),
    }
}

impl Codec {
    pub fn name(&self) -> (r: &'static str)
        ensures
            r@ == codec_name(*self),
    {
        match self {
            Codec::Lepton(c) => c.name(),
            Codec::Oxipng(c) => c.name(),
            Codec::Zstd(c) => c.name(),
        }
    }

    pub fn applies(&self, class: AssetClass) -> (r: bool)
        ensures
            r == match *self {
                Codec::Lepton(_) => class == AssetClass::Jpeg,
                Codec::Oxipng(_) => class == AssetClass::Png,
                Codec::Zstd(_) => true,
            },
    {
        match self {
            Codec::Lepton(c) => c.applies(class),
            Codec::Oxipng(c) => c.applies(class),
            Codec::Zstd(c) => c.applies(class),
        }
    }

    pub fn lossless(&self) -> (r: bool)
        ensures
            r,
    {
        match self {
            Codec::Lepton(c) => c.lossless(),
            Codec::Oxipng(c) => c.lossless(),
            Codec::Zstd(c) => c.lossless(),
        }
    }

    pub fn run(&self, input: &[u8]) -> (r: Result<CodecOutput, String>)
        ensures
            match r {
                Ok(out) => reports(out, codec_result(*self, input@)),
                Err(m) => codec_result(*self, input@) is None && codec_error(*self, input@, m@),
            },
    {
        match self {
            Codec::Lepton(c) => c.run(input),
            Codec::Oxipng(c) => c.run(input),
            Codec::Zstd(c) => c.run(input),
        }
    }
}

/// The codec set for a measurement run.
pub fn default_set() -> (v: Vec<Codec>)
    ensures
        v@.len() == 3,
        v@[0] matches Codec::Lepton(_),
        v@[1] matches Codec::Oxipng(o) && o.preset == 4,
        v@[2] matches Codec::Zstd(z) && z.level == 19,
{
    let mut v: Vec<Codec> = Vec::new();
    v.push(Codec::Lepton(LeptonJpeg));
    v.push(Codec::Oxipng(Oxipng { preset: 4 }));
    v.push(Codec::Zstd(Zstd { level: 19 }));
    v
}

} // verus!
