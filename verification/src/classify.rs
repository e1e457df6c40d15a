//! Format sniffing. Never trusts file extensions for anything but RAW and
//! documents, and never trusts a name when a header is available.

use vstd::prelude::*;

use crate::text::{chars_of, eq_str, lower, lower_chars, lower_seq};

verus! {

/// Routing bucket. The compression matrix is keyed on this.
#[derive(Debug, Clone, Copy, PartialEq, Eq, Hash, Structural)]
pub enum AssetClass {
    Jpeg,
    Png,
    Heic,
    /// MP4/MOV carrying H.264 — the one class with large transcode headroom.
    VideoH264,
    /// MP4/MOV carrying HEVC — already efficient.
    VideoHevc,
    VideoAv1,
    VideoOther,
    /// DNG / ProRAW / camera raw. Never re-encoded, in any tier.
    Raw,
    AudioLossless,
    AudioLossy,
    Document,
    Other,
}

/// The label a class is shown and keyed under.
pub open spec fn class_label(c: AssetClass) -> Seq<char> {
    match c {
        AssetClass::Jpeg => "JPEG"@,
        AssetClass::Png => "PNG"@,
        AssetClass::Heic => "HEIC"@,
        AssetClass::VideoH264 => "Video H.264"@,
        AssetClass::VideoHevc => "Video HEVC"@,
        AssetClass::VideoAv1 => "Video AV1"@,
        AssetClass::VideoOther => "Video other"@,
        AssetClass::Raw => "RAW/DNG"@,
        AssetClass::AudioLossless => "Audio lossless"@,
        AssetClass::AudioLossy => "Audio lossy"@,
        AssetClass::Document => "Document"@,
        AssetClass::Other => "Other"@,
    }
}

pub open spec fn class_is_video(c: AssetClass) -> bool {
    c == AssetClass::VideoH264 || c == AssetClass::VideoHevc || c == AssetClass::VideoAv1
        || c == AssetClass::VideoOther
}

pub open spec fn class_is_photo(c: AssetClass) -> bool {
    c == AssetClass::Jpeg || c == AssetClass::Png || c == AssetClass::Heic
}

/// The four video classes are the videos, and the three picture formats
/// the photos: RAW, audio, documents and everything else are neither.
pub proof fn law_photos_and_videos(c: AssetClass)
    ensures
        class_is_video(c) <==> (c == AssetClass::VideoH264 || c == AssetClass::VideoHevc || c
            == AssetClass::VideoAv1 || c == AssetClass::VideoOther),
        class_is_photo(c) <==> (c == AssetClass::Jpeg || c == AssetClass::Png || c == AssetClass::Heic),
        !(class_is_video(c) && class_is_photo(c)),
{
}

impl AssetClass {
    pub fn label(self) -> (r: &'static str)
        ensures
            r@ == class_label(self),
    {
        match self {
            AssetClass::Jpeg => "JPEG",
            AssetClass::Png => "PNG",
            AssetClass::Heic => "HEIC",
            AssetClass::VideoH264 => "Video H.264",
            AssetClass::VideoHevc => "Video HEVC",
            AssetClass::VideoAv1 => "Video AV1",
            AssetClass::VideoOther => "Video other",
            AssetClass::Raw => "RAW/DNG",
            AssetClass::AudioLossless => "Audio lossless",
            AssetClass::AudioLossy => "Audio lossy",
            AssetClass::Document => "Document",
            AssetClass::Other => "Other",
        }
    }

    pub fn is_video(self) -> (r: bool)
        ensures
            r == class_is_video(self),
    {
        match self {
            AssetClass::VideoH264 | AssetClass::VideoHevc | AssetClass::VideoAv1
            | AssetClass::VideoOther => true,
            _ => false,
        }
    }

    pub fn is_photo(self) -> (r: bool)
        ensures
            r == class_is_photo(self),
    {
        match self {
            AssetClass::Jpeg | AssetClass::Png | AssetClass::Heic => true,
            _ => false,
        }
    }

    /// Assets the engine must never re-encode, regardless of tier.
    pub fn is_protected(self) -> (r: bool)
        ensures
            r == (self == AssetClass::Raw),
    {
        match self {
            AssetClass::Raw => true,
            _ => false,
        }
    }
}

#[derive(Debug, Clone)]
pub struct AssetMeta {
    pub path: String,
    pub bytes: u64,
    pub class: AssetClass,
}

/// How much of the file header is inspected. Enough for `ftyp` and the first
/// `moov`/`stsd` fourcc in practice, without reading whole videos.
pub const SNIFF_LEN: usize = 262144;

/// How many header bytes decide between a document and an opaque blob.
pub const TEXT_PROBE: usize = 8192;

// ---------------------------------------------------------------- names ----

/// Position of the last `c` in `s`, or -1 when there is none.
pub open spec fn last_index_of(s: Seq<char>, c: char) -> int
    decreases s.len(),
{
    if s.len() == 0 {
        -1
    } else if s.last() == c {
        s.len() - 1
    } else {
        last_index_of(s.drop_last(), c)
    }
}

/// What follows the last `.` of a name; empty when there is no `.`.
pub open spec fn name_extension(name: Seq<char>) -> Seq<char> {
    let k = last_index_of(name, '.');
    if k < 0 {
        Seq::empty()
    } else {
        name.subrange(k + 1, name.len() as int)
    }
}

/// The class a lowercase extension names.
pub open spec fn extension_class(e: Seq<char>) -> AssetClass {
    if e == "jpg"@ || e == "jpeg"@ || e == "jpe"@ || e == "jfif"@ {
        AssetClass::Jpeg
    } else if e == "png"@ {
        AssetClass::Png
    } else if e == "heic"@ || e == "heif"@ || e == "avif"@ {
        AssetClass::Heic
    } else if e == "mp4"@ || e == "mov"@ || e == "m4v"@ || e == "mkv"@ || e == "webm"@ {
        AssetClass::VideoOther
    } else if is_raw_extension(e) {
        AssetClass::Raw
    } else if e == "flac"@ || e == "wav"@ || e == "aiff"@ {
        AssetClass::AudioLossless
    } else if e == "mp3"@ || e == "m4a"@ || e == "aac"@ || e == "ogg"@ || e == "opus"@ {
        AssetClass::AudioLossy
    } else if is_document_extension(e) {
        AssetClass::Document
    } else {
        AssetClass::Other
    }
}

pub open spec fn is_raw_extension(e: Seq<char>) -> bool {
    e == "dng"@ || e == "cr2"@ || e == "cr3"@ || e == "nef"@ || e == "arw"@ || e == "raf"@
        || e == "orf"@ || e == "rw2"@
}

pub open spec fn is_document_extension(e: Seq<char>) -> bool {
    e == "txt"@ || e == "md"@ || e == "json"@ || e == "csv"@ || e == "xml"@ || e == "log"@
        || e == "html"@ || e == "pdf"@
}

proof fn lemma_last_index_found(s: Seq<char>, c: char, k: int)
    requires
        0 <= k < s.len(),
        s[k] == c,
        forall|j: int| k < j < s.len() ==> s[j] != c,
    ensures
        last_index_of(s, c) == k,
    decreases s.len(),
{
    if s.last() != c {
        assert(k < s.len() - 1);
        lemma_last_index_found(s.drop_last(), c, k);
    }
}

proof fn lemma_last_index_absent(s: Seq<char>, c: char)
    requires
        forall|j: int| 0 <= j < s.len() ==> s[j] != c,
    ensures
        last_index_of(s, c) == -1,
    decreases s.len(),
{
    if s.len() > 0 {
        lemma_last_index_absent(s.drop_last(), c);
    }
}

/// The last index of `c` among the first `end` characters of `v`, or -1.
fn last_index(v: &[char], end: usize, c: char) -> (r: Option<usize>)
    requires
        end <= v.len(),
    ensures
        match r {
            Some(k) => k == last_index_of(v@.take(end as int), c) && k < end,
            None => last_index_of(v@.take(end as int), c) == -1,
        },
{
    let mut i: usize = end;
    while i > 0
        invariant
            i <= end <= v.len(),
            forall|j: int| i <= j < end ==> v@[j] != c,
        decreases i,
    {
        if v[i - 1] == c {
            proof {
                lemma_last_index_found(v@.take(end as int), c, i - 1);
            }
            return Some(i - 1);
        }
        i -= 1;
    }
    proof {
        lemma_last_index_absent(v@.take(end as int), c);
    }
    None
}

/// Whether `e` equals one of `options`.
fn is_one_of(e: &[char], options: &[&str]) -> (r: bool)
    ensures
        r == exists|i: int| 0 <= i < options.len() && e@ == options@[i]@,
{
    let mut i: usize = 0;
    while i < options.len()
        invariant
            i <= options.len(),
            forall|j: int| 0 <= j < i ==> e@ != options@[j]@,
        decreases options.len() - i,
    {
        if eq_str(e, options[i]) {
            return true;
        }
        i += 1;
    }
    false
}

fn is_raw_ext(e: &[char]) -> (r: bool)
    ensures
        r == is_raw_extension(e@),
{
    let opts = ["dng", "cr2", "cr3", "nef", "arw", "raf", "orf", "rw2"];
    let r = is_one_of(e, &opts);
    proof {
        if r {
            let i = choose|i: int| 0 <= i < opts@.len() && e@ == opts@[i]@;
            assert(0 <= i < 8);
        }
        if is_raw_extension(e@) {
            assert(e@ == opts@[0]@ || e@ == opts@[1]@ || e@ == opts@[2]@ || e@ == opts@[3]@
                || e@ == opts@[4]@ || e@ == opts@[5]@ || e@ == opts@[6]@ || e@ == opts@[7]@);
        }
    }
    r
}

fn is_document_ext(e: &[char]) -> (r: bool)
    ensures
        r == is_document_extension(e@),
{
    let opts = ["txt", "md", "json", "csv", "xml", "log", "html", "pdf"];
    let r = is_one_of(e, &opts);
    proof {
        if r {
            let i = choose|i: int| 0 <= i < opts@.len() && e@ == opts@[i]@;
            assert(0 <= i < 8);
        }
        if is_document_extension(e@) {
            assert(e@ == opts@[0]@ || e@ == opts@[1]@ || e@ == opts@[2]@ || e@ == opts@[3]@
                || e@ == opts@[4]@ || e@ == opts@[5]@ || e@ == opts@[6]@ || e@ == opts@[7]@);
        }
    }
    r
}

fn extension_class_of(e: &[char]) -> (r: AssetClass)
    ensures
        r == extension_class(e@),
{
    if eq_str(e, "jpg") || eq_str(e, "jpeg") || eq_str(e, "jpe") || eq_str(e, "jfif") {
        AssetClass::Jpeg
    } else if eq_str(e, "png") {
        AssetClass::Png
    } else if eq_str(e, "heic") || eq_str(e, "heif") || eq_str(e, "avif") {
        AssetClass::Heic
    } else if eq_str(e, "mp4") || eq_str(e, "mov") || eq_str(e, "m4v") || eq_str(e, "mkv")
        || eq_str(e, "webm") {
        AssetClass::VideoOther
    } else if is_raw_ext(e) {
        AssetClass::Raw
    } else if eq_str(e, "flac") || eq_str(e, "wav") || eq_str(e, "aiff") {
        AssetClass::AudioLossless
    } else if eq_str(e, "mp3") || eq_str(e, "m4a") || eq_str(e, "aac") || eq_str(e, "ogg")
        || eq_str(e, "opus") {
        AssetClass::AudioLossy
    } else if is_document_ext(e) {
        AssetClass::Document
    } else {
        AssetClass::Other
    }
}

/// Classify from a file name alone — no bytes read, no file opened.
///
/// This is the *pre-consent* path: the tier screen has to describe a
/// selection before access to it is granted, so all it has is a display name
/// and a size. The guess is replaced by [`classify_bytes`] the moment bytes
/// exist; an extension is a claim, and this engine does not act on claims.
pub fn classify_name(name: &str) -> (r: AssetClass)
    ensures
        r == extension_class(lower_seq(name_extension(name@))),
{
    let v = chars_of(name);
    let k = last_index(&v, v.len(), '.');
    assert(v@.take(v.len() as int) =~= v@);
    let ext: Vec<char> = match k {
        None => Vec::new(),
        Some(k) => slice_from(&v, k + 1),
    };
    assert(ext@ =~= name_extension(name@));
    let lower = lower_chars(&ext);
    extension_class_of(&lower)
}

/// ASCII uppercase of one character; every other character is unchanged.
pub open spec fn upper(c: char) -> char {
    if 'a' <= c && c <= 'z' {
        ((c as u8) - 32) as char
    } else {
        c
    }
}

/// ASCII uppercase of a character sequence.
pub open spec fn upper_seq(s: Seq<char>) -> Seq<char> {
    s.map_values(|c: char| upper(c))
}

/// Changing the case of letters moves no `.`.
proof fn lemma_last_dot_ignores_case(s: Seq<char>)
    ensures
        last_index_of(upper_seq(s), '.') == last_index_of(s, '.'),
        last_index_of(lower_seq(s), '.') == last_index_of(s, '.'),
    decreases s.len(),
{
    if s.len() > 0 {
        assert(upper_seq(s).drop_last() =~= upper_seq(s.drop_last()));
        assert(lower_seq(s).drop_last() =~= lower_seq(s.drop_last()));
        lemma_last_dot_ignores_case(s.drop_last());
    }
}

/// The class a name claims, from its extension, ASCII-case-insensitively.
pub open spec fn claimed_class(name: Seq<char>) -> AssetClass {
    extension_class(lower_seq(name_extension(name)))
}

/// A name's class depends on its extension alone, in either case: the same
/// name in upper or lower case claims the same class, a name with no `.`
/// claims nothing but `Other`, and no name claims a video codec, which only
/// the bytes can tell.
pub proof fn law_name_class(name: Seq<char>)
    ensures
        claimed_class(upper_seq(name)) == claimed_class(name),
        claimed_class(lower_seq(name)) == claimed_class(name),
        last_index_of(name, '.') < 0 ==> claimed_class(name) == AssetClass::Other,
        claimed_class(name) != AssetClass::VideoH264,
        claimed_class(name) != AssetClass::VideoHevc,
        claimed_class(name) != AssetClass::VideoAv1,
{
    lemma_last_dot_ignores_case(name);
    let e = name_extension(name);
    let k = last_index_of(name, '.');
    lemma_last_index_range(name, '.');
    if k < 0 {
        assert(upper_seq(e) =~= Seq::<char>::empty());
        assert(lower_seq(e) =~= Seq::<char>::empty());
    } else {
        assert(name_extension(upper_seq(name)) == upper_seq(name).subrange(k + 1, name.len() as int));
        assert(upper_seq(name).subrange(k + 1, name.len() as int) =~= upper_seq(e));
        assert(lower_seq(name).subrange(k + 1, name.len() as int) =~= lower_seq(e));
    }
    assert(name_extension(upper_seq(name)) =~= upper_seq(e));
    assert(name_extension(lower_seq(name)) =~= lower_seq(e));
    assert forall|i: int| 0 <= i < e.len() implies #[trigger] lower(upper(e[i])) == lower(e[i]) by {
        let c = e[i];
        if 'a' <= c && c <= 'z' {
            assert(upper(c) as u32 == c as u32 - 32);
        }
    }
    assert(lower_seq(upper_seq(e)) =~= lower_seq(e));
    assert forall|i: int| 0 <= i < e.len() implies #[trigger] lower(lower(e[i])) == lower(e[i]) by {
        let c = e[i];
        if 'A' <= c && c <= 'Z' {
            assert(lower(c) as u32 == c as u32 + 32);
        }
    }
    assert(lower_seq(lower_seq(e)) =~= lower_seq(e));
    if last_index_of(name, '.') < 0 {
        lemma_no_extension_is_other();
        assert(lower_seq(e) =~= Seq::<char>::empty());
    }
}

/// Where the last `c` can be.
proof fn lemma_last_index_range(s: Seq<char>, c: char)
    ensures
        -1 <= last_index_of(s, c) < s.len(),
    decreases s.len(),
{
    if s.len() > 0 {
        lemma_last_index_range(s.drop_last(), c);
    }
}

/// The empty extension names no class but `Other`.
proof fn lemma_no_extension_is_other()
    ensures
        extension_class(Seq::empty()) == AssetClass::Other,
{
    let e = Seq::<char>::empty();
    assert(e != "jpg"@) by {
        reveal_strlit("jpg");
        assert("jpg"@.len() == 3);
    }
    assert(e != "jpeg"@) by {
        reveal_strlit("jpeg");
        assert("jpeg"@.len() == 4);
    }
    assert(e != "jpe"@) by {
        reveal_strlit("jpe");
        assert("jpe"@.len() == 3);
    }
    assert(e != "jfif"@) by {
        reveal_strlit("jfif");
        assert("jfif"@.len() == 4);
    }
    assert(e != "png"@) by {
        reveal_strlit("png");
        assert("png"@.len() == 3);
    }
    assert(e != "heic"@) by {
        reveal_strlit("heic");
        assert("heic"@.len() == 4);
    }
    assert(e != "heif"@) by {
        reveal_strlit("heif");
        assert("heif"@.len() == 4);
    }
    assert(e != "avif"@) by {
        reveal_strlit("avif");
        assert("avif"@.len() == 4);
    }
    assert(e != "mp4"@) by {
        reveal_strlit("mp4");
        assert("mp4"@.len() == 3);
    }
    assert(e != "mov"@) by {
        reveal_strlit("mov");
        assert("mov"@.len() == 3);
    }
    assert(e != "m4v"@) by {
        reveal_strlit("m4v");
        assert("m4v"@.len() == 3);
    }
    assert(e != "mkv"@) by {
        reveal_strlit("mkv");
        assert("mkv"@.len() == 3);
    }
    assert(e != "webm"@) by {
        reveal_strlit("webm");
        assert("webm"@.len() == 4);
    }
    assert(e != "dng"@) by {
        reveal_strlit("dng");
        assert("dng"@.len() == 3);
    }
    assert(e != "cr2"@) by {
        reveal_strlit("cr2");
        assert("cr2"@.len() == 3);
    }
    assert(e != "cr3"@) by {
        reveal_strlit("cr3");
        assert("cr3"@.len() == 3);
    }
    assert(e != "nef"@) by {
        reveal_strlit("nef");
        assert("nef"@.len() == 3);
    }
    assert(e != "arw"@) by {
        reveal_strlit("arw");
        assert("arw"@.len() == 3);
    }
    assert(e != "raf"@) by {
        reveal_strlit("raf");
        assert("raf"@.len() == 3);
    }
    assert(e != "orf"@) by {
        reveal_strlit("orf");
        assert("orf"@.len() == 3);
    }
    assert(e != "rw2"@) by {
        reveal_strlit("rw2");
        assert("rw2"@.len() == 3);
    }
    assert(e != "flac"@) by {
        reveal_strlit("flac");
        assert("flac"@.len() == 4);
    }
    assert(e != "wav"@) by {
        reveal_strlit("wav");
        assert("wav"@.len() == 3);
    }
    assert(e != "aiff"@) by {
        reveal_strlit("aiff");
        assert("aiff"@.len() == 4);
    }
    assert(e != "mp3"@) by {
        reveal_strlit("mp3");
        assert("mp3"@.len() == 3);
    }
    assert(e != "m4a"@) by {
        reveal_strlit("m4a");
        assert("m4a"@.len() == 3);
    }
    assert(e != "aac"@) by {
        reveal_strlit("aac");
        assert("aac"@.len() == 3);
    }
    assert(e != "ogg"@) by {
        reveal_strlit("ogg");
        assert("ogg"@.len() == 3);
    }
    assert(e != "opus"@) by {
        reveal_strlit("opus");
        assert("opus"@.len() == 4);
    }
    assert(e != "txt"@) by {
        reveal_strlit("txt");
        assert("txt"@.len() == 3);
    }
    assert(e != "md"@) by {
        reveal_strlit("md");
        assert("md"@.len() == 2);
    }
    assert(e != "json"@) by {
        reveal_strlit("json");
        assert("json"@.len() == 4);
    }
    assert(e != "csv"@) by {
        reveal_strlit("csv");
        assert("csv"@.len() == 3);
    }
    assert(e != "xml"@) by {
        reveal_strlit("xml");
        assert("xml"@.len() == 3);
    }
    assert(e != "log"@) by {
        reveal_strlit("log");
        assert("log"@.len() == 3);
    }
    assert(e != "html"@) by {
        reveal_strlit("html");
        assert("html"@.len() == 4);
    }
    assert(e != "pdf"@) by {
        reveal_strlit("pdf");
        assert("pdf"@.len() == 3);
    }
}

/// `v[start..]` as a vector.
pub fn slice_from(v: &[char], start: usize) -> (r: Vec<char>)
    requires
        start <= v.len(),
    ensures
        r@ == v@.subrange(start as int, v.len() as int),
{
    slice_range(v, start, v.len())
}

/// `v[start..end]` as a vector.
pub fn slice_range(v: &[char], start: usize, end: usize) -> (r: Vec<char>)
    requires
        start <= end <= v.len(),
    ensures
        r@ == v@.subrange(start as int, end as int),
{
    let mut r: Vec<char> = Vec::new();
    let mut i: usize = start;
    while i < end
        invariant
            start <= i <= end <= v.len(),
            r@ == v@.subrange(start as int, i as int),
        decreases end - i,
    {
        r.push(v[i]);
        assert(v@.subrange(start as int, i + 1) =~= v@.subrange(start as int, i as int).push(
            v@[i as int],
        ));
        i += 1;
    }
    r
}

// ---------------------------------------------------------------- paths ----

/// The last component of a `/`-separated path that is neither empty nor `.`,
/// as `Path::file_name` sees it (before `..` is ruled out); empty when none.
pub open spec fn last_component(s: Seq<char>) -> Seq<char>
    decreases s.len(),
{
    let k = last_index_of(s, '/');
    let piece = s.subrange(k + 1, s.len() as int);
    if piece.len() == 0 || piece == seq!['.'] {
        if k < 0 {
            Seq::empty()
        } else {
            proof {
                lemma_last_index_bounds(s, '/');
            }
            last_component(s.subrange(0, k))
        }
    } else {
        piece
    }
}

/// `Path::extension` of a path given as text, with "no extension" read as
/// the empty string.
pub open spec fn path_extension(s: Seq<char>) -> Seq<char> {
    let f = last_component(s);
    if f.len() == 0 || f == seq!['.', '.'] {
        Seq::empty()
    } else {
        let k = last_index_of(f, '.');
        if k <= 0 {
            Seq::empty()
        } else {
            f.subrange(k + 1, f.len() as int)
        }
    }
}

pub proof fn lemma_last_index_bounds(s: Seq<char>, c: char)
    ensures
        -1 <= last_index_of(s, c) < s.len(),
        last_index_of(s, c) >= 0 ==> s[last_index_of(s, c)] == c,
    decreases s.len(),
{
    if s.len() > 0 && s.last() != c {
        lemma_last_index_bounds(s.drop_last(), c);
    }
}

/// The file name of a path, as characters; empty when the path has none.
fn file_name_chars(v: &[char]) -> (r: Vec<char>)
    ensures
        r@ == last_component(v@),
        r.len() <= v.len(),
{
    let mut end: usize = v.len();
    assert(v@.take(v.len() as int) =~= v@);
    loop
        invariant
            end <= v.len(),
            last_component(v@.take(end as int)) == last_component(v@),
        decreases end,
    {
        let kk = last_index(v, end, '/');
        let ghost s = v@.take(end as int);
        proof {
            lemma_last_index_bounds(s, '/');
        }
        let ghost k: int = match kk {
            Some(k) => k as int,
            None => -1,
        };
        let start: usize = match kk {
            Some(k) => k + 1,
            None => 0,
        };
        let piece = slice_range(v, start, end);
        assert(piece@ =~= s.subrange(k + 1, s.len() as int));
        if piece.len() == 0 || (piece.len() == 1 && piece[0] == '.') {
            proof {
                if piece.len() == 1 {
                    assert(piece@ =~= seq!['.']);
                }
            }
            match kk {
                None => {
                    return Vec::new();
                },
                Some(k) => {
                    assert(s.subrange(0, k as int) =~= v@.take(k as int));
                    end = k;
                },
            }
        } else {
            proof {
                if piece@ == seq!['.'] {
                    assert(piece@[0] == '.');
                }
            }
            return piece;
        }
    }
}

/// `Path::extension` of `path`, lowercased; empty when it has none.
fn path_extension_lower(path: &str) -> (r: Vec<char>)
    ensures
        r@ == lower_seq(path_extension(path@)),
{
    let v = chars_of(path);
    let f = file_name_chars(&v);
    if f.len() == 0 || (f.len() == 2 && f[0] == '.' && f[1] == '.') {
        proof {
            if f.len() == 2 {
                assert(f@ =~= seq!['.', '.']);
            }
        }
        assert(lower_seq(Seq::<char>::empty()) =~= Seq::<char>::empty());
        return Vec::new();
    }
    proof {
        if f@ == seq!['.', '.'] {
            assert(f@[0] == '.' && f@[1] == '.');
        }
    }
    let kk = last_index(&f, f.len(), '.');
    assert(f@.take(f.len() as int) =~= f@);
    let k = match kk {
        Some(k) if k > 0 => k,
        _ => {
            assert(lower_seq(Seq::<char>::empty()) =~= Seq::<char>::empty());
            return Vec::new();
        },
    };
    let ext = slice_from(&f, k + 1);
    lower_chars(&ext)
}

// ---------------------------------------------------------------- bytes ----

/// What `infer` reports as the MIME type of a header, with "unknown" read as
/// the empty string. Deterministic in the header alone.
pub uninterp spec fn infer_mime(head: Seq<u8>) -> Seq<char>;

/// `infer::get` on the header, mapped to its MIME string ("" when `infer`
/// recognises nothing). The contract claims only that the result is the
/// named function of the header bytes.
#[verifier::external_body]
fn sniff_mime(head: &[u8]) -> (m: String)
    ensures
        m@ == infer_mime(head@),
{
    match infer::get(head) {
        Some(kind) => kind.mime_type().to_string(),
        None => String::new(),
    }
}

/// Whether the four bytes `tag` occur anywhere in `head`.
pub open spec fn has_tag(head: Seq<u8>, tag: Seq<u8>) -> bool {
    exists|i: int| 0 <= i && i + 4 <= head.len() && #[trigger] head.subrange(i, i + 4) == tag
}

/// The codec a video header names, by the first sample-entry fourcc found.
pub open spec fn video_class(head: Seq<u8>) -> AssetClass {
    if has_tag(head, seq![104u8, 118u8, 99u8, 49u8]) || has_tag(head, seq![104u8, 101u8, 118u8, 49u8]) {
        AssetClass::VideoHevc
    } else if has_tag(head, seq![97u8, 118u8, 99u8, 49u8]) || has_tag(head, seq![97u8, 118u8, 99u8, 51u8]) {
        AssetClass::VideoH264
    } else if has_tag(head, seq![97u8, 118u8, 48u8, 49u8]) {
        AssetClass::VideoAv1
    } else {
        AssetClass::VideoOther
    }
}

/// A byte that reads as text: a line break, a tab or printable ASCII.
pub open spec fn is_text_byte(b: u8) -> bool {
    b == 10 || b == 13 || b == 9 || (0x20 <= b && b < 0x7f)
}

/// Whether the first [`TEXT_PROBE`] bytes of `head` all read as text.
pub open spec fn looks_like_text(head: Seq<u8>) -> bool {
    forall|i: int| 0 <= i < head.len() && i < TEXT_PROBE ==> is_text_byte(#[trigger] head[i])
}

/// The class a MIME type routes to, or `None` when the header alone does
/// not decide.
pub open spec fn mime_class(m: Seq<char>, head: Seq<u8>) -> Option<AssetClass> {
    if m == "image/jpeg"@ {
        Some(AssetClass::Jpeg)
    } else if m == "image/png"@ {
        Some(AssetClass::Png)
    } else if m == "image/heif"@ || m == "image/heic"@ || m == "image/avif"@ {
        Some(AssetClass::Heic)
    } else if m == "image/x-canon-cr2"@ || m == "image/x-nikon-nef"@ || m == "image/tiff"@ {
        Some(AssetClass::Raw)
    } else if m == "audio/x-flac"@ || m == "audio/x-wav"@ || m == "audio/wav"@ {
        Some(AssetClass::AudioLossless)
    } else if m == "audio/mpeg"@ || m == "audio/m4a"@ || m == "audio/aac"@ || m == "audio/ogg"@ {
        Some(AssetClass::AudioLossy)
    } else if m == "video/mp4"@ || m == "video/quicktime"@ || m == "video/x-matroska"@
        || m == "video/webm"@ {
        Some(video_class(head))
    } else {
        None
    }
}

/// The class of a file from its header and its path, given what `infer`
/// made of the header.
pub open spec fn class_from(m: Seq<char>, head: Seq<u8>, path: Seq<char>) -> AssetClass {
    match mime_class(m, head) {
        Some(c) => c,
        None => {
            let e = lower_seq(path_extension(path));
            if is_raw_extension(e) {
                AssetClass::Raw
            } else if is_document_extension(e) {
                AssetClass::Document
            } else if e.len() == 0 {
                AssetClass::Other
            } else if looks_like_text(head) {
                AssetClass::Document
            } else {
                AssetClass::Other
            }
        },
    }
}

fn has_tag_exec(head: &[u8], t0: u8, t1: u8, t2: u8, t3: u8) -> (r: bool)
    ensures
        r == has_tag(head@, seq![t0, t1, t2, t3]),
{
    let ghost tag = seq![t0, t1, t2, t3];
    if head.len() < 4 {
        return false;
    }
    let mut i: usize = 0;
    while i <= head.len() - 4
        invariant
            head.len() >= 4,
            i <= head.len() - 3,
            tag == seq![t0, t1, t2, t3],
            forall|j: int| 0 <= j < i ==> #[trigger] head@.subrange(j, j + 4) != tag,
        decreases head.len() - i,
    {
        if head[i] == t0 && head[i + 1] == t1 && head[i + 2] == t2 && head[i + 3] == t3 {
            assert(head@.subrange(i as int, i + 4) =~= tag);
            return true;
        }
        assert(head@.subrange(i as int, i + 4)[0] == head@[i as int]);
        assert(head@.subrange(i as int, i + 4)[1] == head@[i + 1]);
        assert(head@.subrange(i as int, i + 4)[2] == head@[i + 2]);
        assert(head@.subrange(i as int, i + 4)[3] == head@[i + 3]);
        i += 1;
    }
    false
}

/// Crude sample-entry sniff: the codec fourcc anywhere in the header region.
///
/// The sample entry lives in `moov`, at the head of a faststart file and at
/// the tail otherwise; the tail miss is accepted and reported as
/// `VideoOther`.
pub fn classify_video(head: &[u8]) -> (r: AssetClass)
    ensures
        r == video_class(head@),
{
    if has_tag_exec(head, 104, 118, 99, 49) || has_tag_exec(head, 104, 101, 118, 49) {
        AssetClass::VideoHevc
    } else if has_tag_exec(head, 97, 118, 99, 49) || has_tag_exec(head, 97, 118, 99, 51) {
        AssetClass::VideoH264
    } else if has_tag_exec(head, 97, 118, 48, 49) {
        AssetClass::VideoAv1
    } else {
        AssetClass::VideoOther
    }
}

fn looks_like_text_exec(head: &[u8]) -> (r: bool)
    ensures
        r == looks_like_text(head@),
{
    let mut i: usize = 0;
    while i < head.len() && i < TEXT_PROBE
        invariant
            i <= head.len(),
            forall|j: int| 0 <= j < i ==> is_text_byte(#[trigger] head@[j]),
        decreases head.len() - i,
    {
        let b = head[i];
        if !(b == 10 || b == 13 || b == 9 || (0x20 <= b && b < 0x7f)) {
            return false;
        }
        i += 1;
    }
    true
}

/// The routing decision once the MIME string is known.
pub fn class_from_mime(mime: &str, head: &[u8], path: &str) -> (r: AssetClass)
    ensures
        r == class_from(mime@, head@, path@),
{
    let m = chars_of(mime);
    if eq_str(&m, "image/jpeg") {
        return AssetClass::Jpeg;
    } else if eq_str(&m, "image/png") {
        return AssetClass::Png;
    } else if eq_str(&m, "image/heif") || eq_str(&m, "image/heic") || eq_str(&m, "image/avif") {
        return AssetClass::Heic;
    } else if eq_str(&m, "image/x-canon-cr2") || eq_str(&m, "image/x-nikon-nef") || eq_str(
        &m,
        "image/tiff",
    ) {
        return AssetClass::Raw;
    } else if eq_str(&m, "audio/x-flac") || eq_str(&m, "audio/x-wav") || eq_str(&m, "audio/wav") {
        return AssetClass::AudioLossless;
    } else if eq_str(&m, "audio/mpeg") || eq_str(&m, "audio/m4a") || eq_str(&m, "audio/aac")
        || eq_str(&m, "audio/ogg") {
        return AssetClass::AudioLossy;
    } else if eq_str(&m, "video/mp4") || eq_str(&m, "video/quicktime") || eq_str(
        &m,
        "video/x-matroska",
    ) || eq_str(&m, "video/webm") {
        return classify_video(head);
    }
    // DNG is a TIFF variant that `infer` may not label; fall back to the
    // extension for the raw family only, since misrouting a RAW is the
    // costly error.
    let e = path_extension_lower(path);
    if is_raw_ext(&e) {
        AssetClass::Raw
    } else if is_document_ext(&e) {
        AssetClass::Document
    } else if e.len() == 0 {
        AssetClass::Other
    } else if looks_like_text_exec(head) {
        AssetClass::Document
    } else {
        AssetClass::Other
    }
}

/// Classify from the header bytes, with the path's extension as the
/// fallback for RAW and documents only.
pub fn classify_bytes(head: &[u8], path: &str) -> (r: AssetClass)
    ensures
        r == class_from(infer_mime(head@), head@, path@),
{
    let mime = sniff_mime(head);
    class_from_mime(mime.as_str(), head, path)
}

} // verus!

verus! {

/// The header decides whenever it can: a file whose header names a class
/// gets that class whatever its name says. Only when the header decides
/// nothing does the name count, and then a RAW or document extension routes
/// by the name, any other extension routes by whether the bytes read as
/// text, and no extension at all routes to `Other`.
pub proof fn law_header_decides(m: Seq<char>, head: Seq<u8>, path: Seq<char>, other: Seq<char>)
    ensures
        mime_class(m, head) is Some ==> class_from(m, head, path) == class_from(m, head, other),
        mime_class(m, head) is None && is_raw_extension(lower_seq(path_extension(path)))
            ==> class_from(m, head, path) == AssetClass::Raw,
        mime_class(m, head) is None && lower_seq(path_extension(path)).len() == 0
            ==> class_from(m, head, path) == AssetClass::Other,
        class_from(m, head, path) == AssetClass::Raw ==> mime_class(m, head) == Some(AssetClass::Raw)
            || (mime_class(m, head) is None && is_raw_extension(lower_seq(path_extension(path)))),
{
    reveal_strlit("dng");
    reveal_strlit("cr2");
    reveal_strlit("cr3");
    reveal_strlit("nef");
    reveal_strlit("arw");
    reveal_strlit("raf");
    reveal_strlit("orf");
    reveal_strlit("rw2");
    reveal_strlit("txt");
    reveal_strlit("md");
    reveal_strlit("json");
    reveal_strlit("csv");
    reveal_strlit("xml");
    reveal_strlit("log");
    reveal_strlit("html");
    reveal_strlit("pdf");
}

} // verus!
