//! Video measurement through the `ffmpeg` command line: what to ask of it
//! and how to read its answer. Running it is the host's business.
//!
//! This is the desktop stand-in only; on a phone the platform's hardware
//! encoder does the work. Software x265 is far slower than a phone's
//! encoder, so the ratio is meaningful and the timing is not transferable.

use vstd::prelude::*;

use crate::audit::{matches_at, matches_here};
use crate::text::{chars_of, decimal, push_decimal, push_str, string_of};
use crate::classify::slice_range;

verus! {

/// Whitespace as `char::is_whitespace` reads it: the Unicode `White_Space`
/// characters.
pub open spec fn is_space(c: char) -> bool {
    c == '\t' || c == '\n' || c == '\x0B' || c == '\x0C' || c == '\r' || c == ' ' || c == '\u{85}'
        || c == '\u{A0}' || c == '\u{1680}' || ('\u{2000}' <= c && c <= '\u{200A}') || c
        == '\u{2028}' || c == '\u{2029}' || c == '\u{202F}' || c == '\u{205F}' || c == '\u{3000}'
}

pub fn is_space_char(c: char) -> (r: bool)
    ensures
        r == is_space(c),
{
    c == '\t' || c == '\n' || c == '\x0B' || c == '\x0C' || c == '\r' || c == ' ' || c == '\u{85}'
        || c == '\u{A0}' || c == '\u{1680}' || ('\u{2000}' <= c && c <= '\u{200A}') || c
        == '\u{2028}' || c == '\u{2029}' || c == '\u{202F}' || c == '\u{205F}' || c == '\u{3000}'
}

/// The arguments that transcode `src` to HEVC at `crf` into `dst`, with the
/// audio re-encoded to Opus at `opus_kbps` or copied, and the rotation and
/// creation metadata carried over.
pub open spec fn hevc_args(
    src: Seq<char>,
    dst: Seq<char>,
    crf: u32,
    opus_kbps: Option<u32>,
    threads: u64,
) -> Seq<Seq<char>> {
    seq!["-hide_banner"@, "-loglevel"@, "error"@, "-y"@, "-i"@, src]
        + seq!["-c:v"@, "libx265"@, "-crf"@, decimal(crf as nat)]
        + seq!["-preset"@, "medium"@, "-tag:v"@, "hvc1"@]
        + seq!["-threads"@, decimal(threads as nat)]
        + match opus_kbps {
            Some(k) => seq!["-c:a"@, "libopus"@, "-b:a"@, decimal(k as nat) + "k"@],
            None => seq!["-c:a"@, "copy"@],
        }
        + seq!["-map_metadata"@, "0"@, "-movflags"@, "+faststart"@, dst]
}

pub open spec fn arg_views(v: Seq<String>) -> Seq<Seq<char>> {
    v.map_values(|s: String| s@)
}

fn push_arg(args: &mut Vec<String>, a: &str)
    ensures
        arg_views(final(args)@) == arg_views(old(args)@).push(a@),
{
    let mut s = String::new();
    push_str(&mut s, a);
    let ghost before = arg_views(args@);
    args.push(s);
    assert(arg_views(args@) =~= before.push(a@));
}

fn push_number(args: &mut Vec<String>, n: u64, suffix: &str)
    ensures
        arg_views(final(args)@) == arg_views(old(args)@).push(decimal(n as nat) + suffix@),
{
    let mut s = String::new();
    push_decimal(&mut s, n);
    push_str(&mut s, suffix);
    let ghost before = arg_views(args@);
    args.push(s);
    assert(arg_views(args@) =~= before.push(decimal(n as nat) + suffix@));
}

/// The `ffmpeg` arguments for an HEVC transcode.
///
/// Audio matters more than it looks: negligible on 4K, but a tenth of a
/// low-bitrate messaging clip.
pub fn transcode_args(src: &str, dst: &str, crf: u32, opus_kbps: Option<u32>, threads: usize) -> (r:
    Vec<String>)
    ensures
        arg_views(r@) == hevc_args(src@, dst@, crf, opus_kbps, threads as u64),
{
    let mut a: Vec<String> = Vec::new();
    push_arg(&mut a, "-hide_banner");
    push_arg(&mut a, "-loglevel");
    push_arg(&mut a, "error");
    push_arg(&mut a, "-y");
    push_arg(&mut a, "-i");
    push_arg(&mut a, src);
    push_arg(&mut a, "-c:v");
    push_arg(&mut a, "libx265");
    push_arg(&mut a, "-crf");
    push_number(&mut a, crf as u64, "");
    push_arg(&mut a, "-preset");
    push_arg(&mut a, "medium");
    push_arg(&mut a, "-tag:v");
    push_arg(&mut a, "hvc1");
    push_arg(&mut a, "-threads");
    push_number(&mut a, threads as u64, "");
    match opus_kbps {
        Some(k) => {
            push_arg(&mut a, "-c:a");
            push_arg(&mut a, "libopus");
            push_arg(&mut a, "-b:a");
            push_number(&mut a, k as u64, "k");
        },
        None => {
            push_arg(&mut a, "-c:a");
            push_arg(&mut a, "copy");
        },
    }
    push_arg(&mut a, "-map_metadata");
    push_arg(&mut a, "0");
    push_arg(&mut a, "-movflags");
    push_arg(&mut a, "+faststart");
    push_arg(&mut a, dst);
    proof {
        reveal_strlit("");
        assert(decimal(crf as nat) + ""@ =~= decimal(crf as nat));
        assert(decimal(threads as nat) + ""@ =~= decimal(threads as nat));
        assert(arg_views(a@) =~= hevc_args(src@, dst@, crf, opus_kbps, threads as u64));
    }
    a
}

// ---------------------------------------------------------------- VMAF ----

/// The last position at or before `i` where `pat` occurs in `s`, or -1.
pub open spec fn find_last_upto(s: Seq<char>, pat: Seq<char>, i: int) -> int
    decreases i + 1,
{
    if i < 0 {
        -1
    } else if matches_at(s, pat, i) {
        i
    } else {
        find_last_upto(s, pat, i - 1)
    }
}

/// The last occurrence of `pat` in `s`, or -1: what `str::rfind` answers.
pub open spec fn find_last(s: Seq<char>, pat: Seq<char>) -> int {
    find_last_upto(s, pat, s.len() - pat.len())
}

/// How many whitespace characters lead `s`.
pub open spec fn leading_spaces(s: Seq<char>) -> nat
    decreases s.len(),
{
    if s.len() > 0 && is_space(s[0]) {
        1 + leading_spaces(s.drop_first())
    } else {
        0
    }
}

/// How many non-whitespace characters lead `s`.
pub open spec fn leading_word(s: Seq<char>) -> nat
    decreases s.len(),
{
    if s.len() > 0 && !is_space(s[0]) {
        1 + leading_word(s.drop_first())
    } else {
        0
    }
}

/// The first whitespace-separated word of `s`, as `split_whitespace`
/// yields it first.
pub open spec fn first_word(s: Seq<char>) -> Option<Seq<char>> {
    let t = s.skip(leading_spaces(s) as int);
    if t.len() == 0 {
        None
    } else {
        Some(t.take(leading_word(t) as int))
    }
}

pub open spec fn vmaf_marker() -> Seq<char> {
    "VMAF score: "@
}

/// The score's text in `ffmpeg`'s log: the first word after the last
/// `VMAF score: `.
pub open spec fn vmaf_text(log: Seq<char>) -> Option<Seq<char>> {
    let i = find_last(log, vmaf_marker());
    if i < 0 {
        None
    } else {
        first_word(log.skip(i + vmaf_marker().len()))
    }
}

proof fn lemma_find_last_found(s: Seq<char>, pat: Seq<char>, i: int, k: int)
    requires
        k <= i,
        0 <= k,
        matches_at(s, pat, k),
        forall|j: int| k < j <= i ==> !matches_at(s, pat, j),
    ensures
        find_last_upto(s, pat, i) == k,
    decreases i - k,
{
    if k < i {
        lemma_find_last_found(s, pat, i - 1, k);
    }
}

proof fn lemma_find_last_bounds(s: Seq<char>, pat: Seq<char>, i: int)
    ensures
        find_last_upto(s, pat, i) == -1 || (0 <= find_last_upto(s, pat, i) <= i && matches_at(
            s,
            pat,
            find_last_upto(s, pat, i),
        )),
    decreases i + 1,
{
    if i >= 0 && !matches_at(s, pat, i) {
        lemma_find_last_bounds(s, pat, i - 1);
    }
}

proof fn lemma_find_last_absent(s: Seq<char>, pat: Seq<char>, i: int)
    requires
        forall|j: int| 0 <= j <= i ==> !matches_at(s, pat, j),
    ensures
        find_last_upto(s, pat, i) == -1,
    decreases i + 1,
{
    if i >= 0 {
        lemma_find_last_absent(s, pat, i - 1);
    }
}

/// The last position where `pat` occurs in `v`.
fn rfind(v: &[char], pat: &[char]) -> (r: Option<usize>)
    requires
        pat.len() >= 1,
    ensures
        match r {
            Some(k) => k == find_last(v@, pat@),
            None => find_last(v@, pat@) == -1,
        },
{
    if pat.len() > v.len() {
        proof {
            lemma_find_last_absent(v@, pat@, v@.len() - pat@.len());
        }
        return None;
    }
    let top = v.len() - pat.len();
    let mut i: usize = top + 1;
    while i > 0
        invariant
            i <= top + 1,
            top + pat.len() == v.len(),
            forall|j: int| i <= j <= top ==> !matches_at(v@, pat@, j),
        decreases i,
    {
        i -= 1;
        if matches_here(v, pat, i) {
            proof {
                lemma_find_last_found(v@, pat@, top as int, i as int);
            }
            return Some(i);
        }
    }
    proof {
        lemma_find_last_absent(v@, pat@, top as int);
    }
    None
}

proof fn lemma_leading_spaces(s: Seq<char>, n: int)
    requires
        0 <= n <= s.len(),
        forall|j: int| 0 <= j < n ==> is_space(s[j]),
        n == s.len() || !is_space(s[n]),
    ensures
        leading_spaces(s) == n,
    decreases n,
{
    if n > 0 {
        lemma_leading_spaces(s.drop_first(), n - 1);
    }
}

proof fn lemma_leading_word(s: Seq<char>, n: int)
    requires
        0 <= n <= s.len(),
        forall|j: int| 0 <= j < n ==> !is_space(s[j]),
        n == s.len() || is_space(s[n]),
    ensures
        leading_word(s) == n,
    decreases n,
{
    if n > 0 {
        lemma_leading_word(s.drop_first(), n - 1);
    }
}

/// The text of the VMAF score in `ffmpeg`'s log, if it printed one: the
/// first word after the last `VMAF score: `.
pub fn vmaf_score_text(log: &str) -> (r: Option<String>)
    ensures
        match r {
            Some(t) => vmaf_text(log@) == Some(t@),
            None => vmaf_text(log@) is None,
        },
{
    let v = chars_of(log);
    let marker = chars_of("VMAF score: ");
    proof {
        reveal_strlit("VMAF score: ");
    }
    let at = match rfind(&v, &marker) {
        Some(i) => i,
        None => {
            return None;
        },
    };
    proof {
        lemma_find_last_bounds(v@, marker@, v@.len() - marker@.len());
        assert(at == find_last(v@, marker@));
        assert(matches_at(v@, marker@, at as int));
        assert(at + marker.len() <= v.len());
    }
    let ghost rest = log@.skip(at + marker@.len());
    let mut j: usize = at + marker.len();
    while j < v.len() && is_space_char(v[j])
        invariant
            at + marker@.len() <= j <= v.len(),
            v@ == log@,
            rest == v@.skip(at + marker@.len()),
            forall|u: int| at + marker@.len() <= u < j ==> is_space(v@[u]),
        decreases v.len() - j,
    {
        j += 1;
    }
    let ghost lead = j - (at + marker@.len());
    proof {
        lemma_leading_spaces(rest, lead);
    }
    if j == v.len() {
        return None;
    }
    let mut k: usize = j;
    while k < v.len() && !is_space_char(v[k])
        invariant
            j <= k <= v.len(),
            v@ == log@,
            forall|u: int| j <= u < k ==> !is_space(v@[u]),
        decreases v.len() - k,
    {
        k += 1;
    }
    let word = string_of(&slice_range(&v, j, k));
    proof {
        let t = rest.skip(lead);
        assert(t =~= v@.skip(j as int));
        lemma_leading_word(t, k - j);
        assert(word@ =~= t.take(k - j));
    }
    Some(word)
}

} // verus!
