//! The append-only, hash-chained log.
//!
//! Each entry commits to the one before it, so a removed entry is detectable
//! rather than merely missing. Skips and failures are recorded as prominently
//! as successes.
//!
//! The line format is five flat fields of hand-written JSON, read back by a
//! deliberately tolerant reader: a truncated final line after a crash must
//! cost that line and nothing else.

use vstd::prelude::*;
use vstd::string::StrSliceExecFns;
use vstd::utf8::encode_utf8;

use crate::classify::slice_range;
use crate::digest::{blake3_hex, digest_prefix, le_bytes, push_le_u64, push_utf8};
use crate::text::{
    chars_of, decimal, digit_value, digits_value, eq_str, is_digit, parse_digits, push, push_all,
    push_decimal, push_str, string_of,
};

verus! {

/// One event, and its link in the chain.
#[derive(Debug, Clone)]
pub struct Entry {
    /// Unix seconds, UTC.
    pub at: u64,
    /// `grant` · `run` · `skip` · `fail` · `restore`: a closed set.
    pub kind: &'static str,
    pub title: String,
    pub detail: String,
    /// BLAKE3 over the previous hash and this entry's own fields, truncated to
    /// 24 hex characters.
    pub hash: String,
}

/// An entry as plain values.
pub struct EntryView {
    pub at: u64,
    pub kind: Seq<char>,
    pub title: Seq<char>,
    pub detail: Seq<char>,
    pub hash: Seq<char>,
}

impl View for Entry {
    type V = EntryView;

    open spec fn view(&self) -> EntryView {
        EntryView {
            at: self.at,
            kind: self.kind@,
            title: self.title@,
            detail: self.detail@,
            hash: self.hash@,
        }
    }
}

/// The views of a run of entries.
pub open spec fn entry_views(es: Seq<Entry>) -> Seq<EntryView> {
    es.map_values(|e: Entry| e@)
}

/// The log: where it lives, the hash the next entry chains to, and its
/// entries.
#[derive(Debug)]
pub struct Audit {
    pub path: String,
    /// The hash the next entry chains to: the last entry's, or the genesis
    /// marker for an empty log, for every log that `open` and `record` made.
    pub prev: String,
    pub entries: Vec<Entry>,
}

/// The log as plain values.
pub struct AuditView {
    pub path: Seq<char>,
    pub prev: Seq<char>,
    pub entries: Seq<EntryView>,
}

impl View for Audit {
    type V = AuditView;

    open spec fn view(&self) -> AuditView {
        AuditView { path: self.path@, prev: self.prev@, entries: entry_views(self.entries@) }
    }
}

/// What the chain starts from.
pub open spec fn genesis() -> Seq<char> {
    seq!['g', 'e', 'n', 'e', 's', 'i', 's']
}

// ------------------------------------------------------------- escaping ----

pub open spec fn escape_char(c: char) -> Seq<char> {
    if c == '\\' {
        seq!['\\', '\\']
    } else if c == '"' {
        seq!['\\', '"']
    } else if c == '\n' {
        seq![' ']
    } else {
        seq![c]
    }
}

/// Backslashes doubled, quotes backslashed, newlines read as spaces.
pub open spec fn escaped(s: Seq<char>) -> Seq<char>
    decreases s.len(),
{
    if s.len() == 0 {
        Seq::empty()
    } else {
        escaped(s.drop_last()) + escape_char(s.last())
    }
}

/// `s` with `\` doubled, `"` backslashed and newlines turned into spaces.
pub fn escape(s: &str) -> (r: String)
    ensures
        r@ == escaped(s@),
{
    let v = chars_of(s);
    let mut r = String::new();
    let mut i: usize = 0;
    while i < v.len()
        invariant
            i <= v.len(),
            v@ == s@,
            r@ == escaped(v@.take(i as int)),
        decreases v.len() - i,
    {
        let c = v[i];
        if c == '\\' {
            push(&mut r, '\\');
            push(&mut r, '\\');
        } else if c == '"' {
            push(&mut r, '\\');
            push(&mut r, '"');
        } else if c == '\n' {
            push(&mut r, ' ');
        } else {
            push(&mut r, c);
        }
        assert(v@.take(i + 1).drop_last() =~= v@.take(i as int));
        assert(r@ =~= escaped(v@.take(i + 1)));
        i += 1;
    }
    assert(v@.take(v.len() as int) =~= v@);
    r
}

// ------------------------------------------------------------ searching ----

/// Whether `pat` occurs in `s` at `i`.
pub open spec fn matches_at(s: Seq<char>, pat: Seq<char>, i: int) -> bool {
    0 <= i && i + pat.len() <= s.len() && s.subrange(i, i + pat.len()) == pat
}

/// The first occurrence of `pat` in `s` at or after `i`, or -1.
pub open spec fn find_from(s: Seq<char>, pat: Seq<char>, i: int) -> int
    decreases s.len() + 1 - i,
{
    if i < 0 || i + pat.len() > s.len() {
        -1
    } else if matches_at(s, pat, i) {
        i
    } else {
        find_from(s, pat, i + 1)
    }
}

/// The first occurrence of `pat` in `s`, or -1: what `str::find` answers.
pub open spec fn find_first(s: Seq<char>, pat: Seq<char>) -> int {
    find_from(s, pat, 0)
}

pub proof fn lemma_find_from_found(s: Seq<char>, pat: Seq<char>, i: int, k: int)
    requires
        0 <= i <= k,
        matches_at(s, pat, k),
        forall|j: int| i <= j < k ==> !matches_at(s, pat, j),
    ensures
        find_from(s, pat, i) == k,
    decreases k - i,
{
    if i < k {
        lemma_find_from_found(s, pat, i + 1, k);
    }
}

pub proof fn lemma_find_from_absent(s: Seq<char>, pat: Seq<char>, i: int)
    requires
        0 <= i,
        forall|j: int| i <= j ==> !matches_at(s, pat, j),
    ensures
        find_from(s, pat, i) == -1,
    decreases s.len() + 1 - i,
{
    if i + pat.len() <= s.len() {
        lemma_find_from_absent(s, pat, i + 1);
    }
}

pub proof fn lemma_find_from_bounds(s: Seq<char>, pat: Seq<char>, i: int)
    ensures
        find_from(s, pat, i) == -1 || (i <= find_from(s, pat, i) && matches_at(
            s,
            pat,
            find_from(s, pat, i),
        )),
    decreases s.len() + 1 - i,
{
    if !(i < 0 || i + pat.len() > s.len()) && !matches_at(s, pat, i) {
        lemma_find_from_bounds(s, pat, i + 1);
    }
}

pub(crate) fn matches_here(v: &[char], pat: &[char], i: usize) -> (r: bool)
    requires
        i + pat.len() <= v.len(),
    ensures
        r == matches_at(v@, pat@, i as int),
{
    let mut t: usize = 0;
    while t < pat.len()
        invariant
            t <= pat.len(),
            i + pat.len() <= v.len(),
            forall|u: int| 0 <= u < t ==> v@[i + u] == pat@[u],
        decreases pat.len() - t,
    {
        if v[i + t] != pat[t] {
            assert(v@.subrange(i as int, i + pat.len())[t as int] != pat@[t as int]);
            return false;
        }
        t += 1;
    }
    assert(v@.subrange(i as int, i + pat.len()) =~= pat@);
    true
}

/// The first position at or after `from` where `pat` occurs in `v`.
pub fn find_in(v: &[char], pat: &[char], from: usize) -> (r: Option<usize>)
    ensures
        match r {
            Some(k) => k == find_from(v@, pat@, from as int),
            None => find_from(v@, pat@, from as int) == -1,
        },
{
    if pat.len() > v.len() || from > v.len() - pat.len() {
        proof {
            lemma_find_from_absent(v@, pat@, from as int);
        }
        return None;
    }
    if pat.len() == 0 {
        assert(v@.subrange(from as int, from as int) =~= pat@);
        return Some(from);
    }
    let mut i: usize = from;
    while i <= v.len() - pat.len()
        invariant
            from <= i,
            1 <= pat.len() <= v.len(),
            forall|j: int| from <= j < i ==> !matches_at(v@, pat@, j),
        decreases v.len() - i,
    {
        if matches_here(v, pat, i) {
            proof {
                lemma_find_from_found(v@, pat@, from as int, i as int);
            }
            return Some(i);
        }
        i += 1;
    }
    proof {
        lemma_find_from_absent(v@, pat@, from as int);
    }
    None
}

// ---------------------------------------------------------------- fields ----

/// `"key":"` — what a string field's key looks like on a line.
pub open spec fn key_open(key: Seq<char>) -> Seq<char> {
    seq!['"'] + key + seq!['"', ':', '"']
}

/// The value of the string field `key` on `line`: the text from just past
/// the first `"key":"` up to the next `"`.
pub open spec fn field_of(line: Seq<char>, key: Seq<char>) -> Option<Seq<char>> {
    let i = find_first(line, key_open(key));
    if i < 0 {
        None
    } else {
        let rest = line.subrange(i + key.len() + 4, line.len() as int);
        let j = find_first(rest, seq!['"']);
        if j < 0 {
            None
        } else {
            Some(rest.take(j))
        }
    }
}

/// Where the value of field `key` lies on `v`, as a character range.
fn field_range(v: &[char], key: &[char]) -> (r: Option<(usize, usize)>)
    ensures
        match r {
            Some((a, b)) => a <= b <= v.len() && field_of(v@, key@) == Some(
                v@.subrange(a as int, b as int),
            ),
            None => field_of(v@, key@) is None,
        },
{
    let mut pat: Vec<char> = Vec::new();
    pat.push('"');
    let mut t: usize = 0;
    while t < key.len()
        invariant
            t <= key.len(),
            pat@ == seq!['"'] + key@.take(t as int),
        decreases key.len() - t,
    {
        pat.push(key[t]);
        assert(seq!['"'] + key@.take(t + 1) =~= (seq!['"'] + key@.take(t as int)).push(
            key@[t as int],
        ));
        t += 1;
    }
    pat.push('"');
    pat.push(':');
    pat.push('"');
    assert(key@.take(key.len() as int) =~= key@);
    assert(pat@ =~= key_open(key@));
    let i = match find_in(v, &pat, 0) {
        Some(i) => i,
        None => {
            return None;
        },
    };
    proof {
        lemma_find_from_bounds(v@, pat@, 0);
        assert(matches_at(v@, pat@, i as int));
        assert(pat@.len() == key@.len() + 4);
        assert(i + key@.len() + 4 <= v@.len());
        assert(i + key.len() + 4 <= v.len());
    }
    let start = i + key.len() + 4;
    let ghost rest = v@.subrange(start as int, v@.len() as int);
    let quote = ['"'];
    let j = match find_in(v, &quote, start) {
        Some(j) => j,
        None => {
            proof {
                lemma_find_shift(v@, seq!['"'], start as int);
                assert(quote@ =~= seq!['"']);
            }
            return None;
        },
    };
    proof {
        assert(quote@ =~= seq!['"']);
        lemma_find_shift(v@, seq!['"'], start as int);
        lemma_find_from_bounds(v@, seq!['"'], start as int);
        assert(rest.take(j - start) =~= v@.subrange(start as int, j as int));
    }
    Some((start, j))
}

/// Searching a suffix is searching the whole from where the suffix starts.
pub proof fn lemma_find_shift(s: Seq<char>, pat: Seq<char>, start: int)
    requires
        0 <= start <= s.len(),
    ensures
        ({
            let r = find_first(s.subrange(start, s.len() as int), pat);
            let f = find_from(s, pat, start);
            (r == -1 && f == -1) || (r >= 0 && f == r + start)
        }),
{
    lemma_find_shift_from(s, pat, start, 0);
}

proof fn lemma_find_shift_from(s: Seq<char>, pat: Seq<char>, start: int, i: int)
    requires
        0 <= start <= s.len(),
        0 <= i,
    ensures
        ({
            let r = find_from(s.subrange(start, s.len() as int), pat, i);
            let f = find_from(s, pat, start + i);
            (r == -1 && f == -1) || (r >= 0 && f == r + start)
        }),
    decreases s.len() + 1 - start - i,
{
    let t = s.subrange(start, s.len() as int);
    if i + pat.len() <= t.len() {
        assert(matches_at(t, pat, i) == matches_at(s, pat, start + i)) by {
            assert(t.subrange(i, i + pat.len()) =~= s.subrange(start + i, start + i + pat.len()));
        }
        if !matches_at(t, pat, i) {
            lemma_find_shift_from(s, pat, start, i + 1);
        }
    }
}

/// The value of the string field `key` on `line`, if the line has one.
pub fn field<'a>(line: &'a str, key: &str) -> (r: Option<&'a str>)
    ensures
        match r {
            Some(v) => field_of(line@, key@) == Some(v@),
            None => field_of(line@, key@) is None,
        },
{
    let v = chars_of(line);
    let k = chars_of(key);
    match field_range(&v, &k) {
        Some((a, b)) => Some(line.substring_char(a, b)),
        None => None,
    }
}

// --------------------------------------------------------------- parsing ----

/// `"at":` — the one numeric field.
pub open spec fn at_key() -> Seq<char> {
    seq!['"', 'a', 't', '"', ':']
}

/// Where the leading run of decimal digits of `s` ends.
pub open spec fn digit_run(s: Seq<char>) -> int
    decreases s.len(),
{
    if s.len() == 0 || !is_digit(s[0]) {
        0
    } else {
        1 + digit_run(s.drop_first())
    }
}

/// The timestamp a line carries: the digits just after the first `"at":`,
/// or 0 when they are missing or do not fit a `u64`.
pub open spec fn at_of(line: Seq<char>) -> u64 {
    let i = find_first(line, at_key());
    if i < 0 {
        0
    } else {
        let rest = line.subrange(i + 5, line.len() as int);
        match parse_digits(rest.take(digit_run(rest))) {
            Some(n) => n,
            None => 0,
        }
    }
}

/// The closed set of kinds; anything else this build did not write reads as
/// `run`.
pub open spec fn kind_of(k: Seq<char>) -> Seq<char> {
    if k == "grant"@ {
        "grant"@
    } else if k == "skip"@ {
        "skip"@
    } else if k == "fail"@ {
        "fail"@
    } else if k == "restore"@ {
        "restore"@
    } else {
        "run"@
    }
}

pub open spec fn key_kind() -> Seq<char> {
    seq!['k', 'i', 'n', 'd']
}

pub open spec fn key_title() -> Seq<char> {
    seq!['t', 'i', 't', 'l', 'e']
}

pub open spec fn key_detail() -> Seq<char> {
    seq!['d', 'e', 't', 'a', 'i', 'l']
}

pub open spec fn key_hash() -> Seq<char> {
    seq!['h', 'a', 's', 'h']
}

/// What a line reads as: an entry when it has a `kind` and a `title`;
/// a missing `detail` or `hash` reads as empty.
pub open spec fn parsed(line: Seq<char>) -> Option<EntryView> {
    match (field_of(line, key_kind()), field_of(line, key_title())) {
        (Some(k), Some(t)) => Some(
            EntryView {
                at: at_of(line),
                kind: kind_of(k),
                title: t,
                detail: match field_of(line, key_detail()) {
                    Some(d) => d,
                    None => Seq::empty(),
                },
                hash: match field_of(line, key_hash()) {
                    Some(h) => h,
                    None => Seq::empty(),
                },
            },
        ),
        _ => None,
    }
}

/// The value of the digits starting at `start`, up to the first non-digit.
fn parse_at_digits(v: &[char], start: usize) -> (r: Option<u64>)
    requires
        start <= v.len(),
    ensures
        ({
            let rest = v@.subrange(start as int, v@.len() as int);
            r == parse_digits(rest.take(digit_run(rest)))
        }),
{
    let ghost rest = v@.subrange(start as int, v@.len() as int);
    let mut i: usize = start;
    let mut acc: u64 = 0;
    let mut over = false;
    while i < v.len() && '0' <= v[i] && v[i] <= '9'
        invariant
            start <= i <= v.len(),
            rest == v@.subrange(start as int, v@.len() as int),
            forall|j: int| start <= j < i ==> is_digit(#[trigger] v@[j]),
            over ==> digits_value(v@.subrange(start as int, i as int)) > u64::MAX,
            !over ==> acc == digits_value(v@.subrange(start as int, i as int)),
        decreases v.len() - i,
    {
        let d = ((v[i] as u32) - 48) as u64;
        let ghost prefix = v@.subrange(start as int, i + 1);
        assert(prefix.drop_last() =~= v@.subrange(start as int, i as int));
        assert(digit_value(v@[i as int]) == d);
        if !over {
            if acc > (u64::MAX - d) / 10 {
                over = true;
                assert(acc * 10 + d > u64::MAX) by (nonlinear_arith)
                    requires
                        acc > (u64::MAX - d) / 10,
                        d <= 9,
                ;
            } else {
                assert(acc * 10 + d <= u64::MAX) by (nonlinear_arith)
                    requires
                        acc <= (u64::MAX - d) / 10,
                        d <= 9,
                ;
                acc = acc * 10 + d;
            }
        } else {
            assert(digits_value(prefix) >= digits_value(prefix.drop_last())) by (nonlinear_arith)
                requires
                    digits_value(prefix) == digits_value(prefix.drop_last()) * 10 + d,
            ;
        }
        i += 1;
    }
    proof {
        lemma_digit_run(rest, (i - start) as int);
        assert(rest.take(digit_run(rest)) =~= v@.subrange(start as int, i as int));
    }
    if i == start || over {
        None
    } else {
        Some(acc)
    }
}

pub proof fn lemma_digit_run(s: Seq<char>, n: int)
    requires
        0 <= n <= s.len(),
        forall|j: int| 0 <= j < n ==> is_digit(#[trigger] s[j]),
        n == s.len() || !is_digit(s[n]),
    ensures
        digit_run(s) == n,
    decreases n,
{
    if n > 0 {
        lemma_digit_run(s.drop_first(), n - 1);
    }
}

/// One log line, read tolerantly: `None` when the line has no `kind` or no
/// `title`; a missing or malformed timestamp reads as 0.
pub fn parse_entry(line: &str) -> (r: Option<Entry>)
    ensures
        match r {
            Some(e) => parsed(line@) == Some(e@),
            None => parsed(line@) is None,
        },
{
    let v = chars_of(line);
    let at_pat = ['"', 'a', 't', '"', ':'];
    assert(at_pat@ =~= at_key());
    let at: u64 = match find_in(&v, &at_pat, 0) {
        Some(i) => {
            proof {
                lemma_find_from_bounds(v@, at_key(), 0);
                assert(matches_at(v@, at_key(), i as int));
                assert(i + 5 <= v@.len());
                assert(i + 5 <= v.len());
            }
            match parse_at_digits(&v, i + 5) {
                Some(n) => n,
                None => 0,
            }
        },
        None => 0,
    };
    let kind_key = ['k', 'i', 'n', 'd'];
    assert(kind_key@ =~= key_kind());
    let (ka, kb) = match field_range(&v, &kind_key) {
        Some(r) => r,
        None => {
            return None;
        },
    };
    let kind_chars = slice_range(&v, ka, kb);
    let kind: &'static str = if eq_str(&kind_chars, "grant") {
        "grant"
    } else if eq_str(&kind_chars, "skip") {
        "skip"
    } else if eq_str(&kind_chars, "fail") {
        "fail"
    } else if eq_str(&kind_chars, "restore") {
        "restore"
    } else {
        "run"
    };
    let title_key = ['t', 'i', 't', 'l', 'e'];
    assert(title_key@ =~= key_title());
    let (ta, tb) = match field_range(&v, &title_key) {
        Some(r) => r,
        None => {
            return None;
        },
    };
    let title = string_of(&slice_range(&v, ta, tb));
    let detail_key = ['d', 'e', 't', 'a', 'i', 'l'];
    assert(detail_key@ =~= key_detail());
    let detail = match field_range(&v, &detail_key) {
        Some((a, b)) => string_of(&slice_range(&v, a, b)),
        None => String::new(),
    };
    let hash_key = ['h', 'a', 's', 'h'];
    assert(hash_key@ =~= key_hash());
    let hash = match field_range(&v, &hash_key) {
        Some((a, b)) => string_of(&slice_range(&v, a, b)),
        None => String::new(),
    };
    let e = Entry { at, kind, title, detail, hash };
    assert(e@.kind == kind_of(kind_chars@));
    Some(e)
}

// ------------------------------------------------------------- writing ----

/// The text of the line an entry is written as, newline excluded.
pub open spec fn line_body(e: EntryView) -> Seq<char> {
    seq!['{', '"', 'a', 't', '"', ':'] + decimal(e.at as nat) + seq![','] + key_open(key_kind())
        + e.kind + seq!['"', ','] + key_open(key_title()) + escaped(e.title) + seq!['"', ',']
        + key_open(key_detail()) + escaped(e.detail) + seq!['"', ','] + key_open(key_hash())
        + e.hash + seq!['"', '}']
}

/// The line an entry is written as, newline included.
pub open spec fn line_of(e: EntryView) -> Seq<char> {
    line_body(e) + seq!['\n']
}

/// The line `e` is appended to the log as.
pub fn entry_line(e: &Entry) -> (r: String)
    ensures
        r@ == line_of(e@),
{
    let mut s = String::new();
    push_all(&mut s, &['{', '"', 'a', 't', '"', ':']);
    push_decimal(&mut s, e.at);
    push_all(&mut s, &[',', '"', 'k', 'i', 'n', 'd', '"', ':', '"']);
    push_str(&mut s, e.kind);
    push_all(&mut s, &['"', ',', '"', 't', 'i', 't', 'l', 'e', '"', ':', '"']);
    let t = escape(e.title.as_str());
    push_str(&mut s, t.as_str());
    push_all(&mut s, &['"', ',', '"', 'd', 'e', 't', 'a', 'i', 'l', '"', ':', '"']);
    let d = escape(e.detail.as_str());
    push_str(&mut s, d.as_str());
    push_all(&mut s, &['"', ',', '"', 'h', 'a', 's', 'h', '"', ':', '"']);
    push_str(&mut s, e.hash.as_str());
    push_all(&mut s, &['"', '}', '\n']);
    assert(s@ =~= line_of(e@));
    s
}


// ------------------------------------------------------------- reading ----

/// Position of the first `c` in `s`, or -1.
pub open spec fn first_index_of(s: Seq<char>, c: char) -> int
    decreases s.len(),
{
    if s.len() == 0 {
        -1
    } else if s[0] == c {
        0
    } else {
        let r = first_index_of(s.drop_first(), c);
        if r < 0 {
            -1
        } else {
            r + 1
        }
    }
}

/// A line with one trailing carriage return removed.
pub open spec fn strip_cr(l: Seq<char>) -> Seq<char> {
    if l.len() > 0 && l.last() == '\r' {
        l.drop_last()
    } else {
        l
    }
}

/// The lines of `s`, as `str::lines` yields them: split after each `\n`,
/// the `\n` and one `\r` before it dropped, and no empty line after a
/// final `\n`.
pub open spec fn text_lines(s: Seq<char>) -> Seq<Seq<char>>
    decreases s.len(),
{
    if s.len() == 0 {
        Seq::empty()
    } else {
        let k = first_index_of(s, '\n');
        if k < 0 {
            seq![s]
        } else {
            proof {
                lemma_first_index_bounds(s, '\n');
            }
            seq![strip_cr(s.take(k))] + text_lines(s.skip(k + 1))
        }
    }
}

pub proof fn lemma_first_index_bounds(s: Seq<char>, c: char)
    ensures
        -1 <= first_index_of(s, c) < s.len(),
        first_index_of(s, c) >= 0 ==> s[first_index_of(s, c)] == c,
        forall|j: int| 0 <= j < first_index_of(s, c) ==> s[j] != c,
        first_index_of(s, c) == -1 ==> forall|j: int| 0 <= j < s.len() ==> s[j] != c,
    decreases s.len(),
{
    if s.len() > 0 && s[0] != c {
        lemma_first_index_bounds(s.drop_first(), c);
        let r = first_index_of(s.drop_first(), c);
        assert forall|j: int| 0 < j < s.len() implies s[j] == s.drop_first()[j - 1] by {}
    }
}

proof fn lemma_first_index_at(s: Seq<char>, c: char, k: int)
    requires
        0 <= k < s.len(),
        s[k] == c,
        forall|j: int| 0 <= j < k ==> s[j] != c,
    ensures
        first_index_of(s, c) == k,
    decreases k,
{
    if k > 0 {
        lemma_first_index_at(s.drop_first(), c, k - 1);
    }
}

proof fn lemma_first_index_none(s: Seq<char>, c: char)
    requires
        forall|j: int| 0 <= j < s.len() ==> s[j] != c,
    ensures
        first_index_of(s, c) == -1,
    decreases s.len(),
{
    if s.len() > 0 {
        lemma_first_index_none(s.drop_first(), c);
    }
}

/// The lines of `text`, each as its characters.
pub fn split_lines(text: &str) -> (r: Vec<Vec<char>>)
    ensures
        r@.len() == text_lines(text@).len(),
        forall|i: int| 0 <= i < r@.len() ==> #[trigger] r@[i]@ == text_lines(text@)[i],
{
    let v = chars_of(text);
    let mut out: Vec<Vec<char>> = Vec::new();
    let mut start: usize = 0;
    let mut i: usize = 0;
    assert(v@.subrange(0, v@.len() as int) =~= v@);
    while i < v.len()
        invariant
            start <= i <= v.len(),
            v@ == text@,
            forall|j: int| start <= j < i ==> v@[j] != '\n',
            ({
                let rest = text_lines(v@.subrange(start as int, v@.len() as int));
                let whole = text_lines(v@);
                &&& whole.len() == out@.len() + rest.len()
                &&& forall|j: int| 0 <= j < out@.len() ==> #[trigger] out@[j]@ == whole[j]
                &&& forall|j: int| 0 <= j < rest.len() ==> whole[out@.len() + j] == #[trigger] rest[j]
            }),
        decreases v.len() - i,
    {
        if v[i] == '\n' {
            let ghost rest = v@.subrange(start as int, v@.len() as int);
            proof {
                lemma_first_index_at(rest, '\n', i - start);
                assert(rest.take(i - start) =~= v@.subrange(start as int, i as int));
                assert(rest.skip(i - start + 1) =~= v@.subrange(i + 1, v@.len() as int));
            }
            let mut end = i;
            if end > start && v[end - 1] == '\r' {
                end = end - 1;
            }
            let line = slice_range(&v, start, end);
            proof {
                let l = v@.subrange(start as int, i as int);
                assert(line@ =~= strip_cr(l));
            }
            let ghost old_out = out@;
            out.push(line);
            proof {
                let rest2 = text_lines(v@.subrange(i + 1, v@.len() as int));
                assert(text_lines(rest) =~= seq![line@] + rest2);
                let whole = text_lines(v@);
                assert forall|j: int| 0 <= j < out@.len() implies #[trigger] out@[j]@ == whole[j] by {
                    if j < old_out.len() {
                        assert(out@[j] == old_out[j]);
                    } else {
                        assert(whole[old_out.len() as int] == text_lines(rest)[0]);
                    }
                }
                assert forall|j: int| 0 <= j < rest2.len() implies whole[out@.len() + j]
                    == #[trigger] rest2[j] by {
                    assert(text_lines(rest)[1 + j] == rest2[j]);
                }
            }
            start = i + 1;
        }
        i += 1;
    }
    let ghost rest = v@.subrange(start as int, v@.len() as int);
    if start < v.len() {
        proof {
            lemma_first_index_none(rest, '\n');
            assert(text_lines(rest) =~= seq![rest]);
        }
        let line = slice_range(&v, start, v.len());
        let ghost old_out = out@;
        out.push(line);
        proof {
            let whole = text_lines(v@);
            assert forall|j: int| 0 <= j < out@.len() implies #[trigger] out@[j]@ == whole[j] by {
                if j < old_out.len() {
                    assert(out@[j] == old_out[j]);
                } else {
                    assert(whole[old_out.len() as int] == text_lines(rest)[0]);
                }
            }
        }
    } else {
        assert(rest.len() == 0);
    }
    out
}

/// What reading one line does to the chain's tip and the entries so far.
pub open spec fn load_step(st: (Seq<char>, Seq<EntryView>), line: Seq<char>) -> (
    Seq<char>,
    Seq<EntryView>,
) {
    match parsed(line) {
        Some(e) => (e.hash, st.1.push(e)),
        None => st,
    }
}

/// The chain tip and entries after reading `lines` in order, skipping every
/// line that does not parse.
pub open spec fn loaded(prev: Seq<char>, entries: Seq<EntryView>, lines: Seq<Seq<char>>) -> (
    Seq<char>,
    Seq<EntryView>,
)
    decreases lines.len(),
{
    if lines.len() == 0 {
        (prev, entries)
    } else {
        load_step(loaded(prev, entries, lines.drop_last()), lines.last())
    }
}

/// The hash the next entry chains to, for a log holding `es`.
pub open spec fn tip(es: Seq<EntryView>) -> Seq<char> {
    if es.len() == 0 {
        genesis()
    } else {
        es.last().hash
    }
}

/// Reading lines onto a log whose tip is its last entry's hash keeps it so.
pub proof fn lemma_loaded_tip(prev: Seq<char>, entries: Seq<EntryView>, lines: Seq<Seq<char>>)
    requires
        prev == tip(entries),
    ensures
        loaded(prev, entries, lines).0 == tip(loaded(prev, entries, lines).1),
    decreases lines.len(),
{
    if lines.len() > 0 {
        lemma_loaded_tip(prev, entries, lines.drop_last());
    }
}

impl Audit {
    /// Start the log kept at `path`, reading back `text` — what the file held,
    /// or `None` when there was none or it could not be read.
    ///
    /// Never fails: an unreadable log is an empty one, and a line that does
    /// not parse costs that line and nothing else.
    pub fn open(path: String, text: Option<&str>) -> (a: Audit)
        ensures
            a@.path == path@,
            match text {
                None => a@.prev == genesis() && a@.entries == Seq::<EntryView>::empty(),
                Some(t) => (a@.prev, a@.entries) == loaded(genesis(), Seq::empty(), text_lines(t@)),
            },
            a@.prev == tip(a@.entries),
    {
        proof {
            if let Some(t) = text {
                lemma_loaded_tip(genesis(), Seq::empty(), text_lines(t@));
            }
        }
        let mut prev = String::new();
        push_all(&mut prev, &['g', 'e', 'n', 'e', 's', 'i', 's']);
        assert(prev@ =~= genesis());
        let mut a = Audit { path, prev, entries: Vec::new() };
        assert(entry_views(a.entries@) =~= Seq::<EntryView>::empty());
        if let Some(t) = text {
            a.load(t);
        }
        a
    }

    fn load(&mut self, text: &str)
        ensures
            final(self)@.path == old(self)@.path,
            (final(self)@.prev, final(self)@.entries) == loaded(
                old(self)@.prev,
                old(self)@.entries,
                text_lines(text@),
            ),
    {
        let lines = split_lines(text);
        let ghost ls = text_lines(text@);
        let mut i: usize = 0;
        while i < lines.len()
            invariant
                i <= lines.len(),
                lines@.len() == ls.len(),
                forall|j: int| 0 <= j < lines@.len() ==> #[trigger] lines@[j]@ == ls[j],
                self@.path == old(self)@.path,
                (self@.prev, self@.entries) == loaded(
                    old(self)@.prev,
                    old(self)@.entries,
                    ls.take(i as int),
                ),
            decreases lines.len() - i,
        {
            let line = string_of(&lines[i]);
            let ghost before = self@;
            match parse_entry(line.as_str()) {
                Some(entry) => {
                    self.prev = entry.hash.clone();
                    self.entries.push(entry);
                    assert(entry_views(self.entries@) =~= before.entries.push(entry@));
                },
                None => {},
            }
            assert(ls.take(i + 1).drop_last() =~= ls.take(i as int));
            assert(ls.take(i + 1).last() == lines@[i as int]@);
            i += 1;
        }
        assert(ls.take(lines.len() as int) =~= ls);
    }

    /// Where the log is kept.
    pub fn path(&self) -> (p: &str)
        ensures
            p@ == self@.path,
    {
        self.path.as_str()
    }
}


// ------------------------------------------------------------ recording ----

/// The bytes an entry's hash commits to: the previous hash, then the entry's
/// own fields, the timestamp little-endian.
pub open spec fn link_bytes(
    prev: Seq<char>,
    kind: Seq<char>,
    title: Seq<char>,
    detail: Seq<char>,
    at: u64,
) -> Seq<u8> {
    encode_utf8(prev) + encode_utf8(kind) + encode_utf8(title) + encode_utf8(detail) + le_bytes(
        at as nat,
        8,
    )
}

/// The hash an entry gets: the first 24 hex digits of the BLAKE3 digest of
/// its link bytes.
pub open spec fn link_hash(
    prev: Seq<char>,
    kind: Seq<char>,
    title: Seq<char>,
    detail: Seq<char>,
    at: u64,
) -> Seq<char> {
    blake3_hex(link_bytes(prev, kind, title, detail, at)).take(24)
}

/// The log after one more entry, chained to the tip.
pub open spec fn recorded(
    a: AuditView,
    kind: Seq<char>,
    title: Seq<char>,
    detail: Seq<char>,
    at: u64,
) -> AuditView {
    let h = link_hash(a.prev, kind, title, detail, at);
    AuditView {
        path: a.path,
        prev: h,
        entries: a.entries.push(EntryView { at, kind, title, detail, hash: h }),
    }
}

#[verifier::external_type_specification]
#[verifier::external_body]
pub struct ExSystemTime(std::time::SystemTime);

#[verifier::external_type_specification]
#[verifier::external_body]
pub struct ExSystemTimeError(std::time::SystemTimeError);

/// `SystemTime::now`. Nothing is claimed of the reading.
#[verifier::external_body]
fn clock_now() -> std::time::SystemTime {
    std::time::SystemTime::now()
}

/// `SystemTime::duration_since(UNIX_EPOCH)`. Nothing is claimed of it.
#[verifier::external_body]
fn since_epoch(t: &std::time::SystemTime) -> Result<
    std::time::Duration,
    std::time::SystemTimeError,
> {
    t.duration_since(std::time::UNIX_EPOCH)
}

/// `Duration::as_secs`. Nothing is claimed of it.
#[verifier::external_body]
fn whole_secs(d: &std::time::Duration) -> u64 {
    d.as_secs()
}

/// Unix seconds now, or 0 when the clock reads before the epoch.
fn unix_now() -> u64 {
    match since_epoch(&clock_now()) {
        Ok(d) => whole_secs(&d),
        Err(_) => 0,
    }
}

impl Audit {
    /// Append one entry stamped `at`, chained to the last.
    ///
    /// The log must be chained: its `prev` the last entry's hash, as `open`
    /// and every `record` leave it. The new entry's hash is then taken over
    /// the last entry's hash (or the genesis marker), and the log stays
    /// chained.
    pub fn record_at(&mut self, kind: &'static str, title: String, detail: String, at: u64)
        requires
            old(self)@.prev == tip(old(self)@.entries),
        ensures
            final(self)@ == recorded(old(self)@, kind@, title@, detail@, at),
            final(self)@.entries.drop_last() == old(self)@.entries,
            final(self)@.entries.last() == (EntryView {
                at,
                kind: kind@,
                title: title@,
                detail: detail@,
                hash: link_hash(tip(old(self)@.entries), kind@, title@, detail@, at),
            }),
            final(self)@.prev == tip(final(self)@.entries),
    {
        let mut bytes: Vec<u8> = Vec::new();
        push_utf8(&mut bytes, self.prev.as_str());
        push_utf8(&mut bytes, kind);
        push_utf8(&mut bytes, title.as_str());
        push_utf8(&mut bytes, detail.as_str());
        push_le_u64(&mut bytes, at);
        assert(bytes@ =~= link_bytes(self.prev@, kind@, title@, detail@, at));
        let hash = digest_prefix(&bytes, 24);
        let ghost before = self@;
        let entry = Entry { at, kind, title, detail, hash: hash.clone() };
        self.prev = hash;
        self.entries.push(entry);
        assert(entry_views(self.entries@) =~= before.entries.push(entry@));
    }

    /// Append one entry stamped with the current time, chained to the last.
    /// The log must be chained, as for [`Audit::record_at`].
    pub fn record(&mut self, kind: &'static str, title: String, detail: String)
        requires
            old(self)@.prev == tip(old(self)@.entries),
        ensures
            final(self)@.entries.len() == old(self)@.entries.len() + 1,
            final(self)@ == recorded(
                old(self)@,
                kind@,
                title@,
                detail@,
                final(self)@.entries.last().at,
            ),
            final(self)@.entries.drop_last() == old(self)@.entries,
            final(self)@.entries.last().hash == link_hash(
                tip(old(self)@.entries),
                kind@,
                title@,
                detail@,
                final(self)@.entries.last().at,
            ),
            final(self)@.prev == tip(final(self)@.entries),
    {
        let at = unix_now();
        self.record_at(kind, title, detail, at);
    }

    /// Whether the log is chained: the hash the next entry chains to is the
    /// last entry's, or the genesis marker for an empty log.
    pub fn is_chained(&self) -> (r: bool)
        ensures
            r == (self@.prev == tip(self@.entries)),
    {
        let p = chars_of(self.prev.as_str());
        let n = self.entries.len();
        if n == 0 {
            let r = eq_str(&p, "genesis");
            proof {
                reveal_strlit("genesis");
                assert("genesis"@ =~= genesis());
            }
            r
        } else {
            let r = eq_str(&p, self.entries[n - 1].hash.as_str());
            proof {
                assert(self@.entries.last() == self.entries@[n - 1]@);
            }
            r
        }
    }
}

} // verus!
