//! What the log promises across calls: a line it writes reads back as the
//! entry it was written from, and a log it writes reads back whole.

use vstd::prelude::*;

use crate::audit::{
    at_key, at_of, escaped, field_of, first_index_of, genesis, key_detail, key_hash, key_kind,
    key_open, key_title, kind_of, lemma_digit_run, lemma_find_from_found,
    lemma_first_index_bounds, line_body, line_of, link_hash, loaded, matches_at, parsed,
    recorded, strip_cr, text_lines, tip, lemma_loaded_tip, AuditView, EntryView,
};
use crate::text::{decimal, is_digit, lemma_decimal};

verus! {

pub open spec fn no_quote(s: Seq<char>) -> bool {
    forall|i: int| 0 <= i < s.len() ==> s[i] != '"'
}

pub open spec fn no_newline(s: Seq<char>) -> bool {
    forall|i: int| 0 <= i < s.len() ==> s[i] != '\n'
}

/// Text the writer leaves unchanged: no quote, backslash or newline.
pub open spec fn plain_text(s: Seq<char>) -> bool {
    forall|i: int| 0 <= i < s.len() ==> s[i] != '"' && s[i] != '\\' && s[i] != '\n'
}

/// One of the kinds this build writes.
pub open spec fn canonical_kind(k: Seq<char>) -> bool {
    k == "grant"@ || k == "run"@ || k == "skip"@ || k == "fail"@ || k == "restore"@
}

/// An entry whose line reads back as itself.
pub open spec fn writable(e: EntryView) -> bool {
    &&& canonical_kind(e.kind)
    &&& plain_text(e.title)
    &&& plain_text(e.detail)
    &&& no_quote(e.hash)
    &&& no_newline(e.hash)
}

proof fn lemma_escaped_plain(s: Seq<char>)
    requires
        plain_text(s),
    ensures
        escaped(s) == s,
    decreases s.len(),
{
    if s.len() > 0 {
        lemma_escaped_plain(s.drop_last());
        assert(s.drop_last() + seq![s.last()] =~= s);
    }
}

proof fn lemma_piece(l: Seq<char>, o: int, p: Seq<char>, j: int)
    requires
        0 <= o,
        o + p.len() <= l.len(),
        l.subrange(o, o + p.len()) == p,
        o <= j < o + p.len(),
    ensures
        l[j] == p[j - o],
{
    assert(l.subrange(o, o + p.len())[j - o] == l[j]);
}

proof fn lemma_mismatch(l: Seq<char>, pat: Seq<char>, j: int, t: int)
    requires
        0 <= t < pat.len(),
        0 <= j,
        j + t < l.len(),
        l[j + t] != pat[t],
    ensures
        !matches_at(l, pat, j),
{
    if matches_at(l, pat, j) {
        assert(l.subrange(j, j + pat.len())[t] == l[j + t]);
    }
}

/// A quoted value followed by a comma never starts a key.
proof fn lemma_value_quote(l: Seq<char>, j: int, v: Seq<char>, key: Seq<char>)
    requires
        0 <= j,
        j + v.len() + 3 <= l.len(),
        l.subrange(j, j + v.len() + 3) == seq!['"'] + v + seq!['"', ','],
        no_quote(v),
        no_quote(key),
    ensures
        !matches_at(l, key_open(key), j),
{
    let pat = key_open(key);
    let g = seq!['"'] + v + seq!['"', ','];
    let n = v.len() as int;
    let m = key.len() as int;
    if matches_at(l, pat, j) {
        if n < m {
            lemma_piece(l, j, g, j + 1 + n);
            assert(g[1 + n] == '"');
            assert(pat[1 + n] == key[n]);
            lemma_mismatch(l, pat, j, 1 + n);
        } else if n > m {
            lemma_piece(l, j, g, j + 1 + m);
            assert(g[1 + m] == v[m]);
            assert(pat[1 + m] == '"');
            lemma_mismatch(l, pat, j, 1 + m);
        } else {
            lemma_piece(l, j, g, j + 2 + m);
            assert(g[2 + m] == ',');
            assert(pat[2 + m] == ':');
            lemma_mismatch(l, pat, j, 2 + m);
        }
    }
}

// Where each piece of a line starts.
pub open spec fn at_len(e: EntryView) -> int {
    decimal(e.at as nat).len() as int
}

pub open spec fn p_kind(e: EntryView) -> int {
    7 + at_len(e)
}

pub open spec fn o_kind(e: EntryView) -> int {
    p_kind(e) + 8
}

pub open spec fn p_title(e: EntryView) -> int {
    o_kind(e) + e.kind.len() + 2
}

pub open spec fn o_title(e: EntryView) -> int {
    p_title(e) + 9
}

pub open spec fn p_detail(e: EntryView) -> int {
    o_title(e) + e.title.len() + 2
}

pub open spec fn o_detail(e: EntryView) -> int {
    p_detail(e) + 10
}

pub open spec fn p_hash(e: EntryView) -> int {
    o_detail(e) + e.detail.len() + 2
}

pub open spec fn o_hash(e: EntryView) -> int {
    p_hash(e) + 8
}

proof fn lemma_kind_facts(k: Seq<char>)
    requires
        canonical_kind(k),
    ensures
        k.len() >= 3,
        no_quote(k),
        no_newline(k),
        k[0] != 'k' && k[0] != 't' && k[0] != 'd' && k[0] != 'h',
        kind_of(k) == k,
{
    reveal_strlit("grant");
    reveal_strlit("run");
    reveal_strlit("skip");
    reveal_strlit("fail");
    reveal_strlit("restore");
}

/// The characters of a written line, once its fields need no escaping.
pub open spec fn plain_line(e: EntryView) -> Seq<char> {
    seq!['{', '"', 'a', 't', '"', ':'] + decimal(e.at as nat) + seq![','] + key_open(key_kind())
        + e.kind + seq!['"', ','] + key_open(key_title()) + e.title + seq!['"', ',']
        + key_open(key_detail()) + e.detail + seq!['"', ','] + key_open(key_hash())
        + e.hash + seq!['"', '}']
}

proof fn lemma_plain_line(e: EntryView)
    requires
        writable(e),
    ensures
        line_body(e) == plain_line(e),
        line_body(e).len() == o_hash(e) + e.hash.len() + 2,
        at_len(e) >= 1,
{
    lemma_escaped_plain(e.title);
    lemma_escaped_plain(e.detail);
    lemma_decimal(e.at as nat);
}

proof fn lemma_layout_s0(e: EntryView)
    requires
        writable(e),
    ensures
        ({
            let l = line_body(e);
            l.subrange(0, 6) == seq!['{', '"', 'a', 't', '"', ':']
        }),
{
    lemma_plain_line(e);
    let l = plain_line(e);
    assert(l.subrange(0, 6) =~= seq!['{', '"', 'a', 't', '"', ':']);
}

proof fn lemma_layout_at(e: EntryView)
    requires
        writable(e),
    ensures
        ({
            let l = line_body(e);
            l.subrange(6, 6 + at_len(e)) == decimal(e.at as nat)
        }),
{
    lemma_plain_line(e);
    let l = plain_line(e);
    assert(l.subrange(6, 6 + at_len(e)) =~= decimal(e.at as nat));
}

proof fn lemma_layout_kkey(e: EntryView)
    requires
        writable(e),
    ensures
        ({
            let l = line_body(e);
            l.subrange(p_kind(e), p_kind(e) + 8) == key_open(key_kind())
        }),
{
    lemma_plain_line(e);
    let l = plain_line(e);
    assert(l.subrange(p_kind(e), p_kind(e) + 8) =~= key_open(key_kind()));
}

proof fn lemma_layout_kval(e: EntryView)
    requires
        writable(e),
    ensures
        ({
            let l = line_body(e);
            l.subrange(p_kind(e) + 7, p_title(e)) == seq!['"'] + e.kind + seq!['"', ',']
        }),
{
    lemma_plain_line(e);
    let l = plain_line(e);
    assert(l.subrange(p_kind(e) + 7, p_title(e)) =~= seq!['"'] + e.kind + seq!['"', ',']);
}

proof fn lemma_layout_tkey(e: EntryView)
    requires
        writable(e),
    ensures
        ({
            let l = line_body(e);
            l.subrange(p_title(e), p_title(e) + 9) == key_open(key_title())
        }),
{
    lemma_plain_line(e);
    let l = plain_line(e);
    assert(l.subrange(p_title(e), p_title(e) + 9) =~= key_open(key_title()));
}

proof fn lemma_layout_tval(e: EntryView)
    requires
        writable(e),
    ensures
        ({
            let l = line_body(e);
            l.subrange(p_title(e) + 8, p_detail(e)) == seq!['"'] + e.title + seq!['"', ',']
        }),
{
    lemma_plain_line(e);
    let l = plain_line(e);
    assert(l.subrange(p_title(e) + 8, p_detail(e)) =~= seq!['"'] + e.title + seq!['"', ',']);
}

proof fn lemma_layout_dkey(e: EntryView)
    requires
        writable(e),
    ensures
        ({
            let l = line_body(e);
            l.subrange(p_detail(e), p_detail(e) + 10) == key_open(key_detail())
        }),
{
    lemma_plain_line(e);
    let l = plain_line(e);
    assert(l.subrange(p_detail(e), p_detail(e) + 10) =~= key_open(key_detail()));
}

proof fn lemma_layout_dval(e: EntryView)
    requires
        writable(e),
    ensures
        ({
            let l = line_body(e);
            l.subrange(p_detail(e) + 9, p_hash(e)) == seq!['"'] + e.detail + seq!['"', ',']
        }),
{
    lemma_plain_line(e);
    let l = plain_line(e);
    assert(l.subrange(p_detail(e) + 9, p_hash(e)) =~= seq!['"'] + e.detail + seq!['"', ',']);
}

proof fn lemma_layout_hkey(e: EntryView)
    requires
        writable(e),
    ensures
        ({
            let l = line_body(e);
            l.subrange(p_hash(e), p_hash(e) + 8) == key_open(key_hash())
        }),
{
    lemma_plain_line(e);
    let l = plain_line(e);
    assert(l.subrange(p_hash(e), p_hash(e) + 8) =~= key_open(key_hash()));
}

proof fn lemma_layout_hval(e: EntryView)
    requires
        writable(e),
    ensures
        ({
            let l = line_body(e);
            l.subrange(o_hash(e), o_hash(e) + e.hash.len() + 1) == e.hash.push('"')
        }),
{
    lemma_plain_line(e);
    let l = plain_line(e);
    assert(l.subrange(o_hash(e), o_hash(e) + e.hash.len() + 1) =~= e.hash.push('"'));
}

proof fn lemma_layout_kend(e: EntryView)
    requires
        writable(e),
    ensures
        ({
            let l = line_body(e);
            l.subrange(o_kind(e), o_kind(e) + e.kind.len() + 1) == e.kind.push('"')
        }),
{
    lemma_plain_line(e);
    let l = plain_line(e);
    assert(l.subrange(o_kind(e), o_kind(e) + e.kind.len() + 1) =~= e.kind.push('"'));
}

proof fn lemma_layout_tend(e: EntryView)
    requires
        writable(e),
    ensures
        ({
            let l = line_body(e);
            l.subrange(o_title(e), o_title(e) + e.title.len() + 1) == e.title.push('"')
        }),
{
    lemma_plain_line(e);
    let l = plain_line(e);
    assert(l.subrange(o_title(e), o_title(e) + e.title.len() + 1) =~= e.title.push('"'));
}

proof fn lemma_layout_dend(e: EntryView)
    requires
        writable(e),
    ensures
        ({
            let l = line_body(e);
            l.subrange(o_detail(e), o_detail(e) + e.detail.len() + 1) == e.detail.push('"')
        }),
{
    lemma_plain_line(e);
    let l = plain_line(e);
    assert(l.subrange(o_detail(e), o_detail(e) + e.detail.len() + 1) =~= e.detail.push('"'));
}

/// Every piece of a written line, where it lies.
proof fn lemma_layout(e: EntryView)
    requires
        writable(e),
    ensures
        ({
            let l = line_body(e);
            &&& at_len(e) >= 1
            &&& l.len() == o_hash(e) + e.hash.len() + 2
            &&& l.subrange(0, 6) == seq!['{', '"', 'a', 't', '"', ':']
            &&& l.subrange(6, 6 + at_len(e)) == decimal(e.at as nat)
            &&& l.subrange(p_kind(e), p_kind(e) + 8) == key_open(key_kind())
            &&& l.subrange(p_kind(e) + 7, p_title(e)) == seq!['"'] + e.kind + seq!['"', ',']
            &&& l.subrange(p_title(e), p_title(e) + 9) == key_open(key_title())
            &&& l.subrange(p_title(e) + 8, p_detail(e)) == seq!['"'] + e.title + seq!['"', ',']
            &&& l.subrange(p_detail(e), p_detail(e) + 10) == key_open(key_detail())
            &&& l.subrange(p_detail(e) + 9, p_hash(e)) == seq!['"'] + e.detail + seq!['"', ',']
            &&& l.subrange(p_hash(e), p_hash(e) + 8) == key_open(key_hash())
            &&& l.subrange(o_hash(e), o_hash(e) + e.hash.len() + 1) == e.hash.push('"')
            &&& l.subrange(o_kind(e), o_kind(e) + e.kind.len() + 1) == e.kind.push('"')
            &&& l.subrange(o_title(e), o_title(e) + e.title.len() + 1) == e.title.push('"')
            &&& l.subrange(o_detail(e), o_detail(e) + e.detail.len() + 1) == e.detail.push('"')
            &&& l[6 + at_len(e)] == ','
        }),
{
    lemma_plain_line(e);
    lemma_layout_s0(e);
    lemma_layout_at(e);
    lemma_layout_kkey(e);
    lemma_layout_kval(e);
    lemma_layout_tkey(e);
    lemma_layout_tval(e);
    lemma_layout_dkey(e);
    lemma_layout_dval(e);
    lemma_layout_hkey(e);
    lemma_layout_hval(e);
    lemma_layout_kend(e);
    lemma_layout_tend(e);
    lemma_layout_dend(e);
    let l = plain_line(e);
    assert(l[6 + at_len(e)] == ',');
}

/// A key, its quoted value and the comma after them hold no other key.
proof fn lemma_block_clear(l: Seq<char>, key: Seq<char>, p: int, kb: Seq<char>, v: Seq<char>)
    requires
        0 <= p,
        p + kb.len() + v.len() + 6 <= l.len(),
        l.subrange(p, p + kb.len() + 4) == key_open(kb),
        l.subrange(p + kb.len() + 3, p + kb.len() + v.len() + 6) == seq!['"'] + v + seq![
            '"',
            ',',
        ],
        kb.len() > 0,
        key.len() > 0,
        no_quote(kb),
        no_quote(v),
        no_quote(key),
        kb[0] != key[0],
        key[0] != ':',
        key[0] != ',',
    ensures
        forall|j: int|
            p <= j < p + kb.len() + v.len() + 6 ==> !matches_at(l, key_open(key), j),
{
    let pat = key_open(key);
    let ko = key_open(kb);
    let n = kb.len() as int;
    let g = seq!['"'] + v + seq!['"', ','];
    assert(pat[0] == '"');
    assert(pat[1] == key[0]);
    assert forall|j: int| p <= j < p + kb.len() + v.len() + 6 implies !matches_at(l, pat, j) by {
        if j < p + n + 3 {
            lemma_piece(l, p, ko, j);
            if j == p {
                lemma_piece(l, p, ko, j + 1);
                assert(ko[1] == kb[0]);
                lemma_mismatch(l, pat, j, 1);
            } else if j == p + n + 1 {
                lemma_piece(l, p, ko, j + 1);
                lemma_mismatch(l, pat, j, 1);
            } else {
                if j <= p + n {
                    assert(ko[j - p] == kb[j - p - 1]);
                }
                lemma_mismatch(l, pat, j, 0);
            }
        } else if j == p + n + 3 {
            lemma_value_quote(l, j, v, key);
        } else if j < p + n + 4 + v.len() {
            lemma_piece(l, p + n + 3, g, j);
            assert(g[j - (p + n + 3)] == v[j - (p + n + 4)]);
            lemma_mismatch(l, pat, j, 0);
        } else if j == p + n + 4 + v.len() {
            lemma_piece(l, p + n + 3, g, j + 1);
            lemma_mismatch(l, pat, j, 1);
        } else {
            lemma_piece(l, p + n + 3, g, j);
            lemma_mismatch(l, pat, j, 0);
        }
    }
}

/// The opening `{"at":` and the digits after it hold no string key.
proof fn lemma_head_clear(e: EntryView, key: Seq<char>)
    requires
        writable(e),
        key.len() > 0,
        key[0] != 'a' && key[0] != ':',
    ensures
        forall|j: int| 0 <= j < p_kind(e) ==> !matches_at(line_body(e), key_open(key), j),
{
    lemma_layout(e);
    lemma_decimal(e.at as nat);
    let l = line_body(e);
    let pat = key_open(key);
    let s0 = seq!['{', '"', 'a', 't', '"', ':'];
    let d = decimal(e.at as nat);
    assert(pat[0] == '"');
    assert(pat[1] == key[0]);
    assert forall|j: int| 0 <= j < p_kind(e) implies !matches_at(l, pat, j) by {
        if j < 6 {
            lemma_piece(l, 0, s0, j);
            if j == 1 || j == 4 {
                lemma_piece(l, 0, s0, j + 1);
                lemma_mismatch(l, pat, j, 1);
            } else {
                lemma_mismatch(l, pat, j, 0);
            }
        } else if j < 6 + at_len(e) {
            lemma_piece(l, 6, d, j);
            assert(is_digit(d[j - 6]));
            lemma_mismatch(l, pat, j, 0);
        } else {
            lemma_mismatch(l, pat, j, 0);
        }
    }
}

proof fn lemma_keys()
    ensures
        key_kind().len() == 4,
        key_title().len() == 5,
        key_detail().len() == 6,
        key_hash().len() == 4,
        no_quote(key_kind()),
        no_quote(key_title()),
        no_quote(key_detail()),
        no_quote(key_hash()),
{
}

/// The value of a key laid out where expected, with no copy of the key
/// before it.
proof fn lemma_field_at(l: Seq<char>, key: Seq<char>, p: int, v: Seq<char>)
    requires
        0 <= p,
        p + key.len() + v.len() + 5 <= l.len(),
        l.subrange(p, p + key.len() + 4) == key_open(key),
        l.subrange(p + key.len() + 4, p + key.len() + 5 + v.len()) == v.push('"'),
        no_quote(v),
        forall|j: int| 0 <= j < p ==> !matches_at(l, key_open(key), j),
    ensures
        field_of(l, key) == Some(v),
{
    let pat = key_open(key);
    assert(pat.len() == key.len() + 4);
    assert(matches_at(l, pat, p));
    lemma_find_from_found(l, pat, 0, p);
    let start = p + key.len() + 4;
    let rest = l.subrange(start, l.len() as int);
    let q = seq!['"'];
    let vq = v.push('"');
    assert forall|j: int| 0 <= j <= v.len() implies rest[j] == vq[j] by {
        lemma_piece(l, start, vq, start + j);
    }
    assert(rest.subrange(v.len() as int, v.len() + 1 as int) =~= q);
    assert forall|j: int| 0 <= j < v.len() implies !matches_at(rest, q, j) by {
        lemma_mismatch(rest, q, j, 0);
    }
    lemma_find_from_found(rest, q, 0, v.len() as int);
    assert(rest.take(v.len() as int) =~= v);
}

proof fn lemma_at_reads_back(e: EntryView)
    requires
        writable(e),
    ensures
        at_of(line_body(e)) == e.at,
{
    lemma_layout(e);
    lemma_decimal(e.at as nat);
    let l = line_body(e);
    let s0 = seq!['{', '"', 'a', 't', '"', ':'];
    let d = decimal(e.at as nat);
    let a = at_len(e);
    lemma_piece(l, 0, s0, 0);
    lemma_mismatch(l, at_key(), 0, 0);
    assert forall|j: int| 0 <= j < 5 implies l[1 + j] == at_key()[j] by {
        lemma_piece(l, 0, s0, 1 + j);
    }
    assert(l.subrange(1, 6) =~= at_key());
    lemma_find_from_found(l, at_key(), 0, 1);
    let rest = l.subrange(6, l.len() as int);
    assert forall|j: int| 0 <= j < a implies rest[j] == d[j] by {
        lemma_piece(l, 6, d, 6 + j);
    }
    assert(rest[a] == ',');
    lemma_digit_run(rest, a);
    assert(rest.take(a) =~= d);
}

/// A line the log writes reads back as the entry it was written from.
pub proof fn law_line_reads_back(e: EntryView)
    requires
        writable(e),
    ensures
        parsed(line_body(e)) == Some(e),
{
    lemma_layout(e);
    lemma_keys();
    lemma_kind_facts(e.kind);
    let l = line_body(e);
    // kind
    lemma_head_clear(e, key_kind());
    lemma_field_at(l, key_kind(), p_kind(e), e.kind);
    // title
    lemma_head_clear(e, key_title());
    lemma_block_clear(l, key_title(), p_kind(e), key_kind(), e.kind);
    lemma_field_at(l, key_title(), p_title(e), e.title);
    // detail
    lemma_head_clear(e, key_detail());
    lemma_block_clear(l, key_detail(), p_kind(e), key_kind(), e.kind);
    lemma_block_clear(l, key_detail(), p_title(e), key_title(), e.title);
    lemma_field_at(l, key_detail(), p_detail(e), e.detail);
    // hash
    lemma_head_clear(e, key_hash());
    lemma_block_clear(l, key_hash(), p_kind(e), key_kind(), e.kind);
    lemma_block_clear(l, key_hash(), p_title(e), key_title(), e.title);
    lemma_block_clear(l, key_hash(), p_detail(e), key_detail(), e.detail);
    lemma_field_at(l, key_hash(), p_hash(e), e.hash);
    // the timestamp
    lemma_at_reads_back(e);
}

/// The text of a log holding `es`, written in order.
pub open spec fn log_text(es: Seq<EntryView>) -> Seq<char>
    decreases es.len(),
{
    if es.len() == 0 {
        Seq::empty()
    } else {
        log_text(es.drop_last()) + line_of(es.last())
    }
}

proof fn lemma_first_index_at(s: Seq<char>, c: char, k: int)
    requires
        0 <= k < s.len(),
        s[k] == c,
        forall|j: int| 0 <= j < k ==> s[j] != c,
    ensures
        first_index_of(s, c) == k,
    decreases k,
{
    if k > 0 {
        lemma_first_index_at(s.drop_first(), c, k - 1);
    }
}

/// Lines split the same before and after a line break.
proof fn lemma_text_lines_append(x: Seq<char>, y: Seq<char>)
    requires
        x.len() == 0 || x.last() == '\n',
    ensures
        text_lines(x + y) == text_lines(x) + text_lines(y),
    decreases x.len(),
{
    if x.len() == 0 {
        assert(x + y =~= y);
        assert(text_lines(x) =~= Seq::<Seq<char>>::empty());
        assert(text_lines(x) + text_lines(y) =~= text_lines(y));
    } else {
        lemma_first_index_bounds(x, '\n');
        let k = first_index_of(x, '\n');
        if k < 0 {
            assert(x[x.len() - 1] != '\n');
        }
        let xy = x + y;
        lemma_first_index_at(xy, '\n', k);
        assert(xy.take(k) =~= x.take(k));
        assert(xy.skip(k + 1) =~= x.skip(k + 1) + y);
        let x2 = x.skip(k + 1);
        if x2.len() > 0 {
            assert(x2.last() == x.last());
        }
        lemma_text_lines_append(x2, y);
        assert(text_lines(xy) =~= text_lines(x) + text_lines(y));
    }
}

proof fn lemma_no_newline_concat(a: Seq<char>, b: Seq<char>)
    requires
        no_newline(a),
        no_newline(b),
    ensures
        no_newline(a + b),
{
    assert forall|i: int| 0 <= i < (a + b).len() implies (a + b)[i] != '\n' by {
        if i >= a.len() {
            assert((a + b)[i] == b[i - a.len()]);
        }
    }
}

proof fn lemma_body_one_line(e: EntryView)
    requires
        writable(e),
    ensures
        no_newline(line_body(e)),
        line_body(e).len() > 0,
        line_body(e).last() == '}',
{
    lemma_plain_line(e);
    lemma_kind_facts(e.kind);
    lemma_decimal(e.at as nat);
    let d = decimal(e.at as nat);
    assert(no_newline(d)) by {
        assert forall|i: int| 0 <= i < d.len() implies d[i] != '\n' by {
            assert(is_digit(d[i]));
        }
    }
    let p0 = seq!['{', '"', 'a', 't', '"', ':'];
    let p1 = p0 + d;
    lemma_no_newline_concat(p0, d);
    let p2 = p1 + seq![','];
    lemma_no_newline_concat(p1, seq![',']);
    let p3 = p2 + key_open(key_kind());
    lemma_no_newline_concat(p2, key_open(key_kind()));
    let p4 = p3 + e.kind;
    lemma_no_newline_concat(p3, e.kind);
    let p5 = p4 + seq!['"', ','];
    lemma_no_newline_concat(p4, seq!['"', ',']);
    let p6 = p5 + key_open(key_title());
    lemma_no_newline_concat(p5, key_open(key_title()));
    let p7 = p6 + e.title;
    lemma_no_newline_concat(p6, e.title);
    let p8 = p7 + seq!['"', ','];
    lemma_no_newline_concat(p7, seq!['"', ',']);
    let p9 = p8 + key_open(key_detail());
    lemma_no_newline_concat(p8, key_open(key_detail()));
    let p10 = p9 + e.detail;
    lemma_no_newline_concat(p9, e.detail);
    let p11 = p10 + seq!['"', ','];
    lemma_no_newline_concat(p10, seq!['"', ',']);
    let p12 = p11 + key_open(key_hash());
    lemma_no_newline_concat(p11, key_open(key_hash()));
    let p13 = p12 + e.hash;
    lemma_no_newline_concat(p12, e.hash);
    let p14 = p13 + seq!['"', '}'];
    lemma_no_newline_concat(p13, seq!['"', '}']);
    assert(p14 =~= plain_line(e));
}

proof fn lemma_line_is_one_line(e: EntryView)
    requires
        writable(e),
    ensures
        text_lines(line_of(e)) == seq![line_body(e)],
{
    lemma_body_one_line(e);
    let b = line_body(e);
    let l = line_of(e);
    lemma_first_index_at(l, '\n', b.len() as int);
    assert(l.take(b.len() as int) =~= b);
    assert(l.skip(b.len() + 1 as int) =~= Seq::<char>::empty());
    assert(strip_cr(b) == b);
    assert(text_lines(Seq::<char>::empty()) =~= Seq::<Seq<char>>::empty());
    assert(text_lines(l) =~= seq![b]);
}

proof fn lemma_log_lines(es: Seq<EntryView>)
    requires
        forall|i: int| 0 <= i < es.len() ==> writable(#[trigger] es[i]),
    ensures
        text_lines(log_text(es)) == es.map_values(|e: EntryView| line_body(e)),
    decreases es.len(),
{
    if es.len() == 0 {
        assert(text_lines(log_text(es)) =~= es.map_values(|e: EntryView| line_body(e)));
    } else {
        let init = es.drop_last();
        lemma_log_lines(init);
        let x = log_text(init);
        if x.len() > 0 {
            assert(init.len() > 0);
            assert(x.last() == '\n');
        }
        lemma_text_lines_append(x, line_of(es.last()));
        lemma_line_is_one_line(es.last());
        assert(text_lines(log_text(es)) =~= es.map_values(|e: EntryView| line_body(e)));
    }
}

proof fn lemma_loaded_bodies(es: Seq<EntryView>)
    requires
        forall|i: int| 0 <= i < es.len() ==> writable(#[trigger] es[i]),
    ensures
        loaded(genesis(), Seq::empty(), es.map_values(|e: EntryView| line_body(e))) == (
            if es.len() == 0 {
                genesis()
            } else {
                es.last().hash
            },
            es,
        ),
    decreases es.len(),
{
    let bodies = es.map_values(|e: EntryView| line_body(e));
    if es.len() == 0 {
        assert(es =~= Seq::<EntryView>::empty());
    } else {
        let init = es.drop_last();
        lemma_loaded_bodies(init);
        assert(bodies.drop_last() =~= init.map_values(|e: EntryView| line_body(e)));
        law_line_reads_back(es.last());
        assert(init.push(es.last()) =~= es);
    }
}

/// A log the engine writes reads back whole: every entry, in order, with the
/// chain's tip at the last entry's hash.
pub proof fn law_log_reads_back(es: Seq<EntryView>)
    requires
        forall|i: int| 0 <= i < es.len() ==> writable(#[trigger] es[i]),
    ensures
        loaded(genesis(), Seq::empty(), text_lines(log_text(es))) == (
            if es.len() == 0 {
                genesis()
            } else {
                es.last().hash
            },
            es,
        ),
{
    lemma_log_lines(es);
    lemma_loaded_bodies(es);
}

/// Reading a log back leaves the chain's tip at its last entry.
pub proof fn law_loaded_tip(lines: Seq<Seq<char>>)
    ensures
        loaded(genesis(), Seq::empty(), lines).0 == tip(loaded(genesis(), Seq::empty(), lines).1),
{
    lemma_loaded_tip(genesis(), Seq::empty(), lines);
}

/// Each entry commits to the one before it: a recorded entry's hash is the
/// link hash over the previous entry's hash (or the genesis marker), the
/// entries before it are untouched, and the tip moves to it.
pub proof fn law_record_chains(
    a: AuditView,
    kind: Seq<char>,
    title: Seq<char>,
    detail: Seq<char>,
    at: u64,
)
    requires
        a.prev == tip(a.entries),
    ensures
        ({
            let b = recorded(a, kind, title, detail, at);
            &&& b.entries.drop_last() == a.entries
            &&& b.entries.last().hash == link_hash(tip(a.entries), kind, title, detail, at)
            &&& b.prev == tip(b.entries)
            &&& b.path == a.path
        }),
{
    let b = recorded(a, kind, title, detail, at);
    assert(b.entries.drop_last() =~= a.entries);
}

/// A line that does not parse costs that line and nothing else: a log
/// read with it holds exactly what the log read without it holds, whatever
/// came before it and whatever follows.
pub proof fn law_bad_line_costs_only_itself(
    prev: Seq<char>,
    entries: Seq<EntryView>,
    before: Seq<Seq<char>>,
    bad: Seq<char>,
    after: Seq<Seq<char>>,
)
    requires
        parsed(bad) is None,
    ensures
        loaded(prev, entries, before.push(bad) + after) == loaded(prev, entries, before + after),
    decreases after.len(),
{
    if after.len() == 0 {
        assert(before.push(bad) + after =~= before.push(bad));
        assert(before + after =~= before);
        assert(before.push(bad).drop_last() =~= before);
    } else {
        law_bad_line_costs_only_itself(prev, entries, before, bad, after.drop_last());
        assert((before.push(bad) + after).drop_last() =~= before.push(bad) + after.drop_last());
        assert((before + after).drop_last() =~= before + after.drop_last());
        assert((before.push(bad) + after).last() == after.last());
        assert((before + after).last() == after.last());
    }
}

} // verus!
