//! Whole-file content hashing, and the byte encodings the hash chains feed it.

use vstd::prelude::*;
use vstd::utf8::encode_utf8;

verus! {

/// The lowercase hexadecimal BLAKE3 digest of `data`. Deterministic in the
/// bytes alone.
pub uninterp spec fn blake3_hex(data: Seq<u8>) -> Seq<char>;

/// A lowercase hexadecimal digit.
pub open spec fn is_hex_digit(c: char) -> bool {
    ('0' <= c && c <= '9') || ('a' <= c && c <= 'f')
}

/// `blake3::hash(data).to_hex()`, as a `String`. The contract claims that the
/// result is the named digest of the bytes, and what the crate documents of
/// `to_hex`: 64 lowercase hexadecimal digits for the 32-byte hash.
#[verifier::external_body]
fn hash_hex(data: &[u8]) -> (h: String)
    ensures
        h@ == blake3_hex(data@),
        h@.len() == 64,
        forall|i: int| 0 <= i < h@.len() ==> is_hex_digit(#[trigger] h@[i]),
{
    blake3::hash(data).to_hex().to_string()
}

/// Whole-file content hash. Used for dedup and for lossless roundtrip proof.
///
/// Whole-file hashing rather than content-defined chunking: compressed media
/// shares no chunk boundaries across files, so chunking costs CPU without
/// finding redundancy that whole-file hashing misses.
pub fn content_hash(bytes: &[u8]) -> (h: String)
    ensures
        h@ == blake3_hex(bytes@),
        h@.len() == 64,
        forall|i: int| 0 <= i < h@.len() ==> is_hex_digit(#[trigger] h@[i]),
{
    hash_hex(bytes)
}

/// The first `n` characters of a digest, as a `String`.
pub fn digest_prefix(data: &[u8], n: usize) -> (h: String)
    requires
        n <= 64,
    ensures
        h@ == blake3_hex(data@).take(n as int),
        forall|i: int| 0 <= i < h@.len() ==> is_hex_digit(#[trigger] h@[i]),
{
    let full = hash_hex(data);
    let cs = crate::text::chars_of(full.as_str());
    let head = crate::classify::slice_range(&cs, 0, n);
    crate::text::string_of(&head)
}

/// The little-endian bytes of the low `k` bytes of `n`, as
/// `u64::to_le_bytes` lays them out.
pub open spec fn le_bytes(n: nat, k: nat) -> Seq<u8>
    decreases k,
{
    if k == 0 {
        Seq::empty()
    } else {
        seq![(n % 256) as u8] + le_bytes(n / 256, (k - 1) as nat)
    }
}

/// Append `n.to_le_bytes()`.
pub fn push_le_u64(v: &mut Vec<u8>, n: u64)
    ensures
        final(v)@ == old(v)@ + le_bytes(n as nat, 8),
{
    let mut m: u64 = n;
    let mut k: usize = 0;
    let ghost start = v@;
    while k < 8
        invariant
            k <= 8,
            start + le_bytes(n as nat, 8) == v@ + le_bytes(m as nat, (8 - k) as nat),
        decreases 8 - k,
    {
        let b = (m % 256) as u8;
        proof {
            assert(le_bytes(m as nat, (8 - k) as nat) =~= seq![b] + le_bytes(
                (m / 256) as nat,
                (8 - k - 1) as nat,
            ));
        }
        v.push(b);
        m = m / 256;
        k += 1;
    }
    assert(le_bytes(m as nat, 0) =~= Seq::<u8>::empty());
    assert(v@ =~= start + le_bytes(n as nat, 8));
}

/// Append the bytes of `s`.
pub fn push_bytes(v: &mut Vec<u8>, s: &[u8])
    ensures
        final(v)@ == old(v)@ + s@,
{
    let mut i: usize = 0;
    while i < s.len()
        invariant
            i <= s.len(),
            v@ == old(v)@ + s@.take(i as int),
        decreases s.len() - i,
    {
        v.push(s[i]);
        assert(old(v)@ + s@.take(i + 1) =~= old(v)@ + s@.take(i as int) + seq![s@[i as int]]);
        i += 1;
    }
    assert(s@.take(s.len() as int) =~= s@);
}

/// Append the UTF-8 bytes of `s`.
pub fn push_utf8(v: &mut Vec<u8>, s: &str)
    ensures
        final(v)@ == old(v)@ + encode_utf8(s@),
{
    push_bytes(v, s.as_bytes());
}

} // verus!
