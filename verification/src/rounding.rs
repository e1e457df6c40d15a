//! Rounding to a fixed number of significant binary digits, ties to even:
//! the rounding a binary64 double applies to every integer it is handed and
//! to every product it forms. Done exactly, on integers.

use vstd::prelude::*;

use vstd::arithmetic::div_mod::lemma_fundamental_div_mod;
use vstd::arithmetic::power2::{
    lemma2_to64,
    lemma_pow2_adds,
    lemma_pow2_pos,
    lemma_pow2_strictly_increases,
    lemma_pow2_unfold,
    pow2,
};

verus! {

/// Significant bits of a binary64 double.
pub const DOUBLE_BITS: u32 = 53;

/// Number of binary digits of `x`; zero for zero.
pub open spec fn bit_len(x: nat) -> nat
    decreases x,
{
    if x == 0 {
        0
    } else {
        1 + bit_len(x / 2)
    }
}

/// `n / d` rounded to the nearest integer, a tie going to the even one.
pub open spec fn div_round_even(n: nat, d: nat) -> nat {
    let q = n / d;
    let r = n % d;
    if 2 * r > d || (2 * r == d && q % 2 == 1) {
        q + 1
    } else {
        q
    }
}

/// The number nearest `x` that has at most `p` significant binary digits,
/// a tie going to the one whose last kept digit is even.
pub open spec fn round_to_bits(x: nat, p: nat) -> nat {
    if bit_len(x) <= p {
        x
    } else {
        let unit = pow2((bit_len(x) - p) as nat);
        div_round_even(x, unit) * unit
    }
}

/// The value a binary64 double holds for the integer `x`.
pub open spec fn as_double(x: nat) -> nat {
    round_to_bits(x, DOUBLE_BITS as nat)
}

pub proof fn lemma_pow2_128()
    ensures
        pow2(64) == 0x1_0000_0000_0000_0000,
        pow2(128) == 0x1_0000_0000_0000_0000_0000_0000_0000_0000,
{
    lemma2_to64();
    lemma_pow2_adds(64, 64);
}

/// `2^a <= 2^b` when `a <= b`.
pub proof fn lemma_pow2_le(a: nat, b: nat)
    requires
        a <= b,
    ensures
        pow2(a) <= pow2(b),
{
    if a < b {
        lemma_pow2_strictly_increases(a, b);
    }
}

/// A positive `x` lies in `[2^(len-1), 2^len)`.
pub proof fn lemma_bit_len(x: nat)
    ensures
        x < pow2(bit_len(x)),
        x > 0 ==> bit_len(x) >= 1 && pow2((bit_len(x) - 1) as nat) <= x,
    decreases x,
{
    lemma_pow2_pos(0);
    lemma2_to64();
    if x > 0 {
        lemma_bit_len(x / 2);
        lemma_pow2_unfold(bit_len(x));
        if x / 2 > 0 {
            lemma_pow2_unfold((bit_len(x) - 1) as nat);
        }
    }
}

/// A number below `2^n` has at most `n` binary digits.
pub proof fn lemma_bit_len_bound(x: nat, n: nat)
    requires
        x < pow2(n),
    ensures
        bit_len(x) <= n,
    decreases x,
{
    if x > 0 {
        lemma2_to64();
        if n == 0 {
            assert(false);
        } else {
            lemma_pow2_unfold(n);
            lemma_bit_len_bound(x / 2, (n - 1) as nat);
        }
    }
}

/// Rounding a quotient moves it by at most one.
pub proof fn lemma_div_round_even(n: nat, d: nat)
    requires
        d > 0,
    ensures
        div_round_even(n, d) * d <= n + d,
        n < div_round_even(n, d) * d + d,
        d >= 2 ==> div_round_even(n, d) <= n,
{
    lemma_fundamental_div_mod(n as int, d as int);
    let q = n / d;
    let r = n % d;
    assert(d * q + r == n);
    assert(q * d == d * q) by (nonlinear_arith);
    assert((q + 1) * d == q * d + d) by (nonlinear_arith);
    if d >= 2 {
        assert(q * 2 <= q * d) by (nonlinear_arith)
            requires
                d >= 2,
        ;
    }
}

/// Rounding at most doubles a number, and only the digits below the kept
/// ones change: the result stays within one unit of `x`.
pub proof fn lemma_round_to_bits(x: nat, p: nat)
    requires
        p >= 1,
    ensures
        round_to_bits(x, p) <= 2 * x,
        x == 0 ==> round_to_bits(x, p) == 0,
{
    if bit_len(x) > p {
        lemma_bit_len(x);
        let s = (bit_len(x) - p) as nat;
        let unit = pow2(s);
        lemma_pow2_le(s, (bit_len(x) - 1) as nat);
        lemma_pow2_pos(s);
        lemma_div_round_even(x, unit);
    }
}

/// Rounding to `p` significant digits moves a number up by at most one
/// part in `2^p`.
pub proof fn lemma_round_to_bits_above(x: nat, p: nat)
    requires
        p >= 1,
    ensures
        round_to_bits(x, p) * pow2(p) <= x * (pow2(p) + 1),
{
    lemma_pow2_pos(p);
    if bit_len(x) <= p {
        assert(x * pow2(p) <= x * (pow2(p) + 1)) by (nonlinear_arith);
    } else {
        lemma_bit_len(x);
        let len = bit_len(x);
        let s = (len - p) as nat;
        let unit = pow2(s);
        lemma_pow2_pos(s);
        lemma_pow2_adds(s, p);
        assert(s + p == len);
        lemma_pow2_unfold(len);
        assert(unit * pow2(p) <= 2 * x);
        lemma_fundamental_div_mod(x as int, unit as int);
        let q = x / unit;
        let r = x % unit;
        let rr = div_round_even(x, unit);
        assert(2 * (rr * unit) <= 2 * x + unit) by {
            if rr == q + 1 {
                assert((q + 1) * unit == q * unit + unit) by (nonlinear_arith);
                assert(q * unit == unit * q) by (nonlinear_arith);
            } else {
                assert(q * unit == unit * q) by (nonlinear_arith);
            }
        }
        assert(round_to_bits(x, p) == rr * unit);
        assert(2 * (rr * unit) * pow2(p) <= 2 * x * pow2(p) + unit * pow2(p)) by (nonlinear_arith)
            requires
                2 * (rr * unit) <= 2 * x + unit,
        ;
        assert(rr * unit * pow2(p) <= x * (pow2(p) + 1)) by (nonlinear_arith)
            requires
                2 * (rr * unit) * pow2(p) <= 2 * x * pow2(p) + unit * pow2(p),
                unit * pow2(p) <= 2 * x,
        ;
    }
}

/// Rounding a quotient is monotone in the dividend.
pub proof fn lemma_div_round_even_monotone(n1: nat, n2: nat, d: nat)
    requires
        d > 0,
        n1 <= n2,
    ensures
        div_round_even(n1, d) <= div_round_even(n2, d),
{
    lemma_fundamental_div_mod(n1 as int, d as int);
    lemma_fundamental_div_mod(n2 as int, d as int);
    let q1 = n1 / d;
    let q2 = n2 / d;
    assert(q1 <= q2) by {
        vstd::arithmetic::div_mod::lemma_div_is_ordered(n1 as int, n2 as int, d as int);
    }
    if q1 == q2 {
        assert(n1 % d <= n2 % d);
    }
}

/// A number of `len` binary digits rounds to no more than `2^len` and no
/// less than `2^(len - 1)`.
pub proof fn lemma_round_to_bits_range(x: nat, p: nat)
    requires
        p >= 1,
        x > 0,
    ensures
        round_to_bits(x, p) <= pow2(bit_len(x)),
        pow2((bit_len(x) - 1) as nat) <= round_to_bits(x, p),
{
    lemma_bit_len(x);
    let len = bit_len(x);
    if len > p {
        let s = (len - p) as nat;
        let unit = pow2(s);
        lemma_pow2_pos(s);
        lemma_pow2_adds(s, p);
        lemma_pow2_adds(s, (p - 1) as nat);
        assert(s + (p - 1) == len - 1);
        lemma_fundamental_div_mod(x as int, unit as int);
        let q = x / unit;
        let r = x % unit;
        assert(unit * q + r == x);
        assert(q < pow2(p)) by (nonlinear_arith)
            requires
                unit * q + r == x,
                x < unit * pow2(p),
                r >= 0,
                unit > 0,
        ;
        assert(q >= pow2((p - 1) as nat)) by (nonlinear_arith)
            requires
                unit * q + r == x,
                x >= unit * pow2((p - 1) as nat),
                r < unit,
                unit > 0,
        ;
        let rr = div_round_even(x, unit);
        assert(rr * unit <= pow2(p) * unit) by (nonlinear_arith)
            requires
                rr <= q + 1,
                q < pow2(p),
                unit > 0,
        ;
        assert(pow2((p - 1) as nat) * unit <= rr * unit) by (nonlinear_arith)
            requires
                q <= rr,
                q >= pow2((p - 1) as nat),
                unit > 0,
        ;
        assert(pow2(p) * unit == unit * pow2(p)) by (nonlinear_arith);
        assert(pow2((p - 1) as nat) * unit == unit * pow2((p - 1) as nat)) by (nonlinear_arith);
    }
}

/// Rounding is monotone: a larger number never rounds below a smaller one.
pub proof fn lemma_round_to_bits_monotone(x: nat, y: nat, p: nat)
    requires
        p >= 1,
        x <= y,
    ensures
        round_to_bits(x, p) <= round_to_bits(y, p),
{
    if x == 0 {
        lemma_round_to_bits(y, p);
        assert(round_to_bits(x, p) == 0) by {
            lemma_round_to_bits(x, p);
        }
    } else {
        lemma_bit_len(x);
        lemma_bit_len(y);
        let lx = bit_len(x);
        let ly = bit_len(y);
        if lx < ly {
            lemma_round_to_bits_range(x, p);
            lemma_round_to_bits_range(y, p);
            lemma_pow2_le(lx, (ly - 1) as nat);
        } else {
            assert(lx == ly) by {
                if lx > ly {
                    lemma_bit_len_bound(x, ly);
                }
            }
            if lx > p {
                let unit = pow2((lx - p) as nat);
                lemma_pow2_pos((lx - p) as nat);
                lemma_div_round_even_monotone(x, y, unit);
                let a = div_round_even(x, unit);
                let b = div_round_even(y, unit);
                assert(a * unit <= b * unit) by (nonlinear_arith)
                    requires
                        a <= b,
                ;
            }
        }
    }
}

/// Scaling by a power of two commutes with rounding.
pub proof fn lemma_round_to_bits_scale(x: nat, k: nat, p: nat)
    requires
        p >= 1,
    ensures
        round_to_bits(x * pow2(k), p) == round_to_bits(x, p) * pow2(k),
{
    lemma_pow2_pos(k);
    if x == 0 {
        assert(x * pow2(k) == 0);
        lemma_round_to_bits(0, p);
    } else {
        lemma_bit_len_scale(x, k);
        let len = bit_len(x);
        let y = x * pow2(k);
        if len > p {
            let s = (len - p) as nat;
            let unit = pow2(s);
            lemma_pow2_pos(s);
            lemma_pow2_adds(s, k);
            assert((len + k - p) as nat == s + k);
            let big = pow2(s + k);
            assert(big == unit * pow2(k));
            assert(big > 0) by (nonlinear_arith)
                requires
                    big == unit * pow2(k),
                    unit > 0,
                    pow2(k) > 0,
            ;
            lemma_fundamental_div_mod(x as int, unit as int);
            let q = x / unit;
            let r = x % unit;
            assert(y == q * big + r * pow2(k)) by (nonlinear_arith)
                requires
                    x == unit * q + r,
                    y == x * pow2(k),
                    big == unit * pow2(k),
            ;
            assert(r * pow2(k) < big) by (nonlinear_arith)
                requires
                    r < unit,
                    big == unit * pow2(k),
                    pow2(k) > 0,
            ;
            vstd::arithmetic::div_mod::lemma_fundamental_div_mod_converse(
                y as int,
                big as int,
                q as int,
                (r * pow2(k)) as int,
            );
            assert(y / big == q && y % big == r * pow2(k));
            assert(2 * (r * pow2(k)) > big <==> 2 * r > unit) by (nonlinear_arith)
                requires
                    big == unit * pow2(k),
                    pow2(k) > 0,
            ;
            assert(2 * (r * pow2(k)) == big <==> 2 * r == unit) by (nonlinear_arith)
                requires
                    big == unit * pow2(k),
                    pow2(k) > 0,
            ;
            let d = div_round_even(x, unit);
            assert(div_round_even(y, big) == d);
            assert(d * big == d * unit * pow2(k)) by (nonlinear_arith)
                requires
                    big == unit * pow2(k),
            ;
        } else {
            assert(bit_len(y) <= p + k);
            if bit_len(y) > p {
                let s = (bit_len(y) - p) as nat;
                assert(s <= k);
                lemma_pow2_adds(s, (k - s) as nat);
                let unit = pow2(s);
                lemma_pow2_pos(s);
                assert(y == (x * pow2((k - s) as nat)) * unit + 0) by (nonlinear_arith)
                    requires
                        y == x * pow2(k),
                        pow2(k) == unit * pow2((k - s) as nat),
                ;
                vstd::arithmetic::div_mod::lemma_fundamental_div_mod_converse(
                    y as int,
                    unit as int,
                    (x * pow2((k - s) as nat)) as int,
                    0,
                );
            }
        }
    }
}

/// Scaling by `2^k` adds `k` binary digits.
pub proof fn lemma_bit_len_scale(x: nat, k: nat)
    requires
        x > 0,
    ensures
        bit_len(x * pow2(k)) == bit_len(x) + k,
    decreases k,
{
    if k > 0 {
        lemma_bit_len_scale(x, (k - 1) as nat);
        lemma_pow2_unfold(k);
        let y = x * pow2((k - 1) as nat);
        assert(x * pow2(k) == 2 * y) by (nonlinear_arith)
            requires
                pow2(k) == 2 * pow2((k - 1) as nat),
                y == x * pow2((k - 1) as nat),
        ;
        lemma_pow2_pos((k - 1) as nat);
        assert(y > 0) by (nonlinear_arith)
            requires
                x > 0,
                pow2((k - 1) as nat) > 0,
                y == x * pow2((k - 1) as nat),
        ;
        assert((2 * y) / 2 == y);
    } else {
        assert(x * pow2(0) == x) by {
            lemma2_to64();
        }
    }
}

/// `2^n`, for `n < 128`.
pub fn pow2_u128(n: u32) -> (r: u128)
    requires
        n < 128,
    ensures
        r == pow2(n as nat),
{
    let mut r: u128 = 1;
    let mut i: u32 = 0;
    proof {
        lemma2_to64();
    }
    while i < n
        invariant
            i <= n,
            n < 128,
            r == pow2(i as nat),
        decreases n - i,
    {
        proof {
            lemma_pow2_unfold((i + 1) as nat);
            lemma_pow2_strictly_increases((i + 1) as nat, 128);
            lemma_pow2_128();
        }
        r = r * 2;
        i = i + 1;
    }
    r
}

/// Number of binary digits of `x`.
pub fn bit_length(x: u128) -> (n: u32)
    ensures
        n == bit_len(x as nat),
        n <= 128,
{
    proof {
        lemma_pow2_128();
        lemma_bit_len_bound(x as nat, 128);
    }
    let mut y: u128 = x;
    let mut n: u32 = 0;
    while y > 0
        invariant
            bit_len(x as nat) == n + bit_len(y as nat),
            bit_len(x as nat) <= 128,
        decreases y,
    {
        y = y / 2;
        n = n + 1;
    }
    n
}

/// `n / d` rounded to the nearest integer, a tie going to the even one.
pub fn div_round_even_u128(n: u128, d: u128) -> (r: u128)
    requires
        d > 0,
    ensures
        r == div_round_even(n as nat, d as nat),
{
    let q = n / d;
    let rem = n % d;
    proof {
        lemma_div_round_even(n as nat, d as nat);
        lemma_fundamental_div_mod(n as int, d as int);
    }
    if rem > d - rem || (rem == d - rem && q % 2 == 1) {
        assert(d >= 2);
        q + 1
    } else {
        q
    }
}

/// The number nearest `x` with at most `p` significant binary digits, a tie
/// going to the even one.
pub fn round_to_bits_u128(x: u128, p: u32) -> (r: u128)
    requires
        p >= 1,
        x < 0x8000_0000_0000_0000_0000_0000_0000_0000,
    ensures
        r == round_to_bits(x as nat, p as nat),
        r <= 2 * x,
{
    proof {
        lemma_round_to_bits(x as nat, p as nat);
    }
    let len = bit_length(x);
    if len <= p {
        return x;
    }
    let unit = pow2_u128(len - p);
    proof {
        lemma_pow2_pos((len - p) as nat);
    }
    div_round_even_u128(x, unit) * unit
}

} // verus!
