//! Byte counts and timestamps, as the user reads them.
//!
//! Formatting lives beside the engine rather than in the UI because the audit
//! log writes the same strings into its detail lines, and a figure that reads
//! one way on screen and another way in the exported log is a figure nobody
//! can reconcile.

use vstd::prelude::*;

use crate::rounding::{as_double, div_round_even, div_round_even_u128, round_to_bits_u128, DOUBLE_BITS};
use crate::text::{decimal, padded, pow10, push, push_decimal, push_padded, push_str};

verus! {

pub const KB: u64 = 1024;

pub const MB: u64 = 1048576;

pub const GB: u64 = 1073741824;

/// `n / 10^places` with exactly `places` digits after the point.
pub open spec fn fixed_point(n: nat, places: nat) -> Seq<char> {
    decimal(n / pow10(places)) + seq!['.'] + padded(n % pow10(places), places)
}

/// `710 KB`, `1.4 MB`, `2.31 GB`: the byte count as a double, divided by
/// the unit and rounded to the shown digits, a tie going to the even digit.
pub open spec fn bytes_text(b: nat) -> Seq<char> {
    let v = as_double(b);
    if b < KB {
        decimal(b) + " B"@
    } else if b < MB {
        decimal(div_round_even(v, KB as nat)) + " KB"@
    } else if b < GB {
        fixed_point(div_round_even(v * 10, MB as nat), 1) + " MB"@
    } else {
        fixed_point(div_round_even(v * 100, GB as nat), 2) + " GB"@
    }
}

/// Append `n / 10^places` with `places` digits after the point.
fn push_fixed_point(s: &mut String, n: u64, places: u32, scale: u64)
    requires
        1 <= places <= 2,
        scale == pow10(places as nat),
    ensures
        final(s)@ == old(s)@ + fixed_point(n as nat, places as nat),
{
    proof {
        reveal_with_fuel(pow10, 3);
    }
    push_decimal(s, n / scale);
    push(s, '.');
    push_padded(s, n % scale, places as usize);
    assert(final(s)@ =~= old(s)@ + fixed_point(n as nat, places as nat));
}

/// `710 KB`, `1.4 MB`, `2.31 GB`.
///
/// One decimal at MB and two at GB, because the difference between 2.3 and
/// 2.4 GB is a hundred megabytes and worth seeing, while a fraction of a
/// kilobyte is noise.
pub fn fmt_bytes(b: u64) -> (r: String)
    ensures
        r@ == bytes_text(b as nat),
{
    let v = round_to_bits_u128(b as u128, DOUBLE_BITS);
    let mut s = String::new();
    proof {
        reveal_strlit(" B");
        reveal_strlit(" KB");
        reveal_strlit(" MB");
        reveal_strlit(" GB");
        assert(pow10(1) == 10) by {
            reveal_with_fuel(pow10, 2);
        }
        assert(pow10(2) == 100) by {
            reveal_with_fuel(pow10, 3);
        }
    }
    if b < KB {
        push_decimal(&mut s, b);
        push_str(&mut s, " B");
    } else if b < MB {
        let k = div_round_even_u128(v, KB as u128);
        assert(k <= v) by {
            crate::rounding::lemma_div_round_even(v as nat, KB as nat);
        }
        push_decimal(&mut s, k as u64);
        push_str(&mut s, " KB");
    } else if b < GB {
        let n = div_round_even_u128(v * 10, MB as u128);
        assert(n <= v * 10) by {
            crate::rounding::lemma_div_round_even((v * 10) as nat, MB as nat);
        }
        push_fixed_point(&mut s, n as u64, 1, 10);
        push_str(&mut s, " MB");
    } else {
        let n = div_round_even_u128(v * 100, GB as u128);
        proof {
            crate::rounding::lemma_div_round_even((v * 100) as nat, GB as nat);
        }
        assert(n <= 0xFFFF_FFFF_FFFF_FFFF) by (nonlinear_arith)
            requires
                n * 1073741824 <= v * 100 + 1073741824,
                v <= 2 * 0xFFFF_FFFF_FFFF_FFFF,
        ;
        push_fixed_point(&mut s, n as u64, 2, 100);
        push_str(&mut s, " GB");
    }
    s
}


/// Years since the start of the 400-year era, for a day `doe` of the era
/// (eras and years start on the first of March).
pub open spec fn year_of_era(doe: int) -> int {
    (doe - doe / 1460 + doe / 36524 - doe / 146096) / 365
}

/// Day of the March-based year, for a day `doe` of the era.
pub open spec fn day_of_year(doe: int) -> int {
    let yoe = year_of_era(doe);
    doe - (365 * yoe + yoe / 4 - yoe / 100)
}

/// Month of the March-based year (March is 0) holding day `doy`.
pub open spec fn month_of_year(doy: int) -> int {
    (5 * doy + 2) / 153
}

/// Days of the March-based year before month `mp`.
pub open spec fn days_before(mp: int) -> int {
    (153 * mp + 2) / 5
}

/// The civil date `(year, month, day)` of the day `days` after 1970-01-01,
/// in the proleptic Gregorian calendar (Howard Hinnant's `civil_from_days`).
#[verifier::opaque]
pub open spec fn civil_from_days(days: int) -> (int, int, int) {
    let z = days + 719468;
    let era = z / 146097;
    let doe = z % 146097;
    let doy = day_of_year(doe);
    let mp = month_of_year(doy);
    let d = doy - days_before(mp) + 1;
    let m = if mp < 10 {
        mp + 3
    } else {
        mp - 9
    };
    let y = year_of_era(doe) + era * 400;
    (
        if m <= 2 {
            y + 1
        } else {
            y
        },
        m,
        d,
    )
}

/// `YYYY-MM-DD HH:MM` for `secs` seconds after the epoch, UTC.
pub open spec fn time_text(secs: nat) -> Seq<char> {
    let date = civil_from_days((secs / 86400) as int);
    let tod = secs % 86400;
    padded(date.0 as nat, 4) + seq!['-'] + padded(date.1 as nat, 2) + seq!['-'] + padded(
        date.2 as nat,
        2,
    ) + seq![' '] + padded(tod / 3600, 2) + seq![':'] + padded((tod % 3600) / 60, 2)
}

/// The pieces of an era stay in range: a year of the era below 400, a day
/// of the year below 366, a month below 12 and a day of the month from one
/// to thirty-one.
pub proof fn lemma_era_ranges(doe: int)
    requires
        0 <= doe < 146097,
    ensures
        0 <= year_of_era(doe) < 400,
        0 <= day_of_year(doe) < 366,
        0 <= month_of_year(day_of_year(doe)) < 12,
        0 <= days_before(month_of_year(day_of_year(doe))) <= day_of_year(doe),
        day_of_year(doe) - days_before(month_of_year(day_of_year(doe))) < 31,
{
}

/// `YYYY-MM-DD HH:MM`, UTC.
///
/// The civil-date arithmetic is Howard Hinnant's `civil_from_days`, exact
/// for every date a `u64` of seconds can reach.
pub fn fmt_time(secs: u64) -> (r: String)
    ensures
        r@ == time_text(secs as nat),
{
    let days = secs / 86400;
    let tod = secs % 86400;
    let z = days + 719468;
    let era = z / 146097;
    let doe = z % 146097;
    proof {
        lemma_era_ranges(doe as int);
        reveal(civil_from_days);
    }
    let yoe = (doe - doe / 1460 + doe / 36524 - doe / 146096) / 365;
    let doy = doe - (365 * yoe + yoe / 4 - yoe / 100);
    let mp = (5 * doy + 2) / 153;
    let d = doy - (153 * mp + 2) / 5 + 1;
    let m = if mp < 10 {
        mp + 3
    } else {
        mp - 9
    };
    let y = yoe + era * 400;
    let y = if m <= 2 {
        y + 1
    } else {
        y
    };
    let mut s = String::new();
    push_padded(&mut s, y, 4);
    push(&mut s, '-');
    push_padded(&mut s, m, 2);
    push(&mut s, '-');
    push_padded(&mut s, d, 2);
    push(&mut s, ' ');
    push_padded(&mut s, tod / 3600, 2);
    push(&mut s, ':');
    push_padded(&mut s, (tod % 3600) / 60, 2);
    s
}

} // verus!
