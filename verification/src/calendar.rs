//! The proleptic Gregorian calendar, stated directly, and the proof that the
//! era arithmetic behind `fmt_time` lands on it.

use vstd::prelude::*;

use crate::fmt::{civil_from_days, day_of_year, days_before, lemma_era_ranges, month_of_year, year_of_era};

verus! {

pub open spec fn is_leap(y: int) -> bool {
    y % 4 == 0 && (y % 100 != 0 || y % 400 == 0)
}

pub open spec fn month_days(y: int, m: int) -> int {
    if m == 2 {
        if is_leap(y) {
            29
        } else {
            28
        }
    } else if m == 4 || m == 6 || m == 9 || m == 11 {
        30
    } else {
        31
    }
}

/// Days of year `y` before the first of month `m`.
pub open spec fn days_before_month(y: int, m: int) -> int
    decreases m,
{
    if m <= 1 {
        0
    } else {
        days_before_month(y, m - 1) + month_days(y, m - 1)
    }
}

/// Days from 1970-01-01 to the first of January of year `y`.
pub open spec fn days_before_year(y: int) -> int
    decreases y - 1970,
{
    if y <= 1970 {
        0
    } else {
        days_before_year(y - 1) + if is_leap(y - 1) {
            366int
        } else {
            365int
        }
    }
}

/// Days from 1970-01-01 to `y-m-d`.
pub open spec fn days_since_epoch(y: int, m: int, d: int) -> int {
    days_before_year(y) + days_before_month(y, m) + d - 1
}

pub open spec fn is_valid_date(y: int, m: int, d: int) -> bool {
    y >= 1970 && 1 <= m <= 12 && 1 <= d <= month_days(y, m)
}

/// Leap years among `1..=x`.
pub open spec fn leaps_through(x: int) -> int {
    x / 4 - x / 100 + x / 400
}

proof fn lemma_days_before_year(y: int)
    requires
        y >= 1970,
    ensures
        days_before_year(y) == 365 * (y - 1970) + leaps_through(y - 1) - 477,
    decreases y - 1970,
{
    if y > 1970 {
        lemma_days_before_year(y - 1);
    }
}

proof fn lemma_days_before_month(y: int, m: int)
    requires
        1 <= m <= 12,
    ensures
        m <= 2 ==> days_before_month(y, m) == 31 * (m - 1),
        m >= 3 ==> days_before_month(y, m) == 59 + (if is_leap(y) {
            1int
        } else {
            0int
        }) + days_before(m - 3),
{
    reveal_with_fuel(days_before_month, 13);
}


/// A March-based year of the era runs to day 365 only when the February
/// that ends it has a 29th.
proof fn lemma_year_length(doe: int)
    requires
        0 <= doe < 146097,
    ensures
        day_of_year(doe) <= 364 + (if is_leap(year_of_era(doe) + 1) {
            1int
        } else {
            0int
        }),
{
    lemma_era_ranges(doe);
}

/// Days from 0000-03-01 to the first of March of year `y`.
pub open spec fn march_days(y: int) -> int {
    365 * y + leaps_through(y)
}

/// A month of the March-based year spans the days from its start to the
/// start of the next.
proof fn lemma_month_span(doy: int)
    requires
        0 <= doy < 366,
    ensures
        days_before(month_of_year(doy)) <= doy,
        month_of_year(doy) < 11 ==> doy < days_before(month_of_year(doy) + 1),
{
}

proof fn lemma_leaps_step(y: int)
    ensures
        leaps_through(y) == leaps_through(y - 1) + if is_leap(y) {
            1int
        } else {
            0int
        },
{
}

proof fn lemma_march_monotone(a: int, b: int)
    requires
        a <= b,
    ensures
        march_days(a) <= march_days(b),
    decreases b - a,
{
    if a < b {
        lemma_leaps_step(b);
        lemma_march_monotone(a, b - 1);
    }
}

/// Whole eras of 400 years add 97 leap years each and move no year's
/// leap status.
proof fn lemma_era_shift(yoe: int, era: int)
    requires
        0 <= yoe < 400,
        era >= 0,
    ensures
        leaps_through(yoe + era * 400) == yoe / 4 - yoe / 100 + 97 * era,
        is_leap(yoe + era * 400 + 1) == is_leap(yoe + 1),
{
    assert((yoe + era * 400) / 4 == yoe / 4 + era * 100);
    assert((yoe + era * 400) / 100 == yoe / 100 + era * 4);
    assert((yoe + era * 400) / 400 == era);
    assert((yoe + 1 + era * 400) % 4 == (yoe + 1) % 4);
    assert((yoe + 1 + era * 400) % 100 == (yoe + 1) % 100);
    assert((yoe + 1 + era * 400) % 400 == (yoe + 1) % 400);
}

/// The March-based year `yp` and its day `doy` that a day count splits into.
proof fn lemma_split(days: int) -> (r: (int, int, int))
    requires
        days >= 0,
    ensures
        0 <= r.2 < 146097,
        r.1 == year_of_era(r.2) + r.0 * 400,
        r.0 >= 0,
        march_days(r.1) + day_of_year(r.2) == days + 719468,
        is_leap(r.1 + 1) == is_leap(year_of_era(r.2) + 1),
        civil_from_days(days) == {
            let doy = day_of_year(r.2);
            let mp = month_of_year(doy);
            let d = doy - days_before(mp) + 1;
            if mp < 10 {
                (r.1, mp + 3, d)
            } else {
                (r.1 + 1, mp - 9, d)
            }
        },
{
    let z = days + 719468;
    let era = z / 146097;
    let doe = z % 146097;
    let yoe = year_of_era(doe);
    lemma_era_ranges(doe);
    lemma_era_shift(yoe, era);
    reveal(civil_from_days);
    (era, yoe + era * 400, doe)
}

/// Every day from 1970-01-01 on is a real date of the proleptic Gregorian
/// calendar, and the date `fmt_time` names for it lies exactly that many
/// days after the epoch.
pub proof fn law_civil_date(days: int)
    requires
        days >= 0,
    ensures
        is_valid_date(civil_from_days(days).0, civil_from_days(days).1, civil_from_days(days).2),
        days_since_epoch(civil_from_days(days).0, civil_from_days(days).1, civil_from_days(days).2)
            == days,
{
    let (era, yp, doe) = lemma_split(days);
    let doy = day_of_year(doe);
    let mp = month_of_year(doy);
    lemma_era_ranges(doe);
    lemma_year_length(doe);
    lemma_month_span(doy);
    lemma_leaps_step(yp);
    lemma_leaps_step(yp + 1);
    if mp < 10 {
        if yp <= 1969 {
            lemma_march_monotone(yp, 1969);
        }
        assert(yp >= 1970);
        lemma_days_before_year(yp);
        lemma_days_before_month(yp, mp + 3);
    } else {
        if yp <= 1968 {
            lemma_march_monotone(yp, 1968);
        }
        assert(yp >= 1969);
        lemma_days_before_year(yp + 1);
        lemma_days_before_month(yp + 1, mp - 9);
    }
}

} // verus!
