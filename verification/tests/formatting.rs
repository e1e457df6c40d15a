use vavlt::fmt::{fmt_bytes, fmt_time};

/// The byte count as the user reads it, computed with doubles the way a
/// straightforward formatter would.
fn bytes_by_doubles(b: u64) -> String {
    let kb: f64 = 1024.0;
    let v = b as f64;
    if v < kb {
        format!("{v:.0} B")
    } else if v < kb * kb {
        format!("{:.0} KB", v / kb)
    } else if v < kb * kb * kb {
        format!("{:.1} MB", v / (kb * kb))
    } else {
        format!("{:.2} GB", v / (kb * kb * kb))
    }
}

/// Howard Hinnant's `civil_from_days` over signed integers.
fn time_by_hinnant(secs: u64) -> String {
    let days = (secs / 86_400) as i64;
    let tod = secs % 86_400;
    let z = days + 719_468;
    let era = z.div_euclid(146_097);
    let doe = z.rem_euclid(146_097);
    let yoe = (doe - doe / 1460 + doe / 36_524 - doe / 146_096) / 365;
    let y = yoe + era * 400;
    let doy = doe - (365 * yoe + yoe / 4 - yoe / 100);
    let mp = (5 * doy + 2) / 153;
    let d = doy - (153 * mp + 2) / 5 + 1;
    let m = if mp < 10 { mp + 3 } else { mp - 9 };
    let y = if m <= 2 { y + 1 } else { y };
    format!("{y:04}-{m:02}-{d:02} {:02}:{:02}", tod / 3600, (tod % 3600) / 60)
}

#[test]
fn units_change_at_the_right_thresholds() {
    assert_eq!(fmt_bytes(0), "0 B");
    assert_eq!(fmt_bytes(1023), "1023 B");
    assert_eq!(fmt_bytes(1024), "1 KB");
    assert_eq!(fmt_bytes(1024 * 1024), "1.0 MB");
    assert_eq!(fmt_bytes(1024 * 1024 * 1024), "1.00 GB");
}

#[test]
fn dates_are_civil_and_utc() {
    assert_eq!(fmt_time(0), "1970-01-01 00:00");
    assert_eq!(fmt_time(951_782_400), "2000-02-29 00:00");
    assert_eq!(fmt_time(1_755_388_800), "2025-08-17 00:00");
}

#[test]
fn byte_counts_read_as_in_the_examples() {
    assert_eq!(fmt_bytes(710 * 1024), "710 KB");
    assert_eq!(fmt_bytes(1_468_006), "1.4 MB");
    assert_eq!(fmt_bytes(2_480_343_613), "2.31 GB");
    assert_eq!(fmt_bytes(u64::MAX), "17179869184.00 GB");
}

#[test]
fn halves_round_to_the_even_digit() {
    // 1.5 KB and 2.5 KB: both ties, one up and one down.
    assert_eq!(fmt_bytes(1536), "2 KB");
    assert_eq!(fmt_bytes(2560), "2 KB");
    assert_eq!(fmt_bytes(3584), "4 KB");
    assert_eq!(fmt_bytes(1536), bytes_by_doubles(1536));
    assert_eq!(fmt_bytes(2560), bytes_by_doubles(2560));
}

#[test]
fn byte_counts_agree_with_doubles_everywhere_sampled() {
    let mut b: u64 = 0;
    while b < 5000 {
        assert_eq!(fmt_bytes(b), bytes_by_doubles(b), "at {b}");
        b += 1;
    }
    let mut k: u64 = 1;
    while k < 200_000 {
        for x in [k * 512, k * 1024 + 511, k * 52_429, k * 52_428 + 1, k * 10_737_418, k * 5_368_709_120] {
            assert_eq!(fmt_bytes(x), bytes_by_doubles(x), "at {x}");
        }
        k = k * 3 + 1;
    }
    for shift in 0..64 {
        for delta in [0u64, 1, 2, 3, 1023, 1024, 2047] {
            let x = (1u64 << shift).wrapping_add(delta);
            assert_eq!(fmt_bytes(x), bytes_by_doubles(x), "at {x}");
            let y = (1u64 << shift).wrapping_sub(delta);
            assert_eq!(fmt_bytes(y), bytes_by_doubles(y), "at {y}");
        }
    }
    for x in [u64::MAX, u64::MAX - 1, (1 << 53) + 1, (1 << 54) + 3, 9_007_199_254_740_993] {
        assert_eq!(fmt_bytes(x), bytes_by_doubles(x), "at {x}");
    }
}

#[test]
fn minutes_and_hours_are_padded() {
    assert_eq!(fmt_time(59), "1970-01-01 00:00");
    assert_eq!(fmt_time(61), "1970-01-01 00:01");
    assert_eq!(fmt_time(86_399), "1970-01-01 23:59");
    assert_eq!(fmt_time(86_400), "1970-01-02 00:00");
    assert_eq!(fmt_time(2_147_483_647), "2038-01-19 03:14");
}

#[test]
fn century_rules_hold() {
    // 2100 is not a leap year; 2400 is.
    assert_eq!(fmt_time(4_107_456_000), "2100-02-28 00:00");
    assert_eq!(fmt_time(4_107_542_400), "2100-03-01 00:00");
    assert_eq!(fmt_time(13_574_563_200), "2400-02-29 00:00");
    assert_eq!(fmt_time(946_684_800), "2000-01-01 00:00");
    assert_eq!(fmt_time(1_709_164_800), "2024-02-29 00:00");
}

#[test]
fn dates_agree_with_signed_arithmetic() {
    let mut s: u64 = 0;
    while s < 400 * 366 * 86_400 {
        assert_eq!(fmt_time(s), time_by_hinnant(s), "at {s}");
        s += 86_400 * 7 + 3_607;
    }
    for s in [u64::MAX, u64::MAX / 2, 253_402_300_799, 253_402_300_800] {
        assert_eq!(fmt_time(s), time_by_hinnant(s), "at {s}");
    }
}
