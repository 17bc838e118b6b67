//! Calendar arithmetic: the date a day count since 1970-01-01 falls on, the
//! `YYYY-MM-DD` form used to name the log files, and the rough local
//! timestamp recorded in the sleep log.
use vstd::prelude::*;
use crate::text::{dec_pad, push_char, push_padded, push_signed_padded, signed_pad};

verus! {

/// Gregorian leap-year rule.
pub open spec fn is_leap(y: int) -> bool {
    (y % 4 == 0 && y % 100 != 0) || y % 400 == 0
}

/// Days in year `y`.
pub open spec fn year_len(y: int) -> nat {
    if is_leap(y) {
        366
    } else {
        365
    }
}

/// Days in month `m` (1 to 12) of year `y`.
pub open spec fn month_len(y: int, m: int) -> nat {
    if m == 2 {
        if is_leap(y) {
            29
        } else {
            28
        }
    } else if m == 4 || m == 6 || m == 9 || m == 11 {
        30
    } else {
        31
    }
}

/// Days from 1970-01-01 to the first day of year `y`.
pub open spec fn days_before_year(y: int) -> nat
    decreases y - 1970,
{
    if y <= 1970 {
        0
    } else {
        days_before_year(y - 1) + year_len(y - 1)
    }
}

/// Days from the first day of year `y` to the first day of month `m` of it.
pub open spec fn days_before_month(y: int, m: int) -> nat
    decreases m,
{
    if m <= 1 {
        0
    } else {
        days_before_month(y, m - 1) + month_len(y, m - 1)
    }
}

/// A date of the Gregorian calendar on or after 1970-01-01.
pub open spec fn is_valid_date(y: int, m: int, d: int) -> bool {
    y >= 1970 && 1 <= m <= 12 && 1 <= d <= month_len(y, m)
}

/// Days from 1970-01-01 to the given date.
pub open spec fn days_from_civil(y: int, m: int, d: int) -> int {
    days_before_year(y) + days_before_month(y, m) + d - 1
}

/// The twelve months fill the year.
pub proof fn lemma_months_fill_year(y: int)
    ensures
        days_before_month(y, 13) == year_len(y),
{
    reveal_with_fuel(days_before_month, 13);
}

/// Earlier months start earlier in the year.
pub proof fn lemma_days_before_month_monotone(y: int, a: int, b: int)
    requires
        a <= b,
    ensures
        days_before_month(y, a) <= days_before_month(y, b),
    decreases b - a,
{
    if a < b {
        lemma_days_before_month_monotone(y, a, b - 1);
    }
}

/// Earlier years start earlier.
pub proof fn lemma_days_before_year_monotone(a: int, b: int)
    requires
        a <= b,
    ensures
        days_before_year(a) <= days_before_year(b),
    decreases b - a,
{
    if a < b {
        lemma_days_before_year_monotone(a, b - 1);
    }
}

/// A valid date lies within its year.
pub proof fn lemma_date_within_year(y: int, m: int, d: int)
    requires
        is_valid_date(y, m, d),
    ensures
        days_before_month(y, m) + d <= year_len(y),
{
    lemma_days_before_month_monotone(y, m + 1, 13);
    lemma_months_fill_year(y);
}

/// Each day count names at most one calendar date: two valid dates with the
/// same number of days since 1970-01-01 are the same date.
pub proof fn lemma_days_from_civil_injective(y1: int, m1: int, d1: int, y2: int, m2: int, d2: int)
    requires
        is_valid_date(y1, m1, d1),
        is_valid_date(y2, m2, d2),
        days_from_civil(y1, m1, d1) == days_from_civil(y2, m2, d2),
    ensures
        y1 == y2 && m1 == m2 && d1 == d2,
{
    lemma_date_within_year(y1, m1, d1);
    lemma_date_within_year(y2, m2, d2);
    if y1 < y2 {
        lemma_days_before_year_monotone(y1 + 1, y2);
        assert(false);
    } else if y2 < y1 {
        lemma_days_before_year_monotone(y2 + 1, y1);
        assert(false);
    }
    if m1 < m2 {
        lemma_days_before_month_monotone(y1, m1 + 1, m2);
        assert(false);
    } else if m2 < m1 {
        lemma_days_before_month_monotone(y1, m2 + 1, m1);
        assert(false);
    }
}

fn is_leap_year(y: u64) -> (r: bool)
    ensures
        r == is_leap(y as int),
{
    (y % 4 == 0 && y % 100 != 0) || y % 400 == 0
}

fn days_of_month(y: u64, m: u64) -> (r: u64)
    requires
        1 <= m <= 12,
    ensures
        r == month_len(y as int, m as int),
{
    if m == 2 {
        if is_leap_year(y) {
            29
        } else {
            28
        }
    } else if m == 4 || m == 6 || m == 9 || m == 11 {
        30
    } else {
        31
    }
}

/// The calendar date that falls `days` days after 1970-01-01, as
/// (year, month, day) with months and days counted from one.
pub fn civil_from_days(days: u64) -> (r: (u64, u64, u64))
    ensures
        is_valid_date(r.0 as int, r.1 as int, r.2 as int),
        days_from_civil(r.0 as int, r.1 as int, r.2 as int) == days,
{
    let mut y: u64 = 1970;
    let mut d: u64 = days;
    loop
        invariant
            1970 <= y,
            d <= days,
            365 * (y - 1970) <= days - d,
            days == days_before_year(y as int) + d,
        ensures
            1970 <= y,
            d < year_len(y as int),
            days == days_before_year(y as int) + d,
        decreases d,
    {
        let year_days: u64 = if is_leap_year(y) {
            366
        } else {
            365
        };
        if d < year_days {
            break;
        }
        d -= year_days;
        y += 1;
    }
    let ghost in_year = d;
    let mut m: u64 = 1;
    while m <= 12
        invariant
            1 <= m <= 13,
            in_year < year_len(y as int),
            in_year == days_before_month(y as int, m as int) + d,
        ensures
            1 <= m <= 13,
            in_year == days_before_month(y as int, m as int) + d,
            m <= 12 ==> d < month_len(y as int, m as int),
        decreases 13 - m,
    {
        let md = days_of_month(y, m);
        if d < md {
            break;
        }
        d -= md;
        m += 1;
    }
    proof {
        if m == 13 {
            lemma_months_fill_year(y as int);
            assert(false);
        }
    }
    (y, m, d + 1)
}

/// `YYYY-MM-DD` of a valid date.
pub open spec fn date_text(y: nat, m: nat, d: nat) -> Seq<char> {
    dec_pad(y, 4) + seq!['-'] + dec_pad(m, 2) + seq!['-'] + dec_pad(d, 2)
}

/// The `YYYY-MM-DD` (UTC) of the day that `secs` seconds after the epoch fall on.
pub fn date_of_secs(secs: u64) -> (r: String)
    ensures
        exists|y: nat, m: nat, d: nat|
            is_valid_date(y as int, m as int, d as int) && days_from_civil(y as int, m as int, d as int)
                == secs / 86400 && r@ == date_text(y, m, d),
{
    let (y, m, d) = civil_from_days(secs / 86400);
    let mut s = String::new();
    push_padded(&mut s, y as u128, 10, 4);
    push_char(&mut s, '-');
    push_padded(&mut s, m as u128, 10, 2);
    push_char(&mut s, '-');
    push_padded(&mut s, d as u128, 10, 2);
    assert(s@ == date_text(y as nat, m as nat, d as nat));
    s
}

/// Today's date (UTC) as `YYYY-MM-DD`, the suffix of the day's log files.
pub fn today_str() -> (r: String)
    ensures
        exists|y: nat, m: nat, d: nat| is_valid_date(y as int, m as int, d as int) && r@ == date_text(y, m, d),
{
    let c = crate::clock::read_clock();
    date_of_secs(c.secs)
}

/// Integer division rounding toward zero, as Rust's `/` on signed integers.
pub open spec fn tdiv(a: int, b: int) -> int {
    if a >= 0 {
        a / b
    } else {
        -((-a) / b)
    }
}

/// The remainder that goes with [`tdiv`], as Rust's `%` on signed integers.
pub open spec fn trem(a: int, b: int) -> int {
    a - b * tdiv(a, b)
}

/// The signed 64-bit integer whose two's-complement bits are those of `x`
/// taken modulo 2^64.
pub open spec fn wrap_i64(x: int) -> int {
    let u = x % 0x1_0000_0000_0000_0000;
    if u < 0x8000_0000_0000_0000 {
        u
    } else {
        u - 0x1_0000_0000_0000_0000
    }
}

/// `v` brought into `lo..=hi` (`.min(hi).max(lo)`).
pub open spec fn clamp(v: int, lo: int, hi: int) -> int {
    if v > hi {
        hi
    } else if v < lo {
        lo
    } else {
        v
    }
}

/// The sleep log's rough `YYYY-MM-DD HH:MM:SS` in UTC+8 for `secs` seconds
/// after the epoch: the year is the day count divided by 365.25 (written here
/// exactly as `4 * days / 1461`), the month and day are taken from thirty-day
/// blocks of the day within a 365-day year and clamped to `1..=12` and
/// `1..=31`. Arithmetic wraps as in a release build.
pub open spec fn iso_text(secs: nat) -> Seq<char> {
    let s = wrap_i64(secs as int + 28800);
    let d = tdiv(s, 86400);
    let year = 1970 + tdiv(4 * d, 1461);
    let month = clamp(1 + tdiv(trem(d, 365), 30), 1, 12);
    let day = clamp(1 + trem(trem(d, 365), 30), 1, 31);
    signed_pad(year, 4) + seq!['-'] + signed_pad(month, 2) + seq!['-'] + signed_pad(day, 2) + seq![' ']
        + signed_pad(trem(tdiv(s, 3600), 24), 2) + seq![':'] + signed_pad(trem(tdiv(s, 60), 60), 2)
        + seq![':'] + signed_pad(trem(s, 60), 2)
}

fn quot(a: i64, b: i64) -> (r: i64)
    requires
        b > 0,
    ensures
        r == tdiv(a as int, b as int),
{
    a / b
}

fn rem(a: i64, b: i64) -> (r: i64)
    requires
        b > 0,
    ensures
        r == trem(a as int, b as int),
{
    let q = quot(a, b);
    proof {
        let ai = a as int;
        let bi = b as int;
        let qi = q as int;
        if ai >= 0 {
            assert(0 <= bi * qi <= ai) by (nonlinear_arith)
                requires
                    ai >= 0,
                    bi > 0,
                    qi == ai / bi,
            ;
        } else {
            assert(ai <= bi * qi <= 0) by (nonlinear_arith)
                requires
                    ai < 0,
                    bi > 0,
                    qi == -((-ai) / bi),
            ;
        }
    }
    a - b * q
}

fn clamp_exec(v: i64, lo: i64, hi: i64) -> (r: i64)
    ensures
        r == clamp(v as int, lo as int, hi as int),
{
    if v > hi {
        hi
    } else if v < lo {
        lo
    } else {
        v
    }
}

fn wrapped_local_secs(secs: u64) -> (s: i64)
    ensures
        s == wrap_i64(secs as int + 28800),
{
    let t: u64 = secs.wrapping_add(28800);
    if t <= 0x7fff_ffff_ffff_ffffu64 {
        t as i64
    } else {
        let low: i64 = (t - 0x8000_0000_0000_0000u64) as i64;
        low + i64::MIN
    }
}

/// Formats `secs` seconds after the epoch as [`iso_text`] describes.
pub fn iso_timestamp(secs: u64) -> (r: String)
    ensures
        r@ == iso_text(secs as nat),
{
    let s = wrapped_local_secs(secs);
    let h = rem(quot(s, 3600), 24);
    let m = rem(quot(s, 60), 60);
    let sec = rem(s, 60);
    let d = quot(s, 86400);
    assert(-200_000_000_000_000 < d < 200_000_000_000_000);
    let year = 1970 + quot(4 * d, 1461);
    let month = clamp_exec(1 + quot(rem(d, 365), 30), 1, 12);
    let day = clamp_exec(1 + rem(rem(d, 365), 30), 1, 31);
    let mut out = String::new();
    push_signed_padded(&mut out, year, 4);
    push_char(&mut out, '-');
    push_signed_padded(&mut out, month, 2);
    push_char(&mut out, '-');
    push_signed_padded(&mut out, day, 2);
    push_char(&mut out, ' ');
    push_signed_padded(&mut out, h, 2);
    push_char(&mut out, ':');
    push_signed_padded(&mut out, m, 2);
    push_char(&mut out, ':');
    push_signed_padded(&mut out, sec, 2);
    out
}

/// The current time as the sleep log's rough local timestamp.
pub fn now_iso() -> (r: String)
    ensures
        exists|secs: u64| r@ == iso_text(secs as nat),
{
    let c = crate::clock::read_clock();
    iso_timestamp(c.secs)
}

} // verus!
