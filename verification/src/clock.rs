//! UTC timestamps in RFC 3339 form (`2026-01-31T09:05:00Z`), from seconds since the Unix
//! epoch, for the time an account was added.

use vstd::prelude::*;
use crate::text::{digit_char, string_of};

verus! {

/// A Gregorian leap year.
pub open spec fn is_leap(y: int) -> bool {
    (y % 4 == 0 && y % 100 != 0) || y % 400 == 0
}

/// The days of year `y`.
pub open spec fn year_days(y: int) -> int {
    if is_leap(y) {
        366
    } else {
        365
    }
}

/// The days of month `m` (1 to 12) of year `y`.
pub open spec fn month_days(y: int, m: int) -> int {
    if m == 2 {
        if is_leap(y) {
            29
        } else {
            28
        }
    } else if m == 4 || m == 6 || m == 9 || m == 11 {
        30
    } else {
        31
    }
}

/// The days from 1970-01-01 to the first day of year `y` (from 1970 on).
pub open spec fn days_before_year(y: int) -> int
    decreases y - 1970,
{
    if y <= 1970 {
        0
    } else {
        days_before_year(y - 1) + year_days(y - 1)
    }
}

/// The days from the first of year `y` to the first of month `m`.
pub open spec fn days_before_month(y: int, m: int) -> int
    decreases m,
{
    if m <= 1 {
        0
    } else {
        days_before_month(y, m - 1) + month_days(y, m - 1)
    }
}

/// Whether `(y, m, d)` is the date `days` days after 1970-01-01.
pub open spec fn is_date_of(days: int, y: int, m: int, d: int) -> bool {
    &&& y >= 1970
    &&& 1 <= m <= 12
    &&& 1 <= d <= month_days(y, m)
    &&& days == days_before_year(y) + days_before_month(y, m) + d - 1
}

fn year_len(y: u64) -> (r: u64)
    ensures
        r == year_days(y as int),
{
    if (y % 4 == 0 && y % 100 != 0) || y % 400 == 0 {
        366
    } else {
        365
    }
}

fn month_len(y: u64, m: u64) -> (r: u64)
    ensures
        r == month_days(y as int, m as int),
{
    if m == 2 {
        if (y % 4 == 0 && y % 100 != 0) || y % 400 == 0 {
            29
        } else {
            28
        }
    } else if m == 4 || m == 6 || m == 9 || m == 11 {
        30
    } else {
        31
    }
}

proof fn lemma_days_before_december(y: int)
    ensures
        days_before_month(y, 12) == year_days(y) - 31,
{
    reveal_with_fuel(days_before_month, 12);
}

/// The calendar date `days` days after 1970-01-01.
pub fn civil_date(days: u64) -> (r: (u64, u64, u64))
    ensures
        is_date_of(days as int, r.0 as int, r.1 as int, r.2 as int),
{
    let mut y: u64 = 1970;
    let mut left: u64 = days;
    while left >= year_len(y)
        invariant
            1970 <= y,
            365 * (y - 1970) <= days_before_year(y as int),
            left as int + days_before_year(y as int) == days as int,
        decreases left,
    {
        let len = year_len(y);
        left = left - len;
        assert(days_before_year(y + 1) == days_before_year(y as int) + year_days(y as int));
        y = y + 1;
    }
    let mut m: u64 = 1;
    while m < 12 && left >= month_len(y, m)
        invariant
            1970 <= y,
            1 <= m <= 12,
            left as int + days_before_month(y as int, m as int) + days_before_year(y as int)
                == days as int,
            left < year_days(y as int) - days_before_month(y as int, m as int),
        decreases 12 - m,
    {
        let len = month_len(y, m);
        left = left - len;
        m = m + 1;
    }
    proof {
        lemma_days_before_december(y as int);
    }
    (y, m, left + 1)
}

/// The decimal digits of `n`, zero-padded to at least `width`.
pub open spec fn padded(n: nat, width: nat) -> Seq<char>
    decreases width, n,
{
    if n < 10 && width <= 1 {
        seq![digit_char(n as int)]
    } else {
        padded(n / 10, if width > 0 { (width - 1) as nat } else { 0 }) + seq![
            digit_char((n % 10) as int),
        ]
    }
}

fn digit(d: u64) -> (c: char)
    requires
        d < 10,
    ensures
        c == digit_char(d as int),
{
    if d == 0 { '0' }
    else if d == 1 { '1' }
    else if d == 2 { '2' }
    else if d == 3 { '3' }
    else if d == 4 { '4' }
    else if d == 5 { '5' }
    else if d == 6 { '6' }
    else if d == 7 { '7' }
    else if d == 8 { '8' }
    else { '9' }
}

fn push_padded(out: &mut Vec<char>, n: u64, width: u64)
    ensures
        final(out)@ == old(out)@ + padded(n as nat, width as nat),
    decreases width, n,
{
    if n < 10 && width <= 1 {
        out.push(digit(n));
    } else {
        push_padded(out, n / 10, if width > 0 { width - 1 } else { 0 });
        out.push(digit(n % 10));
    }
}

/// The RFC 3339 UTC text of a moment `secs` seconds after the epoch:
/// `YYYY-MM-DDTHH:MM:SSZ`.
pub open spec fn timestamp_text(y: int, m: int, d: int, secs: int) -> Seq<char> {
    let s = secs % 86400;
    padded(y as nat, 4) + seq!['-'] + padded(m as nat, 2) + seq!['-'] + padded(d as nat, 2)
        + seq!['T'] + padded((s / 3600) as nat, 2) + seq![':'] + padded(((s % 3600) / 60) as nat, 2)
        + seq![':'] + padded((s % 60) as nat, 2) + seq!['Z']
}

/// The RFC 3339 UTC timestamp of `secs` seconds after the epoch.
pub fn timestamp(secs: u64) -> (r: String)
    ensures
        exists|y: int, m: int, d: int|
            is_date_of(secs as int / 86400, y, m, d) && r@ == timestamp_text(y, m, d, secs as int),
{
    let (y, m, d) = civil_date(secs / 86400);
    let s = secs % 86400;
    let mut out: Vec<char> = Vec::new();
    push_padded(&mut out, y, 4);
    out.push('-');
    push_padded(&mut out, m, 2);
    out.push('-');
    push_padded(&mut out, d, 2);
    out.push('T');
    push_padded(&mut out, s / 3600, 2);
    out.push(':');
    push_padded(&mut out, (s % 3600) / 60, 2);
    out.push(':');
    push_padded(&mut out, s % 60, 2);
    out.push('Z');
    let r = string_of(out.as_slice());
    assert(r@ == timestamp_text(y as int, m as int, d as int, secs as int));
    r
}

} // verus!
