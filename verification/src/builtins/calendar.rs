//! Civil time: Unix seconds to a proleptic Gregorian UTC date and
//! time of day (days-to-civil conversion), and the ISO-8601 timestamp
//! memory records carry.

use vstd::prelude::*;
use crate::text::{decimal, decimal_string};
use crate::builtins::session::now_ms;
use vstd::arithmetic::div_mod::lemma_mod_multiples_vanish;

verus! {

/// Year, month (1-12) and day of month of the civil date `days` days
/// after 1970-01-01 (the days-to-civil conversion over 400-year eras
/// of 146 097 days, with years starting on 1 March).
pub open spec fn civil_from_days(days: int) -> (int, int, int) {
    let z = days + 719_468;
    let era = z / 146_097;
    let doe = z - era * 146_097;
    let yoe = (doe - doe / 1460 + doe / 36_524 - doe / 146_096) / 365;
    let y = yoe + era * 400;
    let doy = doe - (365 * yoe + yoe / 4 - yoe / 100);
    let mp = (5 * doy + 2) / 153;
    let d = doy - (153 * mp + 2) / 5 + 1;
    let m = if mp < 10 {
        mp + 3
    } else {
        mp - 9
    };
    (if m <= 2 {
        y + 1
    } else {
        y
    }, m, d)
}

/// `secs` Unix seconds as (year, month, day, hour, minute, second).
pub open spec fn ymdhms(secs: int) -> (i32, u32, u32, u32, u32, u32) {
    let days = secs / 86_400;
    let s = secs % 86_400;
    let (y, m, d) = civil_from_days(days);
    (y as i32, m as u32, d as u32, (s / 3600) as u32, ((s / 60) % 60) as u32, (s % 60) as u32)
}

/// `a / n` rounded towards negative infinity.
fn floor_div(a: i64, n: i64) -> (q: i64)
    requires
        n > 0,
        a > i64::MIN,
    ensures
        q == a as int / n as int,
{
    if a >= 0 {
        a / n
    } else {
        let b = -(a + 1);
        let t = b / n;
        assert(a as int / n as int == -(t as int) - 1) by (nonlinear_arith)
            requires
                b == -(a + 1),
                t == b / n,
                n > 0,
                b >= 0,
        {
            let r = b % n;
            assert(b == t * n + r);
            assert(a == (-t - 1) * n + (n - r - 1));
            assert(0 <= n - r - 1 < n);
        }
        -t - 1
    }
}

/// Unix seconds to (year, month, day, hour, minute, second), UTC.
pub fn epoch_to_ymdhms(secs: i64) -> (r: (i32, u32, u32, u32, u32, u32))
    ensures
        r == ymdhms(secs as int),
        r.3 < 24,
        r.4 < 60,
        r.5 < 60,
{
    let days = if secs > i64::MIN {
        floor_div(secs, 86_400)
    } else {
        floor_div(secs + 86_400, 86_400) - 1
    };
    let wide: i128 = secs as i128 - (days as i128) * 86_400;
    proof {
        if secs == i64::MIN {
            assert((secs + 86_400) as int / 86_400 == secs as int / 86_400 + 1) by (nonlinear_arith);
        }
        assert(wide == secs as int % 86_400) by (nonlinear_arith)
            requires
                days == secs as int / 86_400,
                wide == secs - days * 86_400;
    }
    let s_of_day = wide as i64;
    let hour = (s_of_day / 3600) as u32;
    let min = ((s_of_day / 60) % 60) as u32;
    let sec = (s_of_day % 60) as u32;
    let z = days + 719_468;
    let era = floor_div(z, 146_097);
    let doe = z - era * 146_097;
    proof {
        assert(0 <= doe < 146_097) by (nonlinear_arith)
            requires
                era == z as int / 146_097,
                doe == z - era * 146_097;
    }
    let yoe = (doe - doe / 1460 + doe / 36_524 - doe / 146_096) / 365;
    let y = yoe + era * 400;
    let doy = doe - (365 * yoe + yoe / 4 - yoe / 100);
    let mp = floor_div(5 * doy + 2, 153);
    let d = doy - floor_div(153 * mp + 2, 5) + 1;
    let m = if mp < 10 {
        mp + 3
    } else {
        mp - 9
    };
    let year = if m <= 2 {
        y + 1
    } else {
        y
    };
    (year as i32, m as u32, d as u32, hour, min, sec)
}


/// `s` left-padded with zeros to `w` characters.
pub open spec fn zero_pad(s: Seq<char>, w: nat) -> Seq<char> {
    if s.len() >= w {
        s
    } else {
        Seq::new((w - s.len()) as nat, |i: int| '0') + s
    }
}

/// `n` in decimal, zero-padded to `w` characters, the sign counting
/// towards the width.
pub open spec fn signed_pad(n: int, w: nat) -> Seq<char> {
    if n < 0 {
        "-"@ + zero_pad(decimal((-n) as nat), (w - 1) as nat)
    } else {
        zero_pad(decimal(n as nat), w)
    }
}

/// The ISO-8601 UTC timestamp, to the millisecond, of `ms`
/// milliseconds after the Unix epoch.
pub open spec fn iso8601_text(ms: u64) -> Seq<char> {
    let (y, mo, d, h, mi, s) = ymdhms((ms / 1000) as int);
    signed_pad(y as int, 4) + "-"@ + zero_pad(decimal(mo as nat), 2) + "-"@ + zero_pad(
        decimal(d as nat),
        2,
    ) + "T"@ + zero_pad(decimal(h as nat), 2) + ":"@ + zero_pad(decimal(mi as nat), 2) + ":"@
        + zero_pad(decimal(s as nat), 2) + "."@ + zero_pad(decimal((ms % 1000) as nat), 3) + "Z"@
}

/// Append `n` in decimal, zero-padded to `w` characters.
fn push_padded(out: &mut String, n: u64, w: usize)
    ensures
        final(out)@ == old(out)@ + zero_pad(decimal(n as nat), w as nat),
{
    let d = decimal_string(n);
    let len = d.as_str().unicode_len();
    let ghost o = out@;
    if len < w {
        let mut k: usize = 0;
        while k < w - len
            invariant
                k <= w - len,
                len == d@.len(),
                len < w,
                out@ == o + Seq::new(k as nat, |i: int| '0'),
            decreases w - len - k,
        {
            out.append("0");
            proof {
                reveal_strlit("0");
                assert(out@ =~= o + Seq::new((k + 1) as nat, |i: int| '0'));
            }
            k = k + 1;
        }
    }
    out.append(d.as_str());
    proof {
        assert(out@ =~= o + zero_pad(decimal(n as nat), w as nat));
    }
}

/// The ISO-8601 UTC timestamp of `ms` milliseconds after the epoch:
/// `YYYY-MM-DDTHH:MM:SS.mmmZ`.
pub fn iso8601(ms: u64) -> (r: String)
    ensures
        r@ == iso8601_text(ms),
{
    let secs = (ms / 1000) as i64;
    let frac = ms % 1000;
    let (y, mo, d, h, mi, s) = epoch_to_ymdhms(secs);
    let mut out = String::new();
    if y < 0 {
        out.append("-");
        let a: i64 = -(y as i64);
        push_padded(&mut out, a as u64, 3);
    } else {
        push_padded(&mut out, y as u64, 4);
    }
    out.append("-");
    push_padded(&mut out, mo as u64, 2);
    out.append("-");
    push_padded(&mut out, d as u64, 2);
    out.append("T");
    push_padded(&mut out, h as u64, 2);
    out.append(":");
    push_padded(&mut out, mi as u64, 2);
    out.append(":");
    push_padded(&mut out, s as u64, 2);
    out.append(".");
    push_padded(&mut out, frac, 3);
    out.append("Z");
    proof {
        assert(out@ =~= iso8601_text(ms));
    }
    out
}

/// The current time as an ISO-8601 UTC timestamp.
pub fn now_iso8601() -> (r: String)
    ensures
        exists|ms: u64| r@ == iso8601_text(ms),
{
    let ms = now_ms();
    iso8601(ms)
}

/// A leap year of the proleptic Gregorian calendar.
pub open spec fn is_leap(y: int) -> bool {
    y % 4 == 0 && (y % 100 != 0 || y % 400 == 0)
}

/// The number of days of month `m` of year `y`.
pub open spec fn days_in_month(y: int, m: int) -> int {
    if m == 2 {
        if is_leap(y) { 29 } else { 28 }
    } else if m == 4 || m == 6 || m == 9 || m == 11 {
        30
    } else {
        31
    }
}

/// The calendar date after the date `c` (year, month, day).
pub open spec fn next_date(c: (int, int, int)) -> (int, int, int) {
    if c.2 < days_in_month(c.0, c.1) {
        (c.0, c.1, c.2 + 1)
    } else if c.1 < 12 {
        (c.0, c.1 + 1, 1)
    } else {
        (c.0 + 1, 1, 1)
    }
}

/// `c` (year, month, day) is a date of the calendar.
pub open spec fn valid_date(c: (int, int, int)) -> bool {
    1 <= c.1 <= 12 && 1 <= c.2 <= days_in_month(c.0, c.1)
}

/// The year of its era (years starting on 1 March) that day `doe` of
/// a 400-year era falls in.
spec fn yoe_of(doe: int) -> int {
    (doe - doe / 1460 + doe / 36_524 - doe / 146_096) / 365
}

/// Days of an era before its year `y`, leaving out the era's last
/// leap day.
spec fn ylen(y: int) -> int {
    365 * y + y / 4 - y / 100
}

proof fn claim_a(doe: int)
    requires
        0 <= doe <= 146_096,
    ensures
        0 <= yoe_of(doe) <= 399,
        0 <= doe - ylen(yoe_of(doe)) <= 365,
        doe - ylen(yoe_of(doe)) == 365 ==> is_leap(yoe_of(doe) + 1),
{
}

proof fn claim_b(doe: int)
    requires
        0 <= doe < 146_096,
    ensures
        ({
            let y = yoe_of(doe);
            let doy = doe - ylen(y);
            if doy < 364 || (doy == 364 && is_leap(y + 1)) {
                yoe_of(doe + 1) == y
            } else {
                yoe_of(doe + 1) == y + 1 && doe + 1 == ylen(y + 1)
            }
        }),
{
    claim_a(doe);
    claim_a(doe + 1);
}

proof fn next_in_era(doe: int)
    requires
        0 <= doe < 146_096,
    ensures
        civil_from_days(doe + 1 - 719_468) == next_date(civil_from_days(doe - 719_468)),
{
    claim_a(doe);
    claim_a(doe + 1);
    claim_b(doe);
    assert((doe - 719_468 + 719_468) / 146_097 == 0);
    assert((doe + 1 - 719_468 + 719_468) / 146_097 == 0);
}

proof fn valid_in_era(doe: int)
    requires
        0 <= doe <= 146_096,
    ensures
        valid_date(civil_from_days(doe - 719_468)),
{
    claim_a(doe);
    assert((doe - 719_468 + 719_468) / 146_097 == 0);
}

proof fn lemma_leap_shift(y: int, k: int)
    ensures
        is_leap(y + 400 * k) == is_leap(y),
{
    lemma_mod_multiples_vanish(100 * k, y, 4);
    lemma_mod_multiples_vanish(4 * k, y, 100);
    lemma_mod_multiples_vanish(k, y, 400);
    assert(4 * (100 * k) + y == y + 400 * k) by (nonlinear_arith);
    assert(100 * (4 * k) + y == y + 400 * k) by (nonlinear_arith);
    assert(400 * k + y == y + 400 * k);
}

proof fn lemma_era_shift(days: int)
    ensures
        ({
            let z = days + 719_468;
            let era = z / 146_097;
            let doe = z - era * 146_097;
            &&& 0 <= doe < 146_097
            &&& civil_from_days(days) == (civil_from_days(doe - 719_468).0 + 400 * era, civil_from_days(
                doe - 719_468,
            ).1, civil_from_days(doe - 719_468).2)
        }),
{
    let z = days + 719_468;
    let era = z / 146_097;
    let doe = z - era * 146_097;
    assert(0 <= doe < 146_097) by (nonlinear_arith)
        requires
            era == z / 146_097,
            doe == z - era * 146_097;
    assert((doe - 719_468 + 719_468) / 146_097 == 0);
}

/// Every day is a valid calendar date: its month is 1 to 12 and its day
/// lies within that month of that year (February 29 only in leap years).
pub proof fn law_civil_date_valid(days: int)
    ensures
        valid_date(civil_from_days(days)),
{
    lemma_era_shift(days);
    let z = days + 719_468;
    let era = z / 146_097;
    let doe = z - era * 146_097;
    valid_in_era(doe);
    let c = civil_from_days(doe - 719_468);
    lemma_leap_shift(c.0, era);
}

/// The last day of an era (a leap day) and the first of the next.
proof fn lemma_era_boundary()
    ensures
        civil_from_days(146_096 - 719_468) == (400int, 2int, 29int),
        civil_from_days(-719_468) == (0int, 3int, 1int),
{
    claim_a(146_096);
    claim_a(0);
    assert((146_096 - 719_468 + 719_468) / 146_097 == 0);
}

/// The day after a day falls on the next calendar date.
#[verifier::spinoff_prover]
pub proof fn law_civil_next_day(days: int)
    ensures
        civil_from_days(days + 1) == next_date(civil_from_days(days)),
{
    lemma_era_shift(days);
    lemma_era_shift(days + 1);
    let z = days + 719_468;
    let era = z / 146_097;
    let doe = z - era * 146_097;
    let c = civil_from_days(doe - 719_468);
    lemma_leap_shift(c.0, era);
    if doe < 146_096 {
        next_in_era(doe);
        assert((z + 1) / 146_097 == era) by (nonlinear_arith)
            requires
                era == z / 146_097,
                doe == z - era * 146_097,
                doe < 146_096;
    } else {
        assert((z + 1) / 146_097 == era + 1) by (nonlinear_arith)
            requires
                era == z / 146_097,
                doe == z - era * 146_097,
                doe == 146_096;
        lemma_era_boundary();
        lemma_leap_shift(400, era);
        assert(is_leap(400 + 400 * era));
    }
}

/// A day's worth of seconds later, the date is the next calendar date.
pub proof fn law_day_after_in_seconds(secs: int)
    ensures
        civil_from_days((secs + 86_400) / 86_400) == next_date(civil_from_days(secs / 86_400)),
{
    assert((secs + 86_400) / 86_400 == secs / 86_400 + 1);
    law_civil_next_day(secs / 86_400);
}

/// Day 0 of the Unix epoch is 1970-01-01.
pub proof fn law_civil_epoch()
    ensures
        civil_from_days(0) == (1970int, 1int, 1int),
{
}

} // verus!
