//! Canonical UTC timestamps, `YYYY-MM-DDTHH:MM:SSZ`, computed from seconds
//! since the Unix epoch without a date library. The board stores them as
//! TEXT and orders claims by them, so their lexicographic order has to be
//! their time order.

use vstd::prelude::*;
use vstd::arithmetic::div_mod::lemma_fundamental_div_mod_converse;
use crate::text::{decimal, digit_char, lemma_lex_concat, lemma_lex_irreflexive, lex_lt, u64_to_padded_decimal, zero_pad};

verus! {

// ---------------------------------------------------------------------------
// The proleptic Gregorian calendar.
// ---------------------------------------------------------------------------

pub open spec fn is_leap(y: int) -> bool {
    y % 4 == 0 && (y % 100 != 0 || y % 400 == 0)
}

pub open spec fn year_length(y: int) -> int {
    if is_leap(y) { 366 } else { 365 }
}

pub open spec fn month_length(y: int, m: int) -> int {
    if m == 2 {
        if is_leap(y) { 29 } else { 28 }
    } else if m == 4 || m == 6 || m == 9 || m == 11 {
        30
    } else {
        31
    }
}

/// A day that exists in the calendar.
pub open spec fn valid_date(y: int, m: int, d: int) -> bool {
    1 <= m <= 12 && 1 <= d <= month_length(y, m)
}

/// Days from 1970-01-01 to January 1st of year `y` (negative before 1970).
pub open spec fn days_before_year(y: int) -> int
    decreases (if y >= 1970 { y - 1970 } else { 1970 - y }),
{
    if y == 1970 {
        0
    } else if y > 1970 {
        days_before_year(y - 1) + year_length(y - 1)
    } else {
        days_before_year(y + 1) - year_length(y)
    }
}

/// Days in year `y` before the first of month `m`.
pub open spec fn days_before_month(y: int, m: int) -> int
    decreases m,
{
    if m <= 1 {
        0
    } else {
        days_before_month(y, m - 1) + month_length(y, m - 1)
    }
}

/// The number of the day `y-m-d` counted from 1970-01-01 (day 0).
pub open spec fn epoch_day(y: int, m: int, d: int) -> int {
    days_before_year(y) + days_before_month(y, m) + d - 1
}

// ---------------------------------------------------------------------------
// Closed forms of the calendar sums.
// ---------------------------------------------------------------------------

/// Leap years among `1..=n` (for `n >= 0`; a signed count below that).
spec fn leaps_through(n: int) -> int {
    n / 4 - n / 100 + n / 400
}

proof fn lemma_floor_step(n: int, d: int)
    requires
        d > 0,
    ensures
        n / d - (n - 1) / d == (if n % d == 0 { 1int } else { 0int }),
{
    let q = (n - 1) / d;
    let r = (n - 1) % d;
    vstd::arithmetic::div_mod::lemma_fundamental_div_mod(n - 1, d);
    vstd::arithmetic::div_mod::lemma_mod_bound(n - 1, d);
    assert(n - 1 == q * d + r) by (nonlinear_arith)
        requires
            n - 1 == d * ((n - 1) / d) + (n - 1) % d,
            q == (n - 1) / d,
            r == (n - 1) % d,
    ;
    if r == d - 1 {
        assert(n == (q + 1) * d + 0) by (nonlinear_arith)
            requires
                n - 1 == q * d + r,
                r == d - 1,
        ;
        lemma_fundamental_div_mod_converse(n, d, q + 1, 0);
    } else {
        lemma_fundamental_div_mod_converse(n, d, q, r + 1);
    }
}

proof fn lemma_leaps_step(n: int)
    ensures
        leaps_through(n) == leaps_through(n - 1) + (if is_leap(n) { 1int } else { 0int }),
{
    lemma_floor_step(n, 4);
    lemma_floor_step(n, 100);
    lemma_floor_step(n, 400);
    if n % 400 == 0 {
        lemma_fundamental_div_mod_converse(n, 100, 4 * (n / 400), 0);
        lemma_fundamental_div_mod_converse(n, 4, 100 * (n / 400), 0);
        vstd::arithmetic::div_mod::lemma_fundamental_div_mod(n, 400);
    } else if n % 100 == 0 {
        lemma_fundamental_div_mod_converse(n, 4, 25 * (n / 100), 0);
        vstd::arithmetic::div_mod::lemma_fundamental_div_mod(n, 100);
    }
}

proof fn lemma_days_before_year_succ(y: int)
    ensures
        days_before_year(y + 1) == days_before_year(y) + year_length(y),
{
    if y >= 1970 {
        assert(days_before_year(y + 1) == days_before_year(y) + year_length(y));
    } else {
        assert(days_before_year(y) == days_before_year(y + 1) - year_length(y));
    }
}

proof fn lemma_days_before_year_closed(y: int)
    ensures
        days_before_year(y) == 365 * (y - 1970) + leaps_through(y - 1) - 477,
    decreases (if y >= 1970 { y - 1970 } else { 1970 - y }),
{
    if y == 1970 {
        assert(leaps_through(1969) == 477);
    } else if y > 1970 {
        lemma_days_before_year_closed(y - 1);
        lemma_leaps_step(y - 1);
    } else {
        lemma_days_before_year_closed(y + 1);
        lemma_leaps_step(y);
    }
}

/// Days before March 1st in the year-from-March numbering, month `mp`
/// counted from March (0) to February (11).
spec fn march_days_before(mp: int) -> int {
    (153 * mp + 2) / 5
}

proof fn lemma_days_before_month_closed(y: int, m: int)
    requires
        1 <= m <= 12,
    ensures
        m >= 3 ==> days_before_month(y, m) == 59 + (if is_leap(y) { 1int } else { 0int })
            + march_days_before(m - 3),
        m <= 2 ==> days_before_month(y, m) == march_days_before(m + 9) - 306,
{
    reveal_with_fuel(days_before_month, 13);
    if m == 1 {
        assert(march_days_before(10) == 306);
    } else if m == 2 {
        assert(march_days_before(11) == 337);
    } else if m == 3 {
        assert(march_days_before(0) == 0);
    } else if m == 4 {
        assert(march_days_before(1) == 31);
    } else if m == 5 {
        assert(march_days_before(2) == 61);
    } else if m == 6 {
        assert(march_days_before(3) == 92);
    } else if m == 7 {
        assert(march_days_before(4) == 122);
    } else if m == 8 {
        assert(march_days_before(5) == 153);
    } else if m == 9 {
        assert(march_days_before(6) == 184);
    } else if m == 10 {
        assert(march_days_before(7) == 214);
    } else if m == 11 {
        assert(march_days_before(8) == 245);
    } else {
        assert(march_days_before(9) == 275);
    }
}

// ---------------------------------------------------------------------------
// The 400-year cycle, counted from March 1st.
// ---------------------------------------------------------------------------

/// Year of the cycle that holds day `doe` of a 146097-day cycle.
spec fn cycle_year(doe: int) -> int {
    (doe - doe / 1460 + doe / 36524 - doe / 146096) / 365
}

/// Day of that year, counted from March 1st.
spec fn cycle_year_day(doe: int) -> int {
    let yoe = cycle_year(doe);
    doe - (365 * yoe + yoe / 4 - yoe / 100)
}

/// A cycle splits into 400 March-based years of 365 days, the ones followed
/// by a leap February carrying a 366th day.
proof fn lemma_cycle_split(doe: int)
    requires
        0 <= doe <= 146096,
    ensures
        0 <= cycle_year(doe) <= 399,
        0 <= cycle_year_day(doe) <= 365,
        cycle_year_day(doe) == 365 ==> is_leap(cycle_year(doe) + 1),
{
    if doe == 146096 {
        assert(doe / 1460 == 100);
        assert(doe / 36524 == 4);
        assert(doe / 146096 == 1);
        assert(cycle_year(doe) == 399);
        assert(cycle_year_day(doe) == 365);
    } else {
        let c = doe / 36524;
        let r1 = doe % 36524;
        let q = r1 / 1461;
        let r2 = r1 % 1461;
        let yy: int = if r2 == 1460 { 3 } else { r2 / 365 };
        let s = 24 * c + q + r2;
        let t: int = if s >= 1460 { 1 } else { 0 };
        assert(0 <= c <= 3);
        assert(doe == 36524 * c + r1 && 0 <= r1 < 36524);
        assert(r1 == 1461 * q + r2 && 0 <= r2 < 1461);
        assert(0 <= q <= 24);
        assert(q == 24 ==> r2 <= 1459);
        assert(r2 < 1460 ==> r2 == 365 * yy + r2 % 365 && 0 <= r2 % 365 < 365);
        lemma_fundamental_div_mod_converse(doe, 1460, 25 * c + q + t, s - 1460 * t);
        lemma_fundamental_div_mod_converse(doe, 146096, 0, doe);
        let num = doe - doe / 1460 + doe / 36524 - doe / 146096;
        assert(num == 365 * (100 * c + 4 * q) + r2 - t);
        lemma_fundamental_div_mod_converse(num, 365, 100 * c + 4 * q + yy, r2 - t - 365 * yy);
        let yoe = 100 * c + 4 * q + yy;
        assert(cycle_year(doe) == yoe);
        lemma_fundamental_div_mod_converse(yoe, 4, 25 * c + q, yy);
        lemma_fundamental_div_mod_converse(yoe, 100, c, 4 * q + yy);
        assert(cycle_year_day(doe) == r2 - 365 * yy);
        if r2 == 1460 {
            lemma_fundamental_div_mod_converse(yoe + 1, 4, 25 * c + q + 1, 0);
            lemma_fundamental_div_mod_converse(yoe + 1, 100, c, 4 * q + 4);
        }
    }
}

/// The month of a March-based year that holds day `doy`, and the day in it.
proof fn lemma_march_month(doy: int)
    requires
        0 <= doy <= 365,
    ensures
        0 <= (5 * doy + 2) / 153 <= 11,
        march_days_before((5 * doy + 2) / 153) <= doy,
        doy < march_days_before((5 * doy + 2) / 153 + 1),
{
    let mp = (5 * doy + 2) / 153;
    vstd::arithmetic::div_mod::lemma_fundamental_div_mod(5 * doy + 2, 153);
    vstd::arithmetic::div_mod::lemma_mod_bound(5 * doy + 2, 153);
    assert(153 * mp <= 5 * doy + 2 < 153 * mp + 153);
    assert(0 <= mp <= 11);
    vstd::arithmetic::div_mod::lemma_fundamental_div_mod(153 * mp + 2, 5);
    vstd::arithmetic::div_mod::lemma_mod_bound(153 * mp + 2, 5);
    vstd::arithmetic::div_mod::lemma_fundamental_div_mod(153 * (mp + 1) + 2, 5);
    vstd::arithmetic::div_mod::lemma_mod_bound(153 * (mp + 1) + 2, 5);
}

} // verus!

verus! {

/// The day in year `y` of a valid date lies inside that year.
proof fn lemma_day_within_year(y: int, m: int, d: int)
    requires
        valid_date(y, m, d),
    ensures
        days_before_year(y) <= epoch_day(y, m, d) < days_before_year(y + 1),
{
    lemma_days_before_month_closed(y, m);
    lemma_days_before_year_succ(y);
    if m >= 3 {
        assert(march_days_before(m - 3) + month_length(y, m) <= 306) by {
            reveal_with_fuel(days_before_month, 1);
        }
    }
}

/// Later years start later.
proof fn lemma_days_before_year_increasing(a: int, b: int)
    requires
        a < b,
    ensures
        days_before_year(a) < days_before_year(b),
    decreases b - a,
{
    lemma_days_before_year_succ(a);
    if a + 1 < b {
        lemma_days_before_year_increasing(a + 1, b);
    }
}

/// Leap years repeat every 400 years.
proof fn lemma_leap_cycle(k: int, x: int)
    ensures
        is_leap(400 * k + x) == is_leap(x),
{
    vstd::arithmetic::div_mod::lemma_mod_multiples_vanish(100 * k, x, 4);
    vstd::arithmetic::div_mod::lemma_mod_multiples_vanish(4 * k, x, 100);
    vstd::arithmetic::div_mod::lemma_mod_multiples_vanish(k, x, 400);
    assert(4 * (100 * k) == 400 * k);
    assert(100 * (4 * k) == 400 * k);
}

/// The date the cycle arithmetic assigns to day `doe` of cycle `era` is a
/// real date, and it is that day.
proof fn lemma_cycle_date(era: int, doe: int)
    requires
        0 <= doe <= 146096,
    ensures
        ({
            let yoe = cycle_year(doe);
            let doy = cycle_year_day(doe);
            let mp = (5 * doy + 2) / 153;
            let day = doy - march_days_before(mp) + 1;
            let month = if mp < 10 { mp + 3 } else { mp - 9 };
            let y = 400 * era + yoe + (if month <= 2 { 1int } else { 0int });
            &&& 0 <= yoe <= 399
            &&& 0 <= doy <= 365
            &&& 0 <= mp <= 11
            &&& march_days_before(mp) <= doy
            &&& valid_date(y, month, day)
            &&& epoch_day(y, month, day) == 146097 * era + doe - 719468
        }),
{
    let yoe = cycle_year(doe);
    let doy = cycle_year_day(doe);
    lemma_cycle_split(doe);
    lemma_march_month(doy);
    let mp = (5 * doy + 2) / 153;
    let day = doy - march_days_before(mp) + 1;
    let month = if mp < 10 { mp + 3 } else { mp - 9 };
    let ym = 400 * era + yoe;
    let y = ym + (if month <= 2 { 1int } else { 0int });
    lemma_days_before_month_closed(y, month);
    lemma_days_before_year_closed(y);
    lemma_fundamental_div_mod_converse(ym, 4, 100 * era + yoe / 4, yoe % 4);
    lemma_fundamental_div_mod_converse(ym, 100, 4 * era + yoe / 100, yoe % 100);
    lemma_fundamental_div_mod_converse(ym, 400, era, yoe);
    assert(leaps_through(ym) == 97 * era + yoe / 4 - yoe / 100);
    if month <= 2 {
        if mp == 10 {
            assert(march_days_before(11) == 337);
            assert(march_days_before(10) == 306);
        } else {
            assert(march_days_before(11) == 337);
            lemma_leap_cycle(era, yoe + 1);
        }
    } else {
        lemma_leaps_step(ym);
        assert(march_days_before(mp + 1) - march_days_before(mp) == month_length(y, month)) by {
            if mp == 0 { assert(march_days_before(1) == 31); }
            else if mp == 1 { assert(march_days_before(1) == 31 && march_days_before(2) == 61); }
            else if mp == 2 { assert(march_days_before(2) == 61 && march_days_before(3) == 92); }
            else if mp == 3 { assert(march_days_before(3) == 92 && march_days_before(4) == 122); }
            else if mp == 4 { assert(march_days_before(4) == 122 && march_days_before(5) == 153); }
            else if mp == 5 { assert(march_days_before(5) == 153 && march_days_before(6) == 184); }
            else if mp == 6 { assert(march_days_before(6) == 184 && march_days_before(7) == 214); }
            else if mp == 7 { assert(march_days_before(7) == 214 && march_days_before(8) == 245); }
            else if mp == 8 { assert(march_days_before(8) == 245 && march_days_before(9) == 275); }
            else { assert(march_days_before(9) == 275 && march_days_before(10) == 306); }
        }
    }
}

/// Converts a day count since 1970-01-01 into the `(year, month, day)` that
/// carries it, by the 400-year-cycle arithmetic of `civil_from_days`.
fn civil_from_days(days: i64) -> (r: (i64, u32, u32))
    requires
        days <= i64::MAX - 719_468,
    ensures
        valid_date(r.0 as int, r.1 as int, r.2 as int),
        epoch_day(r.0 as int, r.1 as int, r.2 as int) == days,
{
    let z = days + 719_468;
    let era = (if z >= 0 { z } else { z - 146_096 }) / 146_097;
    proof {
        let q = z as int / 146_097;
        let r = z as int % 146_097;
        vstd::arithmetic::div_mod::lemma_fundamental_div_mod(z as int, 146_097);
        vstd::arithmetic::div_mod::lemma_mod_bound(z as int, 146_097);
        if z < 0 {
            lemma_fundamental_div_mod_converse(146_096 - z as int, 146_097, -q, 146_096 - r);
        }
        assert(era == q);
    }
    let doe = (z - era * 146_097) as u64;
    proof {
        lemma_cycle_date(era as int, doe as int);
    }
    let yoe = (doe - doe / 1_460 + doe / 36_524 - doe / 146_096) / 365;
    let year = yoe as i64 + era * 400;
    let doy = doe - (365 * yoe + yoe / 4 - yoe / 100);
    let mp = (5 * doy + 2) / 153;
    let day = (doy - (153 * mp + 2) / 5 + 1) as u32;
    let month = (if mp < 10 { mp + 3 } else { mp - 9 }) as u32;
    (if month <= 2 { year + 1 } else { year }, month, day)
}

// ---------------------------------------------------------------------------
// Timestamps.
// ---------------------------------------------------------------------------

/// `n` as two decimal digits.
pub open spec fn two_digits(n: int) -> Seq<char> {
    zero_pad(decimal(n as nat), 2)
}

/// `YYYY-MM-DDTHH:MM:SSZ` for the given fields.
pub open spec fn stamp_text(y: int, mo: int, d: int, h: int, mi: int, s: int) -> Seq<char> {
    zero_pad(decimal(y as nat), 4) + "-"@ + two_digits(mo) + "-"@ + two_digits(d) + "T"@
        + two_digits(h) + ":"@ + two_digits(mi) + ":"@ + two_digits(s) + "Z"@
}

/// `text` is the canonical UTC timestamp of the instant `secs` seconds after
/// 1970-01-01T00:00:00Z: the calendar date of its day, then its time of day.
pub open spec fn is_epoch_text(text: Seq<char>, secs: int) -> bool {
    let tod = secs % 86400;
    exists|y: int, m: int, d: int|
        #![trigger epoch_day(y, m, d)]
        valid_date(y, m, d) && epoch_day(y, m, d) == secs / 86400
            && text == stamp_text(y, m, d, tod / 3600, (tod % 3600) / 60, tod % 60)
}

/// Appends `n` rendered with at least `width` digits.
fn push_padded(out: &mut String, n: u64, width: usize)
    ensures
        final(out)@ == old(out)@ + zero_pad(decimal(n as nat), width as nat),
{
    let digits = u64_to_padded_decimal(n, width);
    out.append(digits.as_str());
}

/// Formats seconds since the Unix epoch as `YYYY-MM-DDTHH:MM:SSZ` (UTC).
pub fn format_epoch_secs(secs: u64) -> (r: String)
    ensures
        is_epoch_text(r@, secs as int),
{
    let days = (secs / 86_400) as i64;
    let time_of_day = secs % 86_400;
    let hour = time_of_day / 3_600;
    let minute = (time_of_day % 3_600) / 60;
    let second = time_of_day % 60;
    let (year, month, day) = civil_from_days(days);
    proof {
        if year < 1970 {
            lemma_day_within_year(year as int, month as int, day as int);
            if year + 1 < 1970 {
                lemma_days_before_year_increasing(year + 1, 1970);
            }
        }
    }
    let mut out = String::new();
    push_padded(&mut out, year as u64, 4);
    out.append("-");
    push_padded(&mut out, month as u64, 2);
    out.append("-");
    push_padded(&mut out, day as u64, 2);
    out.append("T");
    push_padded(&mut out, hour, 2);
    out.append(":");
    push_padded(&mut out, minute, 2);
    out.append(":");
    push_padded(&mut out, second, 2);
    out.append("Z");
    proof {
        let y = year as int;
        let m = month as int;
        let d = day as int;
        assert(out@ == stamp_text(y, m, d, hour as int, minute as int, second as int));
        assert(epoch_day(y, m, d) == secs / 86400);
    }
    out
}

// ---------------------------------------------------------------------------
// The wall clock.
// ---------------------------------------------------------------------------

#[verifier::external_type_specification]
#[verifier::external_body]
pub struct ExSystemTime(std::time::SystemTime);

/// `std::time::SystemTime::now`: the current wall-clock time. Nothing is
/// stated of it; it is whatever the clock says.
#[verifier::external_body]
fn system_now() -> std::time::SystemTime {
    std::time::SystemTime::now()
}

/// `SystemTime::duration_since(UNIX_EPOCH)`, `None` for a time before the
/// epoch. Nothing is stated of the duration.
#[verifier::external_body]
fn since_unix_epoch(t: &std::time::SystemTime) -> Option<std::time::Duration> {
    t.duration_since(std::time::UNIX_EPOCH).ok()
}

/// `Duration::as_secs`: the whole seconds of a duration.
#[verifier::external_body]
fn whole_seconds(d: &std::time::Duration) -> u64 {
    d.as_secs()
}

/// Wall-clock seconds since the Unix epoch; a clock set before 1970 reads
/// as the epoch itself rather than failing.
fn now_epoch_secs() -> u64 {
    match since_unix_epoch(&system_now()) {
        Some(elapsed) => whole_seconds(&elapsed),
        None => 0,
    }
}

/// Wall-clock "now" as a canonical UTC timestamp.
pub fn now_rfc3339() -> (r: String)
    ensures
        exists|secs: u64| is_epoch_text(r@, secs as int),
{
    let secs = now_epoch_secs();
    format_epoch_secs(secs)
}

// ---------------------------------------------------------------------------
// Timestamps sort in time order.
// ---------------------------------------------------------------------------

proof fn lemma_digit_code(d: int)
    requires
        0 <= d < 10,
    ensures
        digit_char(d as nat) as u32 == 48 + d,
{
}

/// Lexicographic order of a single digit character is numeric order.
proof fn lemma_digit_order(a: int, b: int)
    requires
        0 <= a < 10,
        0 <= b < 10,
    ensures
        lex_lt(seq![digit_char(a as nat)], seq![digit_char(b as nat)]) == (a < b),
        (seq![digit_char(a as nat)] == seq![digit_char(b as nat)]) == (a == b),
{
    lemma_digit_code(a);
    lemma_digit_code(b);
    reveal_with_fuel(lex_lt, 2);
    let sa = seq![digit_char(a as nat)];
    let sb = seq![digit_char(b as nat)];
    assert(sa.drop_first().len() == 0 && sb.drop_first().len() == 0);
    if a == b {
        lemma_lex_irreflexive(sa);
    } else {
        assert(sa[0] != sb[0]);
    }
}

proof fn lemma_two_digits_shape(n: int)
    requires
        0 <= n < 100,
    ensures
        two_digits(n) == seq![digit_char((n / 10) as nat)] + seq![digit_char((n % 10) as nat)],
{
    reveal_with_fuel(decimal, 2);
    if n < 10 {
        assert(two_digits(n) =~= seq![digit_char((n / 10) as nat)] + seq![digit_char((n % 10) as nat)]);
    } else {
        assert(decimal((n / 10) as nat) == seq![digit_char((n / 10) as nat)]);
        assert(two_digits(n) =~= seq![digit_char((n / 10) as nat)] + seq![digit_char((n % 10) as nat)]);
    }
}

proof fn lemma_four_digits_shape(n: int)
    requires
        0 <= n < 10000,
    ensures
        zero_pad(decimal(n as nat), 4) == seq![digit_char((n / 1000) as nat)]
            + (seq![digit_char((n / 100 % 10) as nat)]
            + (seq![digit_char((n / 10 % 10) as nat)] + seq![digit_char((n % 10) as nat)])),
{
    reveal_with_fuel(decimal, 4);
    let d3 = seq![digit_char((n / 1000) as nat)];
    let d2 = seq![digit_char((n / 100 % 10) as nat)];
    let d1 = seq![digit_char((n / 10 % 10) as nat)];
    let d0 = seq![digit_char((n % 10) as nat)];
    assert(n / 10 / 10 == n / 100);
    assert(n / 100 / 10 == n / 1000);
    if n < 10 {
        assert(zero_pad(decimal(n as nat), 4) =~= d3 + (d2 + (d1 + d0)));
    } else if n < 100 {
        assert(decimal((n / 10) as nat) == seq![digit_char((n / 10) as nat)]);
        assert(zero_pad(decimal(n as nat), 4) =~= d3 + (d2 + (d1 + d0)));
    } else if n < 1000 {
        assert(decimal((n / 100) as nat) == seq![digit_char((n / 100) as nat)]);
        assert(decimal((n / 10) as nat) == seq![digit_char((n / 100) as nat), digit_char((n / 10 % 10) as nat)]);
        assert(zero_pad(decimal(n as nat), 4) =~= d3 + (d2 + (d1 + d0)));
    } else {
        assert(decimal((n / 1000) as nat) == seq![digit_char((n / 1000) as nat)]);
        assert(decimal((n / 100) as nat) == seq![digit_char((n / 1000) as nat), digit_char((n / 100 % 10) as nat)]);
        assert(decimal((n / 10) as nat) == seq![digit_char((n / 1000) as nat), digit_char((n / 100 % 10) as nat), digit_char((n / 10 % 10) as nat)]);
        assert(zero_pad(decimal(n as nat), 4) =~= d3 + (d2 + (d1 + d0)));
    }
}

/// Two-digit fields compare as their numbers do.
proof fn lemma_two_digits_order(a: int, b: int)
    requires
        0 <= a < 100,
        0 <= b < 100,
    ensures
        lex_lt(two_digits(a), two_digits(b)) == (a < b),
        (two_digits(a) == two_digits(b)) == (a == b),
{
    lemma_two_digits_shape(a);
    lemma_two_digits_shape(b);
    lemma_digit_order(a / 10, b / 10);
    lemma_digit_order(a % 10, b % 10);
    let (a1, a0) = (seq![digit_char((a / 10) as nat)], seq![digit_char((a % 10) as nat)]);
    let (b1, b0) = (seq![digit_char((b / 10) as nat)], seq![digit_char((b % 10) as nat)]);
    lemma_lex_concat(a1, b1, a0, b0);
    if a != b {
        assert(a1 + a0 != b1 + b0) by {
            if a1 + a0 == b1 + b0 {
                assert((a1 + a0)[0] == (b1 + b0)[0]);
                assert((a1 + a0)[1] == (b1 + b0)[1]);
                assert(a1[0] == b1[0] && a0[0] == b0[0]);
            }
        }
    }
}

proof fn lemma_four_digit_value(n: int)
    requires
        0 <= n < 10000,
    ensures
        n == 1000 * (n / 1000) + 100 * (n / 100 % 10) + 10 * (n / 10 % 10) + n % 10,
        0 <= n / 1000 < 10,
{
    assert(n / 10 / 10 == n / 100);
    assert(n / 100 / 10 == n / 1000);
}

/// Four-digit fields compare as their numbers do.
proof fn lemma_four_digits_order(a: int, b: int)
    requires
        0 <= a < 10000,
        0 <= b < 10000,
    ensures
        lex_lt(zero_pad(decimal(a as nat), 4), zero_pad(decimal(b as nat), 4)) == (a < b),
        (zero_pad(decimal(a as nat), 4) == zero_pad(decimal(b as nat), 4)) == (a == b),
{
    lemma_four_digits_shape(a);
    lemma_four_digits_shape(b);
    lemma_four_digit_value(a);
    lemma_four_digit_value(b);
    let (x3, x2, x1, x0) = (a / 1000, a / 100 % 10, a / 10 % 10, a % 10);
    let (y3, y2, y1, y0) = (b / 1000, b / 100 % 10, b / 10 % 10, b % 10);
    lemma_digit_order(x3, y3);
    lemma_digit_order(x2, y2);
    lemma_digit_order(x1, y1);
    lemma_digit_order(x0, y0);
    let a3 = seq![digit_char(x3 as nat)];
    let a2 = seq![digit_char(x2 as nat)];
    let a1 = seq![digit_char(x1 as nat)];
    let a0 = seq![digit_char(x0 as nat)];
    let b3 = seq![digit_char(y3 as nat)];
    let b2 = seq![digit_char(y2 as nat)];
    let b1 = seq![digit_char(y1 as nat)];
    let b0 = seq![digit_char(y0 as nat)];
    lemma_lex_concat(a1, b1, a0, b0);
    lemma_lex_concat(a2, b2, a1 + a0, b1 + b0);
    lemma_lex_concat(a3, b3, a2 + (a1 + a0), b2 + (b1 + b0));
    let sa = a3 + (a2 + (a1 + a0));
    let sb = b3 + (b2 + (b1 + b0));
    assert(sa == sb <==> (a3 == b3 && a2 == b2 && a1 == b1 && a0 == b0)) by {
        if sa == sb {
            assert(sa[0] == a3[0] && sa[1] == a2[0] && sa[2] == a1[0] && sa[3] == a0[0]);
            assert(sb[0] == b3[0] && sb[1] == b2[0] && sb[2] == b1[0] && sb[3] == b0[0]);
            assert(a3 =~= b3 && a2 =~= b2 && a1 =~= b1 && a0 =~= b0);
        }
    }
    assert(a1 + a0 == b1 + b0 <==> (a1 == b1 && a0 == b0)) by {
        if a1 + a0 == b1 + b0 {
            assert((a1 + a0)[0] == (b1 + b0)[0] && (a1 + a0)[1] == (b1 + b0)[1]);
            assert(a1 =~= b1 && a0 =~= b0);
        }
    }
    assert(a2 + (a1 + a0) == b2 + (b1 + b0) <==> (a2 == b2 && a1 == b1 && a0 == b0)) by {
        if a2 + (a1 + a0) == b2 + (b1 + b0) {
            let u = a2 + (a1 + a0);
            let v = b2 + (b1 + b0);
            assert(u[0] == v[0] && u[1] == v[1] && u[2] == v[2]);
            assert(a2[0] == u[0] && b2[0] == v[0]);
            assert((a1 + a0)[0] == u[1] && (b1 + b0)[0] == v[1]);
            assert((a1 + a0)[1] == u[2] && (b1 + b0)[1] == v[2]);
            assert(a2 =~= b2 && a1 =~= b1 && a0 =~= b0);
        }
    }
}

proof fn lemma_days_before_month_increasing(y: int, a: int, b: int)
    requires
        1 <= a < b,
    ensures
        days_before_month(y, a) + month_length(y, a) <= days_before_month(y, b),
    decreases b - a,
{
    if a + 1 < b {
        lemma_days_before_month_increasing(y, a + 1, b);
    }
}

/// Valid dates in calendar order have increasing day numbers.
proof fn lemma_date_order(y1: int, m1: int, d1: int, y2: int, m2: int, d2: int)
    requires
        valid_date(y1, m1, d1),
        valid_date(y2, m2, d2),
        y1 < y2 || (y1 == y2 && (m1 < m2 || (m1 == m2 && d1 < d2))),
    ensures
        epoch_day(y1, m1, d1) < epoch_day(y2, m2, d2),
{
    if y1 < y2 {
        lemma_day_within_year(y1, m1, d1);
        lemma_day_within_year(y2, m2, d2);
        if y1 + 1 < y2 {
            lemma_days_before_year_increasing(y1 + 1, y2);
        }
    } else if m1 < m2 {
        lemma_days_before_month_increasing(y1, m1, m2);
    }
}

/// A day number belongs to one valid date only.
proof fn lemma_date_unique(y1: int, m1: int, d1: int, y2: int, m2: int, d2: int)
    requires
        valid_date(y1, m1, d1),
        valid_date(y2, m2, d2),
        epoch_day(y1, m1, d1) == epoch_day(y2, m2, d2),
    ensures
        y1 == y2 && m1 == m2 && d1 == d2,
{
    if y1 < y2 || (y1 == y2 && (m1 < m2 || (m1 == m2 && d1 < d2))) {
        lemma_date_order(y1, m1, d1, y2, m2, d2);
    } else if y2 < y1 || (y1 == y2 && (m2 < m1 || (m1 == m2 && d2 < d1))) {
        lemma_date_order(y2, m2, d2, y1, m1, d1);
    }
}

/// One field of a timestamp, then a separator and the rest.
proof fn lemma_field_step(f1: Seq<char>, f2: Seq<char>, sep: Seq<char>, r1: Seq<char>, r2: Seq<char>)
    requires
        f1.len() == f2.len(),
    ensures
        lex_lt(f1 + (sep + r1), f2 + (sep + r2)) == (lex_lt(f1, f2) || (f1 == f2 && lex_lt(r1, r2))),
{
    lemma_lex_concat(sep, sep, r1, r2);
    lemma_lex_irreflexive(sep);
    lemma_lex_concat(f1, f2, sep + r1, sep + r2);
}

proof fn lemma_two_digits_len(n: int)
    requires
        0 <= n < 100,
    ensures
        two_digits(n).len() == 2,
{
    lemma_two_digits_shape(n);
}

proof fn lemma_four_digits_len(n: int)
    requires
        0 <= n < 10000,
    ensures
        zero_pad(decimal(n as nat), 4).len() == 4,
{
    lemma_four_digits_shape(n);
}

proof fn lemma_regroup(
    a0: Seq<char>, a1: Seq<char>, a2: Seq<char>, a3: Seq<char>, a4: Seq<char>, a5: Seq<char>,
    a6: Seq<char>, a7: Seq<char>, a8: Seq<char>, a9: Seq<char>, a10: Seq<char>,
)
    ensures
        a0 + a1 + a2 + a3 + a4 + a5 + a6 + a7 + a8 + a9 + a10
            == a0 + (a1 + (a2 + (a3 + (a4 + (a5 + (a6 + (a7 + (a8 + (a9 + a10))))))))),
{
    assert(a0 + a1 + a2 + a3 + a4 + a5 + a6 + a7 + a8 + a9 + a10
        =~= a0 + (a1 + (a2 + (a3 + (a4 + (a5 + (a6 + (a7 + (a8 + (a9 + a10))))))))));
}

/// A timestamp as its first field followed by the rest, field by field.
proof fn lemma_stamp_nested(y: int, mo: int, d: int, h: int, mi: int, s: int)
    ensures
        stamp_text(y, mo, d, h, mi, s) == zero_pad(decimal(y as nat), 4) + ("-"@ + (two_digits(mo)
            + ("-"@ + (two_digits(d) + ("T"@ + (two_digits(h) + (":"@ + (two_digits(mi)
            + (":"@ + (two_digits(s) + "Z"@)))))))))),
{
    lemma_regroup(zero_pad(decimal(y as nat), 4), "-"@, two_digits(mo), "-"@, two_digits(d), "T"@,
        two_digits(h), ":"@, two_digits(mi), ":"@, two_digits(s) + "Z"@);
    assert(two_digits(mi) + ":"@ + two_digits(s) + "Z"@ == two_digits(mi) + ":"@ + (two_digits(s) + "Z"@)) by {
        vstd::seq_lib::lemma_concat_associative(two_digits(mi) + ":"@, two_digits(s), "Z"@);
    }
}

/// Timestamps compare as their field tuples do.
proof fn lemma_stamp_order(
    y1: int, mo1: int, d1: int, h1: int, mi1: int, s1: int,
    y2: int, mo2: int, d2: int, h2: int, mi2: int, s2: int,
)
    requires
        0 <= y1 < 10000 && 0 <= y2 < 10000,
        0 <= mo1 < 100 && 0 <= mo2 < 100 && 0 <= d1 < 100 && 0 <= d2 < 100,
        0 <= h1 < 100 && 0 <= h2 < 100 && 0 <= mi1 < 100 && 0 <= mi2 < 100,
        0 <= s1 < 100 && 0 <= s2 < 100,
        y1 < y2 || (y1 == y2 && (mo1 < mo2 || (mo1 == mo2 && (d1 < d2 || (d1 == d2
            && (h1 < h2 || (h1 == h2 && (mi1 < mi2 || (mi1 == mi2 && s1 < s2))))))))),
    ensures
        lex_lt(stamp_text(y1, mo1, d1, h1, mi1, s1), stamp_text(y2, mo2, d2, h2, mi2, s2)),
{
    let z = "Z"@;
    let c = ":"@;
    let t = "T"@;
    let h = "-"@;
    let rs1 = two_digits(s1) + z;
    let rs2 = two_digits(s2) + z;
    let rm1 = two_digits(mi1) + (c + rs1);
    let rm2 = two_digits(mi2) + (c + rs2);
    let rh1 = two_digits(h1) + (c + rm1);
    let rh2 = two_digits(h2) + (c + rm2);
    let rd1 = two_digits(d1) + (t + rh1);
    let rd2 = two_digits(d2) + (t + rh2);
    let ro1 = two_digits(mo1) + (h + rd1);
    let ro2 = two_digits(mo2) + (h + rd2);
    let ry1 = zero_pad(decimal(y1 as nat), 4) + (h + ro1);
    let ry2 = zero_pad(decimal(y2 as nat), 4) + (h + ro2);
    assert(lex_lt(rs1, rs2) == (s1 < s2)) by {
        lemma_two_digits_len(s1);
        lemma_two_digits_len(s2);
        lemma_two_digits_order(s1, s2);
        lemma_lex_concat(two_digits(s1), two_digits(s2), z, z);
        lemma_lex_irreflexive(z);
    }
    assert(lex_lt(rm1, rm2) == (mi1 < mi2 || (mi1 == mi2 && s1 < s2))) by {
        lemma_two_digits_len(mi1);
        lemma_two_digits_len(mi2);
        lemma_two_digits_order(mi1, mi2);
        lemma_field_step(two_digits(mi1), two_digits(mi2), c, rs1, rs2);
    }
    assert(lex_lt(rh1, rh2) == (h1 < h2 || (h1 == h2 && lex_lt(rm1, rm2)))) by {
        lemma_two_digits_len(h1);
        lemma_two_digits_len(h2);
        lemma_two_digits_order(h1, h2);
        lemma_field_step(two_digits(h1), two_digits(h2), c, rm1, rm2);
    }
    assert(lex_lt(rd1, rd2) == (d1 < d2 || (d1 == d2 && lex_lt(rh1, rh2)))) by {
        lemma_two_digits_len(d1);
        lemma_two_digits_len(d2);
        lemma_two_digits_order(d1, d2);
        lemma_field_step(two_digits(d1), two_digits(d2), t, rh1, rh2);
    }
    assert(lex_lt(ro1, ro2) == (mo1 < mo2 || (mo1 == mo2 && lex_lt(rd1, rd2)))) by {
        lemma_two_digits_len(mo1);
        lemma_two_digits_len(mo2);
        lemma_two_digits_order(mo1, mo2);
        lemma_field_step(two_digits(mo1), two_digits(mo2), h, rd1, rd2);
    }
    assert(lex_lt(ry1, ry2) == (y1 < y2 || (y1 == y2 && lex_lt(ro1, ro2)))) by {
        lemma_four_digits_len(y1);
        lemma_four_digits_len(y2);
        lemma_four_digits_order(y1, y2);
        lemma_field_step(zero_pad(decimal(y1 as nat), 4), zero_pad(decimal(y2 as nat), 4), h, ro1, ro2);
    }
    lemma_stamp_nested(y1, mo1, d1, h1, mi1, s1);
    lemma_stamp_nested(y2, mo2, d2, h2, mi2, s2);
}

/// Days before the year 10000.
proof fn lemma_year_ten_thousand()
    ensures
        days_before_year(10000) == 2932897,
{
    lemma_days_before_year_closed(10000);
    assert(leaps_through(9999) == 2424);
}

/// A valid date on a day in `[0, 2932897)` lies in a year of four digits.
proof fn lemma_four_digit_year(y: int, m: int, d: int)
    requires
        valid_date(y, m, d),
        0 <= epoch_day(y, m, d) < 2932897,
    ensures
        1970 <= y < 10000,
{
    lemma_day_within_year(y, m, d);
    lemma_year_ten_thousand();
    if y < 1970 {
        if y + 1 < 1970 {
            lemma_days_before_year_increasing(y + 1, 1970);
        }
    }
    if y > 10000 {
        lemma_days_before_year_increasing(10000, y);
    }
}

/// Canonical timestamps sort in time order: for two instants before the
/// year 10000, the earlier one's text sorts strictly first. This is what
/// ordering claims by their TEXT `created_at` relies on.
pub proof fn lemma_epoch_text_sorts_in_time_order(a: int, b: int, ta: Seq<char>, tb: Seq<char>)
    requires
        0 <= a < b < 253_402_300_800,
        is_epoch_text(ta, a),
        is_epoch_text(tb, b),
    ensures
        lex_lt(ta, tb),
{
    let (y1, m1, d1) = choose|y: int, m: int, d: int|
        #![trigger epoch_day(y, m, d)]
        valid_date(y, m, d) && epoch_day(y, m, d) == a / 86400
            && ta == stamp_text(y, m, d, a % 86400 / 3600, (a % 86400 % 3600) / 60, a % 86400 % 60);
    let (y2, m2, d2) = choose|y: int, m: int, d: int|
        #![trigger epoch_day(y, m, d)]
        valid_date(y, m, d) && epoch_day(y, m, d) == b / 86400
            && tb == stamp_text(y, m, d, b % 86400 / 3600, (b % 86400 % 3600) / 60, b % 86400 % 60);
    let ta_ = a % 86400;
    let tb_ = b % 86400;
    vstd::arithmetic::div_mod::lemma_fundamental_div_mod(a, 86400);
    vstd::arithmetic::div_mod::lemma_fundamental_div_mod(b, 86400);
    assert(a / 86400 <= b / 86400) by {
        vstd::arithmetic::div_mod::lemma_div_is_ordered(a, b, 86400);
    }
    assert(b / 86400 < 2932897) by {
        vstd::arithmetic::div_mod::lemma_div_is_ordered(b, 253_402_300_800, 86400);
    }
    lemma_four_digit_year(y1, m1, d1);
    lemma_four_digit_year(y2, m2, d2);
    vstd::arithmetic::div_mod::lemma_fundamental_div_mod(ta_, 3600);
    vstd::arithmetic::div_mod::lemma_fundamental_div_mod(tb_, 3600);
    vstd::arithmetic::div_mod::lemma_fundamental_div_mod(ta_ % 3600, 60);
    vstd::arithmetic::div_mod::lemma_fundamental_div_mod(tb_ % 3600, 60);
    let (h1, mi1, s1) = (ta_ / 3600, (ta_ % 3600) / 60, ta_ % 60);
    let (h2, mi2, s2) = (tb_ / 3600, (tb_ % 3600) / 60, tb_ % 60);
    assert(ta_ % 3600 % 60 == ta_ % 60) by {
        vstd::arithmetic::div_mod::lemma_mod_mod(ta_, 60, 60);
    }
    assert(tb_ % 3600 % 60 == tb_ % 60) by {
        vstd::arithmetic::div_mod::lemma_mod_mod(tb_, 60, 60);
    }
    assert(0 <= h1 < 24 && 0 <= h2 < 24);
    if a / 86400 < b / 86400 {
        if !(y1 < y2 || (y1 == y2 && (m1 < m2 || (m1 == m2 && d1 < d2)))) {
            if y1 == y2 && m1 == m2 && d1 == d2 {
            } else {
                lemma_date_order(y2, m2, d2, y1, m1, d1);
            }
        }
        lemma_stamp_order(y1, m1, d1, h1, mi1, s1, y2, m2, d2, h2, mi2, s2);
    } else {
        lemma_date_unique(y1, m1, d1, y2, m2, d2);
        assert(ta_ < tb_);
        assert(ta_ == 3600 * h1 + 60 * mi1 + s1);
        assert(tb_ == 3600 * h2 + 60 * mi2 + s2);
        lemma_stamp_order(y1, m1, d1, h1, mi1, s1, y2, m2, d2, h2, mi2, s2);
    }
}

/// Canonical timestamps of instants before the year 10000 have a fixed
/// width of 20 characters, with the date and the time separated by `T` and
/// the `Z` of UTC last.
pub proof fn lemma_epoch_text_shape(secs: int, text: Seq<char>)
    requires
        0 <= secs < 253_402_300_800,
        is_epoch_text(text, secs),
    ensures
        text.len() == 20,
        text[4] == '-' && text[7] == '-' && text[10] == 'T',
        text[13] == ':' && text[16] == ':' && text[19] == 'Z',
{
    let tod = secs % 86400;
    let (y, m, d) = choose|y: int, m: int, d: int|
        #![trigger epoch_day(y, m, d)]
        valid_date(y, m, d) && epoch_day(y, m, d) == secs / 86400
            && text == stamp_text(y, m, d, tod / 3600, (tod % 3600) / 60, tod % 60);
    assert(secs / 86400 < 2932897) by {
        vstd::arithmetic::div_mod::lemma_div_is_ordered(secs, 253_402_300_800, 86400);
    }
    lemma_four_digit_year(y, m, d);
    let (h, mi, sc) = (tod / 3600, (tod % 3600) / 60, tod % 60);
    lemma_four_digits_len(y);
    lemma_two_digits_len(m);
    lemma_two_digits_len(d);
    lemma_two_digits_len(h);
    lemma_two_digits_len(mi);
    lemma_two_digits_len(sc);
    reveal_strlit("-");
    reveal_strlit("T");
    reveal_strlit(":");
    reveal_strlit("Z");
    let yy = zero_pad(decimal(y as nat), 4);
    let p1 = yy + "-"@;
    let p2 = p1 + two_digits(m);
    let p3 = p2 + "-"@;
    let p4 = p3 + two_digits(d);
    let p5 = p4 + "T"@;
    let p6 = p5 + two_digits(h);
    let p7 = p6 + ":"@;
    let p8 = p7 + two_digits(mi);
    let p9 = p8 + ":"@;
    let p10 = p9 + two_digits(sc);
    let p11 = p10 + "Z"@;
    assert(text == p11);
    assert(p1[4] == '-');
    assert(p3[7] == '-');
    assert(p5[10] == 'T');
    assert(p7[13] == ':');
    assert(p9[16] == ':');
    assert(p11[19] == 'Z');
    assert(p11[4] == p1[4] && p11[7] == p3[7] && p11[10] == p5[10]);
    assert(p11[13] == p7[13] && p11[16] == p9[16]);
}

} // verus!
