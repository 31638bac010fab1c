//! The built-in tool that reports the current UTC date and time.

use vstd::prelude::*;
use crate::text::{padded_dec_chars, padded_dec_seq, push_all, push_str_chars, string_from_chars};
use vstd::arithmetic::div_mod::{lemma_fundamental_div_mod, lemma_fundamental_div_mod_converse};

verus! {

/// Whether `y` is a leap year of the proleptic Gregorian calendar.
pub open spec fn is_leap(y: int) -> bool {
    y % 4 == 0 && (y % 100 != 0 || y % 400 == 0)
}

/// The number of leap years among the years `1..=n`.
pub open spec fn leap_years_upto(n: int) -> int {
    n / 4 - n / 100 + n / 400
}

/// The length of month `m` of year `y`.
pub open spec fn month_days(y: int, m: int) -> int {
    if m == 2 {
        if is_leap(y) {
            29
        } else {
            28
        }
    } else if m == 4 || m == 6 || m == 9 || m == 11 {
        30
    } else {
        31
    }
}

/// The days of year `y` before the first of month `m`.
pub open spec fn days_before_month(y: int, m: int) -> int
    decreases m,
{
    if m <= 1 {
        0
    } else {
        days_before_month(y, m - 1) + month_days(y, m - 1)
    }
}

/// The days from 1970-01-01 to the first of January of year `y`.
pub open spec fn days_before_year(y: int) -> int {
    365 * (y - 1970) + leap_years_upto(y - 1) - leap_years_upto(1969)
}

/// The number of days from 1970-01-01 to the date `y-m-d`.
pub open spec fn days_from_civil(y: int, m: int, d: int) -> int {
    days_before_year(y) + days_before_month(y, m) + d - 1
}

/// `y-m-d` is a date of the calendar.
pub open spec fn is_valid_date(y: int, m: int, d: int) -> bool {
    1 <= m <= 12 && 1 <= d <= month_days(y, m)
}

/// Days of the March-based year `yoe` (0..=399) of a 400-year era before
/// that year starts.
spec fn era_year_start(yoe: int) -> int {
    365 * yoe + yoe / 4 - yoe / 100
}

proof fn lemma_year_of_era(doe: int)
    requires
        0 <= doe <= 146096,
    ensures
        ({
            let yoe = (doe - doe / 1460 + doe / 36524 - doe / 146096) / 365;
            let doy = doe - era_year_start(yoe);
            &&& 0 <= yoe <= 399
            &&& 0 <= doy <= 365
            &&& doy == 365 ==> is_leap(yoe + 1)
        }),
{
}


/// Days of a March-based year before month `mp` (0 is March).
spec fn march_month_start(mp: int) -> int {
    (153 * mp + 2) / 5
}

proof fn lemma_month_of_year(doy: int)
    requires
        0 <= doy <= 365,
    ensures
        ({
            let mp = (5 * doy + 2) / 153;
            let d = doy - march_month_start(mp) + 1;
            &&& 0 <= mp <= 11
            &&& 1 <= d
            &&& mp < 10 ==> d <= month_days(0, mp + 3)
            &&& mp == 10 ==> d <= 31
            &&& mp == 11 ==> d <= 28 || (d == 29 && doy == 365)
        }),
{
}

proof fn lemma_days_before_month(y: int, m: int)
    requires
        1 <= m <= 12,
    ensures
        m >= 3 ==> days_before_month(y, m) == 59 + (if is_leap(y) {
            1int
        } else {
            0int
        }) + march_month_start(m - 3),
        m <= 2 ==> days_before_month(y, m) == march_month_start(m + 9) - 306,
{
    reveal_with_fuel(days_before_month, 13);
}

proof fn lemma_era_shift(e: int, y: int)
    requires
        e >= 0,
        0 <= y < 400,
    ensures
        (400 * e + y) / 4 == 100 * e + y / 4,
        (400 * e + y) % 4 == y % 4,
        (400 * e + y) / 100 == 4 * e + y / 100,
        (400 * e + y) % 100 == y % 100,
        (400 * e + y) / 400 == e,
        (400 * e + y) % 400 == y,
{
    lemma_fundamental_div_mod_converse(400 * e + y, 4, 100 * e + y / 4, y % 4);
    lemma_fundamental_div_mod_converse(400 * e + y, 100, 4 * e + y / 100, y % 100);
    lemma_fundamental_div_mod_converse(400 * e + y, 400, e, y);
}

proof fn lemma_leap_step_mod(n: int, k: int)
    requires
        n >= 1,
        k > 0,
    ensures
        n / k - (n - 1) / k == (if n % k == 0 {
            1int
        } else {
            0int
        }),
{
    let q = n / k;
    let r = n % k;
    lemma_fundamental_div_mod(n, k);
    assert(n == q * k + r) by (nonlinear_arith)
        requires
            n == k * q + r,
    ;
    if r == 0 {
        assert(n - 1 == (q - 1) * k + (k - 1)) by (nonlinear_arith)
            requires
                n == q * k,
        ;
        lemma_fundamental_div_mod_converse(n - 1, k, q - 1, k - 1);
    } else {
        lemma_fundamental_div_mod_converse(n - 1, k, q, r - 1);
    }
}

/// Year `n` adds one leap year to the count exactly when it is a leap year.
proof fn lemma_leap_step(n: int)
    requires
        n >= 1,
    ensures
        leap_years_upto(n) - leap_years_upto(n - 1) == (if is_leap(n) {
            1int
        } else {
            0int
        }),
{
    lemma_leap_step_mod(n, 4);
    lemma_leap_step_mod(n, 100);
    lemma_leap_step_mod(n, 400);
    if n % 400 == 0 {
        lemma_fundamental_div_mod_converse(n, 100, (n / 400) * 4, 0);
        lemma_fundamental_div_mod_converse(n, 4, (n / 400) * 100, 0);
    } else if n % 100 == 0 {
        lemma_fundamental_div_mod_converse(n, 4, (n / 100) * 25, 0);
    }
    if n % 4 != 0 {
        if n % 100 == 0 {
            lemma_fundamental_div_mod_converse(n, 4, (n / 100) * 25, 0);
        }
    }
    if n % 100 != 0 {
        if n % 400 == 0 {
            lemma_fundamental_div_mod_converse(n, 100, (n / 400) * 4, 0);
        }
    }
}

/// The day after `y-m-d`: the next day of the month, else the first of the
/// next month, else New Year's Day of the next year.
pub open spec fn next_date(y: int, m: int, d: int) -> (int, int, int) {
    if d < month_days(y, m) {
        (y, m, d + 1)
    } else if m < 12 {
        (y, m + 1, 1)
    } else {
        (y + 1, 1, 1)
    }
}

/// A year holds 365 days, 366 in a leap year.
proof fn lemma_year_length(y: int)
    ensures
        days_before_month(y, 12) + month_days(y, 12) == 365 + (if is_leap(y) {
            1int
        } else {
            0int
        }),
{
    reveal_with_fuel(days_before_month, 13);
}

/// Each year starts 365 or 366 days after the one before.
proof fn lemma_year_step(y: int)
    requires
        y >= 1,
    ensures
        days_before_year(y + 1) == days_before_year(y) + 365 + (if is_leap(y) {
            1int
        } else {
            0int
        }),
{
    lemma_leap_step(y);
}

/// Later years start later: at least 365 days per year.
proof fn lemma_years_ascend(a: int, b: int)
    requires
        1 <= a <= b,
    ensures
        days_before_year(b) >= days_before_year(a) + 365 * (b - a),
    decreases b - a,
{
    if a < b {
        lemma_years_ascend(a, b - 1);
        lemma_year_step(b - 1);
    }
}

/// Later months of a year start after the earlier ones end.
proof fn lemma_months_ascend(y: int, a: int, b: int)
    requires
        1 <= a < b,
    ensures
        days_before_month(y, a) + month_days(y, a) <= days_before_month(y, b),
    decreases b - a,
{
    if a + 1 < b {
        lemma_months_ascend(y, a, b - 1);
    }
}

proof fn lemma_months_nonnegative(y: int, m: int)
    ensures
        days_before_month(y, m) >= 0,
    decreases m,
{
    if m > 1 {
        lemma_months_nonnegative(y, m - 1);
    }
}

/// A date lies in its year: after the year starts and before the next one.
proof fn lemma_date_in_year(y: int, m: int, d: int)
    requires
        is_valid_date(y, m, d),
        y >= 1,
    ensures
        days_before_year(y) <= days_from_civil(y, m, d) < days_before_year(y + 1),
{
    lemma_year_step(y);
    lemma_year_length(y);
    lemma_months_nonnegative(y, m);
    if m < 12 {
        lemma_months_ascend(y, m, 12);
    }
}

/// Two dates with the same day count are the same date.
pub proof fn lemma_civil_injective(y1: int, m1: int, d1: int, y2: int, m2: int, d2: int)
    requires
        is_valid_date(y1, m1, d1),
        is_valid_date(y2, m2, d2),
        y1 >= 1,
        y2 >= 1,
        days_from_civil(y1, m1, d1) == days_from_civil(y2, m2, d2),
    ensures
        y1 == y2 && m1 == m2 && d1 == d2,
{
    lemma_date_in_year(y1, m1, d1);
    lemma_date_in_year(y2, m2, d2);
    if y1 < y2 {
        lemma_years_ascend(y1 + 1, y2);
    } else if y2 < y1 {
        lemma_years_ascend(y2 + 1, y1);
    }
    assert(y1 == y2);
    if m1 < m2 {
        lemma_months_ascend(y1, m1, m2);
    } else if m2 < m1 {
        lemma_months_ascend(y1, m2, m1);
    }
}

/// The day after a date is a date, one day later.
pub proof fn next_date_is_one_day_later(y: int, m: int, d: int)
    requires
        is_valid_date(y, m, d),
        y >= 1,
    ensures
        is_valid_date(next_date(y, m, d).0, next_date(y, m, d).1, next_date(y, m, d).2),
        next_date(y, m, d).0 >= 1,
        days_from_civil(next_date(y, m, d).0, next_date(y, m, d).1, next_date(y, m, d).2)
            == days_from_civil(y, m, d) + 1,
{
    if d >= month_days(y, m) && m == 12 {
        lemma_year_step(y);
        lemma_year_length(y);
    }
}

/// Consecutive day counts give consecutive dates: when `a` is the date of
/// day `n` and `b` the date of day `n + 1` (as `days_to_ymd` gives them), `b`
/// is the day after `a`. Hence `days_to_ymd(n)` is the date `n` days after
/// 1970-01-01.
pub proof fn consecutive_days_are_consecutive_dates(n: int, a: (int, int, int), b: (int, int, int))
    requires
        is_valid_date(a.0, a.1, a.2),
        is_valid_date(b.0, b.1, b.2),
        a.0 >= 1,
        b.0 >= 1,
        days_from_civil(a.0, a.1, a.2) == n,
        days_from_civil(b.0, b.1, b.2) == n + 1,
    ensures
        b == next_date(a.0, a.1, a.2),
{
    next_date_is_one_day_later(a.0, a.1, a.2);
    let c = next_date(a.0, a.1, a.2);
    lemma_civil_injective(b.0, b.1, b.2, c.0, c.1, c.2);
}


/// Converts a count of days since 1970-01-01 into the calendar date
/// (year, month, day) of that day.
pub fn days_to_ymd(total_days: u64) -> (r: (u64, u64, u64))
    requires
        total_days <= u64::MAX - 719468,
    ensures
        r.0 >= 1,
        is_valid_date(r.0 as int, r.1 as int, r.2 as int),
        days_from_civil(r.0 as int, r.1 as int, r.2 as int) == total_days,
{
    let remaining = total_days + 719468;
    let era = remaining / 146097;
    let doe = remaining % 146097;
    proof {
        lemma_year_of_era(doe as int);
    }
    let yoe = (doe - doe / 1460 + doe / 36524 - doe / 146096) / 365;
    let y = yoe + era * 400;
    let doy = doe - (365 * yoe + yoe / 4 - yoe / 100);
    proof {
        lemma_month_of_year(doy as int);
    }
    let mp = (5 * doy + 2) / 153;
    let d = doy - (153 * mp + 2) / 5 + 1;
    let m = if mp < 10 {
        mp + 3
    } else {
        mp - 9
    };
    let y = if m <= 2 {
        y + 1
    } else {
        y
    };
    proof {
        let e = era as int;
        let yo = yoe as int;
        let my = 400 * e + yo;
        assert(remaining as int == 146097 * e + doe);
        assert(doe as int == era_year_start(yo) + doy);
        assert(doy as int == march_month_start(mp as int) + d - 1);
        lemma_era_shift(e, yo);
        lemma_days_before_month(y as int, m as int);
        assert(leap_years_upto(my) == 97 * e + yo / 4 - yo / 100);
        assert(leap_years_upto(1969) == 477);
        if mp < 10 {
            assert(y as int == my);
            lemma_leap_step(my);
        } else {
            assert(y as int == my + 1);
            if doy == 365 {
                if yo + 1 == 400 {
                    lemma_era_shift(e + 1, 0);
                } else {
                    lemma_era_shift(e, yo + 1);
                }
            }
        }
    }
    (y, m, d)
}


/// The tool's name as the model sees it.
pub const TIME_TOOL_NAME: &'static str = "get_current_time";

/// The tool's description as the model sees it.
pub const TIME_TOOL_DESCRIPTION: &'static str =
    "Get the current date and time in UTC. Returns an ISO 8601 formatted timestamp.";

/// The JSON schema of the tool's (empty) parameters.
pub const TIME_TOOL_PARAMETERS_JSON: &'static str =
    "{\"type\": \"object\", \"properties\": {}, \"required\": []}";

/// Reports the current UTC date and time.
pub struct GetCurrentTimeTool;

impl GetCurrentTimeTool {
    pub fn name(&self) -> (r: &'static str)
        ensures
            r@ == TIME_TOOL_NAME@,
    {
        TIME_TOOL_NAME
    }

    pub fn description(&self) -> (r: &'static str)
        ensures
            r@ == TIME_TOOL_DESCRIPTION@,
    {
        TIME_TOOL_DESCRIPTION
    }

    pub fn parameters_json(&self) -> (r: &'static str)
        ensures
            r@ == TIME_TOOL_PARAMETERS_JSON@,
    {
        TIME_TOOL_PARAMETERS_JSON
    }
}

/// `YYYY-MM-DD hh:mm:ss UTC`, each field zero-padded to its width.
pub open spec fn utc_text(y: nat, m: nat, d: nat, hh: nat, mm: nat, ss: nat) -> Seq<char> {
    padded_dec_seq(y, 4) + "-"@ + padded_dec_seq(m, 2) + "-"@ + padded_dec_seq(d, 2) + " "@
        + padded_dec_seq(hh, 2) + ":"@ + padded_dec_seq(mm, 2) + ":"@ + padded_dec_seq(ss, 2)
        + " UTC"@
}

/// The text the tool answers with, `total_secs` seconds after
/// 1970-01-01 00:00:00 UTC.
pub open spec fn timestamp_text_of(total_secs: nat, text: Seq<char>) -> bool {
    let day = total_secs / 86400;
    let t = total_secs % 86400;
    exists|y: nat, m: nat, d: nat|
        #![trigger utc_text(y, m, d, t / 3600, (t % 3600) / 60, t % 60)]
        is_valid_date(y as int, m as int, d as int) && days_from_civil(y as int, m as int, d as int)
            == day && text == utc_text(y, m, d, t / 3600, (t % 3600) / 60, t % 60)
}

/// The tool's answer at `total_secs` seconds after the Unix epoch.
pub fn format_utc_timestamp(total_secs: u64) -> (r: String)
    ensures
        timestamp_text_of(total_secs as nat, r@),
{
    let secs_per_day: u64 = 86400;
    let days = total_secs / secs_per_day;
    let time_secs = total_secs % secs_per_day;
    let hours = time_secs / 3600;
    let minutes = (time_secs % 3600) / 60;
    let seconds = time_secs % 60;
    let (year, month, day) = days_to_ymd(days);
    let mut out: Vec<char> = Vec::new();
    let part = padded_dec_chars(year, 4);
    push_all(&mut out, part.as_slice());
    push_str_chars(&mut out, "-");
    let part = padded_dec_chars(month, 2);
    push_all(&mut out, part.as_slice());
    push_str_chars(&mut out, "-");
    let part = padded_dec_chars(day, 2);
    push_all(&mut out, part.as_slice());
    push_str_chars(&mut out, " ");
    let part = padded_dec_chars(hours, 2);
    push_all(&mut out, part.as_slice());
    push_str_chars(&mut out, ":");
    let part = padded_dec_chars(minutes, 2);
    push_all(&mut out, part.as_slice());
    push_str_chars(&mut out, ":");
    let part = padded_dec_chars(seconds, 2);
    push_all(&mut out, part.as_slice());
    push_str_chars(&mut out, " UTC");
    let r = string_from_chars(out.as_slice());
    proof {
        let t = total_secs as nat % 86400;
        assert(r@ =~= utc_text(year as nat, month as nat, day as nat, t / 3600, (t % 3600) / 60, t % 60));
    }
    r
}

} // verus!
