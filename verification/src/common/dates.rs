//! Calendar arithmetic on plain values.  A calendar date is a `CivilDate`
//! (proleptic Gregorian, as chrono counts it) and an instant is a Unix
//! timestamp in seconds.  chrono does the conversions; the contracts of those
//! calls state the calendar facts they rely on.
use chrono::{Datelike, NaiveDate, NaiveTime, TimeZone, Utc};
use crate::common::text::{decimal, zero_pad};
use vstd::prelude::*;

verus! {

/// A day of the proleptic Gregorian calendar.
#[derive(Clone, Copy, PartialEq, Eq, Debug, Structural)]
pub struct CivilDate {
    pub year: i32,
    pub month: u32,
    pub day: u32,
}

/// Smallest and largest year that chrono's `NaiveDate` can hold.
pub open spec fn min_year() -> int {
    -262143
}

pub open spec fn max_year() -> int {
    262142
}

pub open spec fn is_leap(y: int) -> bool {
    (y % 4 == 0 && y % 100 != 0) || y % 400 == 0
}

pub open spec fn days_in_month(y: int, m: int) -> int {
    if m == 2 {
        if is_leap(y) {
            29
        } else {
            28
        }
    } else if m == 4 || m == 6 || m == 9 || m == 11 {
        30
    } else {
        31
    }
}

pub open spec fn days_in_year(y: int) -> int {
    if is_leap(y) {
        366
    } else {
        365
    }
}

/// Days of year `y` before the first of month `m`.
pub open spec fn days_before_month(y: int, m: int) -> int {
    let base: int = if m <= 1 {
        0
    } else if m == 2 {
        31
    } else if m == 3 {
        59
    } else if m == 4 {
        90
    } else if m == 5 {
        120
    } else if m == 6 {
        151
    } else if m == 7 {
        181
    } else if m == 8 {
        212
    } else if m == 9 {
        243
    } else if m == 10 {
        273
    } else if m == 11 {
        304
    } else {
        334
    };
    if m > 2 && is_leap(y) {
        base + 1
    } else {
        base
    }
}

/// Days of all years before year `y`, counted from January 1 of year 1.
pub open spec fn days_before_year(y: int) -> int {
    let p = y - 1;
    365 * p + p / 4 - p / 100 + p / 400
}

/// Day number of a date, January 1 of year 1 being day 1 (chrono's
/// `num_days_from_ce`).
pub open spec fn ce_day(y: int, m: int, d: int) -> int {
    days_before_year(y) + days_before_month(y, m) + d
}

pub open spec fn ce_day_of(c: CivilDate) -> int {
    ce_day(c.year as int, c.month as int, c.day as int)
}

/// A date that exists and that chrono can represent.
pub open spec fn valid_ymd(y: int, m: int, d: int) -> bool {
    &&& min_year() <= y <= max_year()
    &&& 1 <= m <= 12
    &&& 1 <= d <= days_in_month(y, m)
}

pub open spec fn valid_date(c: CivilDate) -> bool {
    valid_ymd(c.year as int, c.month as int, c.day as int)
}

/// Day number (from January 1, 1970) of the first day of the Unix epoch in
/// `ce_day` numbering.
pub open spec fn unix_epoch_ce_day() -> int {
    719163
}

/// The UTC calendar day, counted from 1970-01-01, that holds a timestamp.
pub open spec fn utc_day(ts: int) -> int {
    ts / 86400
}

/// A day, counted from 1970-01-01, that chrono's dates can hold.
pub open spec fn in_chrono_range(epoch_day: int) -> bool {
    ce_day(min_year(), 1, 1) <= epoch_day + unix_epoch_ce_day() <= ce_day(max_year(), 12, 31)
}

/// Timestamp of midnight UTC at the start of a date.
pub open spec fn midnight_timestamp(y: int, m: int, d: int) -> int {
    (ce_day(y, m, d) - unix_epoch_ce_day()) * 86400
}

/// Lexicographic (and so chronological) order of dates.
pub open spec fn date_lt(a: CivilDate, b: CivilDate) -> bool {
    ||| a.year < b.year
    ||| (a.year == b.year && a.month < b.month)
    ||| (a.year == b.year && a.month == b.month && a.day < b.day)
}

// ===== Lemmas =====

proof fn lemma_div_step(y: int, k: int)
    requires
        k > 0,
    ensures
        y / k - (y - 1) / k == (if y % k == 0 {
            1int
        } else {
            0int
        }),
{
    let q = y / k;
    let r = y % k;
    let q1 = (y - 1) / k;
    let r1 = (y - 1) % k;
    assert(y == q * k + r && 0 <= r < k) by (nonlinear_arith)
        requires
            k > 0,
            q == y / k,
            r == y % k,
    ;
    assert(y - 1 == q1 * k + r1 && 0 <= r1 < k) by (nonlinear_arith)
        requires
            k > 0,
            q1 == (y - 1) / k,
            r1 == (y - 1) % k,
    ;
    if r == 0 {
        assert(q - q1 == 1) by (nonlinear_arith)
            requires
                k > 0,
                y == q * k + r,
                r == 0,
                y - 1 == q1 * k + r1,
                0 <= r1 < k,
        ;
    } else {
        assert(q - q1 == 0) by (nonlinear_arith)
            requires
                k > 0,
                y == q * k + r,
                0 < r < k,
                y - 1 == q1 * k + r1,
                0 <= r1 < k,
        ;
    }
}

/// Consecutive years: the next year starts `days_in_year(y)` days later.
pub proof fn lemma_days_before_next_year(y: int)
    ensures
        days_before_year(y + 1) == days_before_year(y) + days_in_year(y),
{
    lemma_div_step(y, 4);
    lemma_div_step(y, 100);
    lemma_div_step(y, 400);
}

/// Days before a later year are more than the days before an earlier one, by
/// at least a full year.
pub proof fn lemma_days_before_year_mono(a: int, b: int)
    requires
        a < b,
    ensures
        days_before_year(a) + days_in_year(a) <= days_before_year(b),
    decreases b - a,
{
    lemma_days_before_next_year(a);
    if a + 1 < b {
        lemma_days_before_year_mono(a + 1, b);
    }
}

/// Dates of a valid month stay within the year.
proof fn lemma_month_end_within_year(y: int, m: int)
    requires
        1 <= m <= 12,
    ensures
        days_before_month(y, m) + days_in_month(y, m) <= days_in_year(y),
        m < 12 ==> days_before_month(y, m) + days_in_month(y, m) == days_before_month(y, m + 1),
        m == 12 ==> days_before_month(y, m) + days_in_month(y, m) == days_in_year(y),
        days_before_month(y, m) >= 0,
{
}

proof fn lemma_month_mono(y: int, a: int, b: int)
    requires
        1 <= a < b <= 12,
    ensures
        days_before_month(y, a) + days_in_month(y, a) <= days_before_month(y, b),
{
}

/// Chronological order of valid dates is the order of their day numbers.
pub proof fn lemma_ce_day_strict_mono(a: CivilDate, b: CivilDate)
    requires
        valid_date(a),
        valid_date(b),
        date_lt(a, b),
    ensures
        ce_day_of(a) < ce_day_of(b),
{
    let (ya, ma, da) = (a.year as int, a.month as int, a.day as int);
    let (yb, mb, db) = (b.year as int, b.month as int, b.day as int);
    lemma_month_end_within_year(ya, ma);
    lemma_month_end_within_year(yb, mb);
    if ya < yb {
        lemma_days_before_year_mono(ya, yb);
    } else if ma < mb {
        lemma_month_mono(ya, ma, mb);
    }
}

/// Two valid dates with the same day number are the same date.
pub proof fn lemma_ce_day_injective(a: CivilDate, b: CivilDate)
    requires
        valid_date(a),
        valid_date(b),
        ce_day_of(a) == ce_day_of(b),
    ensures
        a == b,
{
    if date_lt(a, b) {
        lemma_ce_day_strict_mono(a, b);
    } else if date_lt(b, a) {
        lemma_ce_day_strict_mono(b, a);
    }
}

/// The last day of a month is followed by the first day of the next month.
pub proof fn lemma_month_end_successor(y: int, m: int)
    requires
        1 <= m <= 12,
    ensures
        m < 12 ==> ce_day(y, m, days_in_month(y, m)) + 1 == ce_day(y, m + 1, 1),
        m == 12 ==> ce_day(y, m, days_in_month(y, m)) + 1 == ce_day(y + 1, 1, 1),
{
    lemma_month_end_within_year(y, m);
    lemma_days_before_next_year(y);
}

// ===== chrono =====

/// `NaiveDate::from_ymd_opt`: the date when it exists and lies in chrono's
/// range of years, otherwise `None`.
#[verifier::external_body]
pub(crate) fn ymd_opt(year: i32, month: u32, day: u32) -> (r: Option<CivilDate>)
    ensures
        r is Some <==> valid_ymd(year as int, month as int, day as int),
        r is Some ==> r->0 == (CivilDate { year, month, day }),
{
    NaiveDate::from_ymd_opt(year, month, day).map(|d| CivilDate { year: d.year(), month: d.month(), day: d.day() })
}

/// `Datelike::num_days_from_ce` of `NaiveDate::from_ymd_opt(year, month, day)`:
/// the day number of the date, counted from January 1 of year 1.
#[verifier::external_body]
pub(crate) fn ce_days_of_ymd(year: i32, month: u32, day: u32) -> (r: Option<i32>)
    ensures
        r is Some <==> valid_ymd(year as int, month as int, day as int),
        r is Some ==> r->0 == ce_day(year as int, month as int, day as int),
{
    NaiveDate::from_ymd_opt(year, month, day).map(|d| d.num_days_from_ce())
}

/// `NaiveDate::from_num_days_from_ce_opt`: the date whose day number is `n`,
/// when that date lies in chrono's range.
#[verifier::external_body]
pub(crate) fn ymd_of_ce_days(n: i32) -> (r: Option<CivilDate>)
    ensures
        r is Some <==> ce_day(min_year(), 1, 1) <= n <= ce_day(max_year(), 12, 31),
        r is Some ==> valid_date(r->0) && ce_day_of(r->0) == n,
{
    NaiveDate::from_num_days_from_ce_opt(n).map(|d| CivilDate { year: d.year(), month: d.month(), day: d.day() })
}

/// `Utc.with_ymd_and_hms(year, month, day, 0, 0, 0).single()` as a Unix
/// timestamp: midnight UTC of the date, when the date is valid.
#[verifier::external_body]
pub(crate) fn utc_midnight(year: i32, month: u32, day: u32) -> (r: Option<i64>)
    ensures
        r is Some <==> valid_ymd(year as int, month as int, day as int),
        r is Some ==> r->0 == midnight_timestamp(year as int, month as int, day as int),
{
    Utc.with_ymd_and_hms(year, month, day, 0, 0, 0).single().map(|t| t.timestamp())
}

/// `Utc::now().date_naive()`: today's UTC date.  Which date it is depends on
/// the clock; it is always a valid date.
#[verifier::external_body]
pub(crate) fn utc_today() -> (r: CivilDate)
    ensures
        valid_date(r),
{
    let d = Utc::now().date_naive();
    CivilDate { year: d.year(), month: d.month(), day: d.day() }
}

/// `Utc::now().timestamp()`: the current Unix time.  Which instant it is
/// depends on the clock; like every `DateTime` its date lies in chrono's range.
#[verifier::external_body]
pub(crate) fn utc_now_timestamp() -> (r: i64)
    ensures
        in_chrono_range(utc_day(r as int)),
{
    Utc::now().timestamp()
}

/// `DateTime::<Utc>::from_timestamp(ts, 0)` then `date_naive()`: the UTC date
/// of an instant, when chrono can represent it.
#[verifier::external_body]
pub(crate) fn utc_date_of(ts: i64) -> (r: Option<CivilDate>)
    ensures
        r is Some ==> valid_date(r->0) && ce_day_of(r->0) == utc_day(ts as int) + unix_epoch_ce_day(),
        r is Some <==> in_chrono_range(utc_day(ts as int)),
{
    chrono::DateTime::<Utc>::from_timestamp(ts, 0).map(|t| {
        let d = t.date_naive();
        CivilDate { year: d.year(), month: d.month(), day: d.day() }
    })
}

// ===== Library logic =====

/// Number of days in a month.
pub fn last_day_of_month(year: i32, month: u32) -> (r: u32)
    requires
        1 <= month <= 12,
        valid_ymd(year as int, month as int, 1),
        month == 12 ==> year + 1 <= max_year(),
    ensures
        r == days_in_month(year as int, month as int),
{
    let (next_year, next_month) = if month == 12 {
        (year + 1, 1u32)
    } else {
        (year, month + 1)
    };
    let first_of_next = ce_days_of_ymd(next_year, next_month, 1);
    proof {
        assert(valid_ymd(next_year as int, next_month as int, 1));
    }
    let first_of_next = first_of_next.unwrap();
    let ghost last = CivilDate { year, month, day: days_in_month(year as int, month as int) as u32 };
    proof {
        lemma_month_end_successor(year as int, month as int);
        assert(ce_day_of(last) + 1 == first_of_next);
        if min_year() < year {
            lemma_days_before_year_mono(min_year(), year as int);
        }
        lemma_month_end_within_year(year as int, month as int);
        if year < max_year() {
            lemma_days_before_year_mono(year as int, max_year());
        }
        lemma_month_end_within_year(max_year(), 12);
    }
    let prev = ymd_of_ce_days(first_of_next - 1);
    let prev = prev.unwrap();
    proof {
        lemma_ce_day_injective(prev, last);
    }
    prev.day
}

/// The billing date of a month: `billing_day` clamped to `1..=` the last day
/// of that month.
pub open spec fn spec_billing_date(year: int, month: int, billing_day: int) -> CivilDate {
    let d = if billing_day < 1 {
        1
    } else if billing_day > days_in_month(year, month) {
        days_in_month(year, month)
    } else {
        billing_day
    };
    CivilDate { year: year as i32, month: month as u32, day: d as u32 }
}

/// Builds the billing date of the given month, clamping the billing day to
/// the days that month has.
pub fn build_billing_date(year: i32, month: u32, billing_day: i32) -> (r: CivilDate)
    requires
        1 <= month <= 12,
        valid_ymd(year as int, month as int, 1),
        month == 12 ==> year + 1 <= max_year(),
    ensures
        r == spec_billing_date(year as int, month as int, billing_day as int),
        valid_date(r),
{
    let lower = if billing_day < 1 {
        1u32
    } else {
        billing_day as u32
    };
    let last = last_day_of_month(year, month);
    let day = if lower < last {
        lower
    } else {
        last
    };
    let d = ymd_opt(year, month, day);
    d.unwrap()
}

/// Whether `a` comes before `b`.
pub fn date_before(a: CivilDate, b: CivilDate) -> (r: bool)
    ensures
        r == date_lt(a, b),
{
    a.year < b.year || (a.year == b.year && a.month < b.month) || (a.year == b.year && a.month
        == b.month && a.day < b.day)
}

} // verus!

verus! {

/// Shared division facts for a positive divisor.
pub proof fn lemma_ceil_via_floor(t: int, l: int)
    requires
        t >= 0,
        l > 0,
    ensures
        (t + l - 1) / l == -((-t) / l),
        0 <= (t + l - 1) / l <= t,
        0 <= t / l <= t,
{
    let q = (-t) / l;
    let r = (-t) % l;
    assert(-t == q * l + r && 0 <= r < l) by (nonlinear_arith)
        requires
            l > 0,
            q == (-t) / l,
            r == (-t) % l,
    ;
    let q3 = (t + l - 1) / l;
    let r3 = (t + l - 1) % l;
    assert(t + l - 1 == q3 * l + r3 && 0 <= r3 < l) by (nonlinear_arith)
        requires
            l > 0,
            q3 == (t + l - 1) / l,
            r3 == (t + l - 1) % l,
    ;
    assert(q3 == -q) by (nonlinear_arith)
        requires
            l > 0,
            -t == q * l + r,
            0 <= r < l,
            t + l - 1 == q3 * l + r3,
            0 <= r3 < l,
    ;
    assert(0 <= q3 <= t) by (nonlinear_arith)
        requires
            l > 0,
            t >= 0,
            t + l - 1 == q3 * l + r3,
            0 <= r3 < l,
    ;
    let q4 = t / l;
    let r4 = t % l;
    assert(t == q4 * l + r4 && 0 <= r4 < l) by (nonlinear_arith)
        requires
            l > 0,
            q4 == t / l,
            r4 == t % l,
    ;
    assert(0 <= q4 <= t) by (nonlinear_arith)
        requires
            l > 0,
            t >= 0,
            t == q4 * l + r4,
            0 <= r4 < l,
    ;
}

/// The UTC day (counted from 1970-01-01) that holds a timestamp: what
/// `date_naive()` of a UTC date-time gives, as a day number.
pub fn utc_day_number(ts: i64) -> (d: i64)
    ensures
        d as int == utc_day(ts as int),
{
    if ts >= 0 {
        proof {
            lemma_ceil_via_floor(ts as int, 86400);
        }
        ts / 86400
    } else {
        let m: i128 = -(ts as i128);
        proof {
            lemma_ceil_via_floor(m as int, 86400);
            assert(-m == ts);
        }
        let c = (m + 86399) / 86400;
        (-c) as i64
    }
}

/// Whether chrono's dates can hold a day counted from 1970-01-01.
pub fn day_in_chrono_range(epoch_day: i64) -> (r: bool)
    ensures
        r == in_chrono_range(epoch_day as int),
{
    proof {
        assert(ce_day(min_year(), 1, 1) - unix_epoch_ce_day() == -96465292);
        assert(ce_day(max_year(), 12, 31) - unix_epoch_ce_day() == 95026236);
    }
    -96465292 <= epoch_day && epoch_day <= 95026236
}

/// Rust's integer division, which rounds toward zero, for a positive divisor.
pub open spec fn trunc_div(a: int, b: int) -> int
    recommends
        b > 0,
{
    if a >= 0 {
        a / b
    } else {
        -((-a) / b)
    }
}

/// `a / b` as Rust computes it on `i64`, for a positive divisor.
pub fn trunc_div_i64(a: i64, b: i64) -> (q: i64)
    requires
        b > 0,
    ensures
        q as int == trunc_div(a as int, b as int),
{
    if a >= 0 {
        proof {
            lemma_ceil_via_floor(a as int, b as int);
        }
        a / b
    } else {
        let m: i128 = -(a as i128);
        let bb: i128 = b as i128;
        proof {
            lemma_ceil_via_floor(m as int, bb as int);
        }
        let q = m / bb;
        (-q) as i64
    }
}

} // verus!

verus! {

/// chrono's `%Y`: the year zero-padded to four digits, with a sign when it
/// lies outside `0..=9999`.
pub open spec fn year_text(y: int) -> Seq<char> {
    if 0 <= y <= 9999 {
        zero_pad(decimal(y as nat), 4)
    } else if y > 9999 {
        seq!['+'] + zero_pad(decimal(y as nat), 4)
    } else {
        seq!['-'] + zero_pad(decimal((-y) as nat), 4)
    }
}

/// `%Y-%m-%d` of a date.
pub open spec fn ymd_text(c: CivilDate) -> Seq<char> {
    year_text(c.year as int) + seq!['-'] + zero_pad(decimal(c.month as nat), 2) + seq!['-']
        + zero_pad(decimal(c.day as nat), 2)
}

/// `%H:%M` of a time of day.
pub open spec fn hm_text(h: int, m: int) -> Seq<char> {
    zero_pad(decimal(h as nat), 2) + seq![':'] + zero_pad(decimal(m as nat), 2)
}

/// `NaiveDate::format("%Y-%m-%d")` of a valid date.
#[verifier::external_body]
pub(crate) fn format_ymd(c: CivilDate) -> (r: String)
    requires
        valid_date(c),
    ensures
        r@ == ymd_text(c),
{
    NaiveDate::from_ymd_opt(c.year, c.month, c.day).unwrap().format("%Y-%m-%d").to_string()
}

/// `NaiveTime::format("%H:%M")` of a time of day.
#[verifier::external_body]
pub(crate) fn format_hm(hour: u32, minute: u32) -> (r: String)
    requires
        hour < 24,
        minute < 60,
    ensures
        r@ == hm_text(hour as int, minute as int),
{
    NaiveTime::from_hms_opt(hour, minute, 0).unwrap().format("%H:%M").to_string()
}

} // verus!

verus! {

/// Days that chrono's dates can hold lie within a hundred million days of
/// 1970.
pub proof fn lemma_chrono_range_bounds(d: int)
    requires
        in_chrono_range(d),
    ensures
        -100_000_000 < d < 100_000_000,
{
    assert(days_before_year(min_year()) == -95746130);
    assert(days_before_year(max_year()) == 95745034);
}

} // verus!
