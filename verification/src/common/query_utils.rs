//! Filters shared by the list queries.
use crate::common::dates::{
    ce_day, days_in_month, lemma_month_end_successor, midnight_timestamp, unix_epoch_ce_day,
    utc_midnight, valid_ymd,
};
use crate::common::text::{opt_view, parse_i32, parse_u32, spec_parse_i32, spec_parse_u32};
use vstd::prelude::*;

verus! {

/// The month after `(year, month)`.
pub open spec fn next_month(year: int, month: int) -> (int, int) {
    if month == 12 {
        (year + 1, 1)
    } else {
        (year, month + 1)
    }
}

/// The `[start, end)` range (midnight UTC of the first day of the month and
/// of the next month) of a month filter, when both parts parse, the month
/// is 1 to 12 and both days lie in chrono's range.
pub open spec fn spec_month_year_range(month: Option<Seq<char>>, year: Option<Seq<char>>) -> Option<(int, int)> {
    match (month, year) {
        (Some(mt), Some(yt)) => match (spec_parse_u32(mt), spec_parse_i32(yt)) {
            (Some(m), Some(y)) => {
                let (ny, nm) = next_month(y as int, m as int);
                if 1 <= m <= 12 && valid_ymd(y as int, m as int, 1) && valid_ymd(ny, nm, 1) {
                    Some((midnight_timestamp(y as int, m as int, 1), midnight_timestamp(ny, nm, 1)))
                } else {
                    None
                }
            },
            _ => None,
        },
        _ => None,
    }
}

/// Resolves a month/year filter pair into the UTC range of that month.
pub fn month_year_range(month: Option<&str>, year: Option<&str>) -> (r: Option<(i64, i64)>)
    ensures
        match spec_month_year_range(opt_view(month), opt_view(year)) {
            Some((s, e)) => r == Some((s as i64, e as i64)),
            None => r is None,
        },
{
    let m = match month {
        Some(t) => match parse_u32(t) {
            Some(m) => m,
            None => return None,
        },
        None => return None,
    };
    let y = match year {
        Some(t) => match parse_i32(t) {
            Some(y) => y,
            None => return None,
        },
        None => return None,
    };
    if m < 1 || m > 12 {
        return None;
    }
    let (ny, nm) = if m == 12 {
        if y == i32::MAX {
            return None;
        }
        (y + 1, 1u32)
    } else {
        (y, m + 1)
    };
    let start = match utc_midnight(y, m, 1) {
        Some(s) => s,
        None => return None,
    };
    let end = match utc_midnight(ny, nm, 1) {
        Some(e) => e,
        None => return None,
    };
    Some((start, end))
}

/// Rows skipped before a page: `(page - 1) * limit`.
pub fn page_offset(page: i64, limit: i64) -> (r: i64)
    requires
        page > i64::MIN,
        i64::MIN <= (page - 1) * limit <= i64::MAX,
    ensures
        r == (page - 1) * limit,
{
    (page - 1) * limit
}

/// The `ILIKE` pattern that matches texts containing `text`.
pub fn like_pattern(text: &str) -> (r: String)
    ensures
        r@ == "%"@ + text@ + "%"@,
{
    let mut p = String::from_str("%");
    p.append(text);
    p.append("%");
    p
}

/// A month's range runs from its first midnight to the next month's, which
/// is the month's number of days later.
pub proof fn law_month_range_spans_month(month: Option<Seq<char>>, year: Option<Seq<char>>)
    ensures
        spec_month_year_range(month, year) matches Some((s, e)) ==> ({
            let m = spec_parse_u32(month->0)->0 as int;
            let y = spec_parse_i32(year->0)->0 as int;
            e - s == days_in_month(y, m) * 86400 && s < e
        }),
{
    if let Some((s, e)) = spec_month_year_range(month, year) {
        let m = spec_parse_u32(month->0)->0 as int;
        let y = spec_parse_i32(year->0)->0 as int;
        lemma_month_end_successor(y, m);
        let (ny, nm) = next_month(y, m);
        assert(ce_day(ny, nm, 1) - ce_day(y, m, 1) == days_in_month(y, m));
        assert(e - s == (ce_day(ny, nm, 1) - ce_day(y, m, 1)) * 86400) by (nonlinear_arith)
            requires
                s == (ce_day(y, m, 1) - unix_epoch_ce_day()) * 86400,
                e == (ce_day(ny, nm, 1) - unix_epoch_ce_day()) * 86400,
        ;
    }
}

} // verus!
