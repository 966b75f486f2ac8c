//! Holidays fetched from the Bank of Thailand calendar, and personal events
//! that are split into one entry per local day.
use crate::common::dates::{
    utc_now_timestamp, day_in_chrono_range,
    CivilDate, ce_day_of, format_hm, format_ymd, hm_text, in_chrono_range, unix_epoch_ce_day,
    utc_date_of, utc_day, utc_day_number, utc_midnight, valid_date, valid_ymd, ymd_text,
    midnight_timestamp, ce_day, min_year, max_year, lemma_chrono_range_bounds, lemma_ce_day_injective,
};
use crate::common::errors::{
    AppError, bad_request, forbidden, not_found, rejects_bad_request, rejects_forbidden,
    rejects_not_found,
};
use crate::common::text::{
    int_text, is_ws, i32_text, opt_string_view, opt_view, parse_i32, parse_u32, spec_parse_i32,
    spec_parse_u32, str_eq, str_trim, trailing_ws, trimmed,
};
use crate::common::validation::{
    FieldError, Issue, issues, issue_if, char_len, email_valid, check_trimmed_len, check_max_chars,
    check_length, check_range, check_email,
};
use vstd::prelude::*;

verus! {

broadcast use vstd::seq_lib::group_seq_properties;

/// Request to fetch the holiday calendar from a URL.
pub struct FetchHolidayRequest {
    pub path: String,
}

/// One holiday as the Bank of Thailand lists it: a description and the day,
/// Thai month name and Buddhist-era year as text.
pub struct BotHolidayItem {
    pub holiday_description: String,
    pub date: String,
    pub month: String,
    pub year: String,
}

/// The list of holidays the calendar service answers with.
pub struct BotHolidayResponse {
    pub holiday_calendar_lists: Vec<BotHolidayItem>,
}

pub struct FetchHolidayResult {
    pub inserted_count: i64,
}

pub struct HolidayFilterQuery {
    pub year: Option<String>,
    pub month: Option<String>,
}

pub struct EventFilterQuery {
    pub year: Option<String>,
    pub month: Option<String>,
    pub tag: Option<String>,
}

/// A stored holiday (its date is a Unix timestamp).
pub struct Holiday {
    pub id: u128,
    pub holiday_description: String,
    pub holiday_date: i64,
    pub holiday_year: String,
    pub created_at: i64,
    pub updated_at: i64,
}

/// A holiday to store.
pub struct NewHoliday {
    pub holiday_description: String,
    pub holiday_date: i64,
    pub holiday_year: String,
}

pub struct HolidayResponse {
    pub id: u128,
    pub holiday_description: String,
    pub holiday_date: i64,
    pub holiday_year: String,
}

pub struct NextHolidayInfo {
    pub holiday_description: String,
    pub holiday_date: i64,
    pub days_until: i64,
}

pub struct HolidayStats {
    pub total_holidays_this_year: i64,
    pub total_holidays_this_month: i64,
    pub next_upcoming_holiday: Option<NextHolidayInfo>,
    pub remaining_holidays_this_year: i64,
}

pub struct HolidayListResponse {
    pub items: Vec<HolidayResponse>,
    pub stats: HolidayStats,
}

/// An instant together with the UTC offset (in seconds east) it was written
/// in, as a date-time with a fixed offset carries it.
#[derive(Clone, Copy, PartialEq, Eq, Debug, Structural)]
pub struct OffsetDateTime {
    pub timestamp: i64,
    pub offset_seconds: i32,
}

pub struct CreateEventRequest {
    pub title: String,
    pub description: Option<String>,
    pub start_date: OffsetDateTime,
    pub end_date: OffsetDateTime,
    pub tag: String,
}

pub struct UpdateEventRequest {
    pub user_id: u128,
    pub title: String,
    pub description: Option<String>,
    pub start_date: OffsetDateTime,
    pub end_date: OffsetDateTime,
    pub tag: String,
}

/// A stored event.
pub struct Event {
    pub id: u128,
    pub user_id: u128,
    pub title: String,
    pub description: Option<String>,
    pub start_date: i64,
    pub end_date: i64,
    pub tag: String,
    pub created_at: i64,
    pub updated_at: i64,
}

/// An event to store.
pub struct NewEvent {
    pub user_id: u128,
    pub title: String,
    pub description: Option<String>,
    pub start_date: i64,
    pub end_date: i64,
    pub tag: String,
}

/// The changes an edit of an event stores.
pub struct UpdateEvent {
    pub title: String,
    pub description: Option<String>,
    pub start_date: i64,
    pub end_date: i64,
    pub tag: String,
}

pub struct EventResponse {
    pub id: u128,
    pub user_id: u128,
    pub title: String,
    pub description: Option<String>,
    pub start_date: i64,
    pub end_date: i64,
    pub tag: String,
    pub date: String,
    pub time: String,
}

pub struct EventListResponse {
    pub items: Vec<EventResponse>,
    pub total_events: i64,
}

/// Service of holidays and events.
pub struct CalendarService;

// ===== Thai calendar text =====

/// Number of a Thai month name.
pub open spec fn spec_thai_month(m: Seq<char>) -> Option<u32> {
    if m == "มกราคม"@ {
        Some(1u32)
    } else if m == "กุมภาพันธ์"@ {
        Some(2u32)
    } else if m == "มีนาคม"@ {
        Some(3u32)
    } else if m == "เมษายน"@ {
        Some(4u32)
    } else if m == "พฤษภาคม"@ {
        Some(5u32)
    } else if m == "มิถุนายน"@ {
        Some(6u32)
    } else if m == "กรกฎาคม"@ {
        Some(7u32)
    } else if m == "สิงหาคม"@ {
        Some(8u32)
    } else if m == "กันยายน"@ {
        Some(9u32)
    } else if m == "ตุลาคม"@ {
        Some(10u32)
    } else if m == "พฤศจิกายน"@ {
        Some(11u32)
    } else if m == "ธันวาคม"@ {
        Some(12u32)
    } else {
        None
    }
}

/// The number of a Thai month name, or `None` for any other text.
pub fn thai_month_to_number(month: &str) -> (r: Option<u32>)
    ensures
        r == spec_thai_month(month@),
{
    if str_eq(month, "มกราคม") {
        Some(1)
    } else if str_eq(month, "กุมภาพันธ์") {
        Some(2)
    } else if str_eq(month, "มีนาคม") {
        Some(3)
    } else if str_eq(month, "เมษายน") {
        Some(4)
    } else if str_eq(month, "พฤษภาคม") {
        Some(5)
    } else if str_eq(month, "มิถุนายน") {
        Some(6)
    } else if str_eq(month, "กรกฎาคม") {
        Some(7)
    } else if str_eq(month, "สิงหาคม") {
        Some(8)
    } else if str_eq(month, "กันยายน") {
        Some(9)
    } else if str_eq(month, "ตุลาคม") {
        Some(10)
    } else if str_eq(month, "พฤศจิกายน") {
        Some(11)
    } else if str_eq(month, "ธันวาคม") {
        Some(12)
    } else {
        None
    }
}

/// Number of non-whitespace characters at the end of `s`.
pub open spec fn trailing_word_len(s: Seq<char>) -> nat
    decreases s.len(),
{
    if s.len() > 0 && !is_ws(s.last()) {
        1 + trailing_word_len(s.drop_last())
    } else {
        0
    }
}

/// `split_whitespace().last()`: the last run of non-whitespace characters.
pub open spec fn last_word(s: Seq<char>) -> Option<Seq<char>> {
    let t = s.take(s.len() - trailing_ws(s));
    if t.len() == 0 {
        None
    } else {
        Some(t.skip(t.len() - trailing_word_len(t)))
    }
}

/// `str::split_whitespace` then `Iterator::last`: the last whitespace-separated
/// word.
#[verifier::external_body]
fn last_whitespace_word(s: &str) -> (r: Option<&str>)
    ensures
        opt_view(r) == last_word(s@),
{
    s.split_whitespace().last()
}

/// The Gregorian year of a Buddhist-era year (543 years earlier).
pub open spec fn gregorian_of(be: Seq<char>) -> Option<int> {
    match spec_parse_i32(trimmed(be)) {
        Some(y) => Some(y - 543),
        None => None,
    }
}

#[verifier::opaque]
/// The instant (midnight UTC) of a listed holiday: the day is the last word
/// of `date`, the month its Thai name, the year Buddhist era; `None` when any
/// part does not parse or the date does not exist.
pub open spec fn spec_parse_holiday_date(item: BotHolidayItem) -> Option<int> {
    match last_word(item.date@) {
        None => None,
        Some(dw) => match spec_parse_u32(dw) {
            None => None,
            Some(day) => match spec_thai_month(trimmed(item.month@)) {
                None => None,
                Some(m) => match gregorian_of(item.year@) {
                    None => None,
                    Some(y) => if valid_ymd(y, m as int, day as int) {
                        Some(midnight_timestamp(y, m as int, day as int))
                    } else {
                        None
                    },
                },
            },
        },
    }
}

impl BotHolidayItem {
    /// Midnight UTC of the listed day (see `spec_parse_holiday_date`).
    pub fn parse_date(&self) -> (r: Option<i64>)
        ensures
            match spec_parse_holiday_date(*self) {
                Some(t) => r == Some(t as i64),
                None => r is None,
            },
    {
        proof {
            reveal(spec_parse_holiday_date);
        }
        let word = last_whitespace_word(self.date.as_str());
        let word = match word {
            Some(w) => w,
            None => return None,
        };
        let day = match parse_u32(word) {
            Some(d) => d,
            None => return None,
        };
        let month_num = match thai_month_to_number(str_trim(self.month.as_str())) {
            Some(m) => m,
            None => return None,
        };
        let be_year = match parse_i32(str_trim(self.year.as_str())) {
            Some(y) => y,
            None => return None,
        };
        if be_year < i32::MIN + 543 {
            return None;
        }
        utc_midnight(be_year - 543, month_num, day)
    }
}

/// Message of a holiday whose date cannot be read.
pub open spec fn unparsable_date_message(item: BotHolidayItem) -> Seq<char> {
    "Unable to parse date: "@ + item.date@ + " "@ + item.month@ + " "@ + item.year@
}

/// The message of a holiday whose date cannot be read.
fn unparsable_date_text(item: &BotHolidayItem) -> (r: String)
    ensures
        r@ == unparsable_date_message(*item),
{
    let mut msg = String::from_str("Unable to parse date: ");
    msg.append(item.date.as_str());
    msg.append(" ");
    msg.append(item.month.as_str());
    msg.append(" ");
    msg.append(item.year.as_str());
    msg
}

/// The year under which a holiday is stored: its Gregorian year as text.
#[verifier::opaque]
pub open spec fn holiday_year_text(item: BotHolidayItem) -> Seq<char> {
    match gregorian_of(item.year@) {
        Some(y) => int_text(y),
        None => int_text(-543),
    }
}

/// The instant and the stored year of one listed holiday.
fn holiday_of(item: &BotHolidayItem) -> (r: Option<(i64, String)>)
    ensures
        spec_parse_holiday_date(*item) is None ==> r is None,
        spec_parse_holiday_date(*item) is Some ==> r is Some && (r->0).0 == spec_parse_holiday_date(
            *item,
        )->0 && (r->0).1@ == holiday_year_text(*item),
{
    let date = match item.parse_date() {
        Some(d) => d,
        None => return None,
    };
    proof {
        reveal(spec_parse_holiday_date);
        reveal(holiday_year_text);
    }
    let be = match parse_i32(str_trim(item.year.as_str())) {
        Some(y) => y,
        None => 0,
    };
    let year_text = i32_text(be - 543);
    Some((date, year_text))
}

/// No two years of the list have the same text.
pub open spec fn unique_texts(v: Seq<String>) -> bool {
    forall|j: int, k: int| 0 <= j < k < v.len() ==> v[j]@ != v[k]@
}

/// Some year of the list has the text `t`.
pub open spec fn year_listed(years: Seq<String>, t: Seq<char>) -> bool {
    exists|j: int| 0 <= j < years.len() && years[j]@ == t
}

/// Some of the first `n` items is stored under the year `t`.
pub open spec fn year_of_some_item(items: Seq<BotHolidayItem>, n: int, t: Seq<char>) -> bool {
    exists|k: int| 0 <= k < n && holiday_year_text(items[k]) == t
}

/// Adds `y` to the list unless a year with that text is there already.
fn add_year(years: &mut Vec<String>, y: String)
    requires
        unique_texts(old(years)@),
    ensures
        unique_texts(final(years)@),
        final(years)@.len() >= old(years)@.len(),
        forall|j: int| 0 <= j < old(years)@.len() ==> final(years)@[j] == old(years)@[j],
        forall|j: int| old(years)@.len() <= j < final(years)@.len() ==> final(years)@[j]@ == y@,
        year_listed(final(years)@, y@),
{
    let mut found = false;
    let mut j: usize = 0;
    while j < years.len()
        invariant
            0 <= j <= years@.len(),
            years@ == old(years)@,
            !found ==> forall|k: int| 0 <= k < j ==> years@[k]@ != y@,
            found ==> year_listed(years@, y@),
        decreases years@.len() - j,
    {
        if str_eq(years[j].as_str(), y.as_str()) {
            found = true;
        }
        j = j + 1;
    }
    if !found {
        years.push(y);
        proof {
            assert(years@[years@.len() - 1]@ == y@);
        }
    }
}

impl CalendarService {
    /// The holidays to store and the years whose old holidays are replaced:
    /// one holiday per item in order, each year once.  The first item whose
    /// date cannot be read is answered with `BadRequest`.
    pub fn prepare_holidays(items: &[BotHolidayItem]) -> (r: Result<(Vec<NewHoliday>, Vec<String>), AppError>)
        ensures
            (forall|i: int| 0 <= i < items@.len() ==> spec_parse_holiday_date(#[trigger] items@[i]) is Some) ==> (
            r matches Ok((hs, years)) && hs@.len() == items@.len() && (forall|i: int|
                0 <= i < items@.len() ==> {
                    &&& (#[trigger] hs@[i]).holiday_description == items@[i].holiday_description
                    &&& hs@[i].holiday_date == spec_parse_holiday_date(items@[i])->0
                    &&& hs@[i].holiday_year@ == holiday_year_text(items@[i])
                }) && (forall|i: int| 0 <= i < items@.len() ==> year_listed(years@, holiday_year_text(#[trigger] items@[i])))
                && unique_texts(years@)
                && (forall|j: int| 0 <= j < years@.len() ==> year_of_some_item(items@, items@.len() as int, (#[trigger] years@[j])@))),
            forall|i: int|
                0 <= i < items@.len() && spec_parse_holiday_date(#[trigger] items@[i]) is None
                    && (forall|k: int| 0 <= k < i ==> spec_parse_holiday_date(#[trigger] items@[k]) is Some)
                    ==> rejects_bad_request(r, unparsable_date_message(items@[i])),
    {
        let mut holidays: Vec<NewHoliday> = Vec::new();
        let mut years: Vec<String> = Vec::new();
        let n = items.len();
        let mut i: usize = 0;
        while i < n
            invariant
                n == items@.len(),
                0 <= i <= n,
                holidays@.len() == i,
                forall|k: int| 0 <= k < i ==> spec_parse_holiday_date(#[trigger] items@[k]) is Some,
                forall|k: int|
                    0 <= k < i ==> {
                        &&& (#[trigger] holidays@[k]).holiday_description == items@[k].holiday_description
                        &&& holidays@[k].holiday_date == spec_parse_holiday_date(items@[k])->0
                        &&& holidays@[k].holiday_year@ == holiday_year_text(items@[k])
                    },
                forall|k: int| 0 <= k < i ==> year_listed(years@, holiday_year_text(#[trigger] items@[k])),
                unique_texts(years@),
                forall|j: int| 0 <= j < years@.len() ==> year_of_some_item(items@, i as int, (#[trigger] years@[j])@),
            decreases n - i,
        {
            let item = &items[i];
            let (date, year_text) = match holiday_of(item) {
                Some(h) => h,
                None => {
                    proof {
                        assert(spec_parse_holiday_date(items@[i as int]) is None);
                    }
                    let r = Err(AppError::BadRequest(unparsable_date_text(item)));
                    proof {
                        assert forall|k: int|
                            0 <= k < items@.len() && spec_parse_holiday_date(#[trigger] items@[k]) is None
                                && (forall|m: int| 0 <= m < k ==> spec_parse_holiday_date(#[trigger] items@[m]) is Some)
                                implies rejects_bad_request(r, unparsable_date_message(items@[k])) by {
                            if k > i {
                                assert(spec_parse_holiday_date(items@[i as int]) is Some);
                            }
                        }
                    }
                    return r;
                },
            };
            let ghost old_years = years@;
            add_year(&mut years, year_text.clone());
            proof {
                assert(year_text@ == holiday_year_text(items@[i as int]));
                assert forall|k: int| 0 <= k < i + 1 implies year_listed(years@, holiday_year_text(#[trigger] items@[k])) by {
                    if k < i {
                        assert(year_listed(old_years, holiday_year_text(items@[k])));
                        let j = choose|j: int| 0 <= j < old_years.len() && old_years[j]@ == holiday_year_text(items@[k]);
                        assert(years@[j] == old_years[j]);
                    }
                }
                assert forall|a: int| 0 <= a < years@.len() implies year_of_some_item(items@, i + 1, (#[trigger] years@[a])@) by {
                    if a < old_years.len() {
                        assert(years@[a] == old_years[a]);
                        assert(year_of_some_item(items@, i as int, old_years[a]@));
                        let k = choose|k: int| 0 <= k < i && holiday_year_text(items@[k]) == old_years[a]@;
                        assert(0 <= k < i + 1 && holiday_year_text(items@[k]) == years@[a]@);
                    } else {
                        assert(years@[a]@ == holiday_year_text(items@[i as int]));
                    }
                }
            }
            holidays.push(
                NewHoliday {
                    holiday_description: item.holiday_description.clone(),
                    holiday_date: date,
                    holiday_year: year_text,
                },
            );
            proof {
                assert(holidays@[i as int].holiday_year@ == holiday_year_text(items@[i as int]));
            }
            i = i + 1;
        }
        Ok((holidays, years))
    }
}

// ===== Events =====

/// The local calendar day (counted from 1970-01-01) of a date-time in its own
/// offset: `date_naive()`.
pub open spec fn local_day(t: OffsetDateTime) -> int {
    utc_day(t.timestamp + t.offset_seconds)
}

/// A date-time that chrono can hold: its offset lies within a day and its
/// local day within chrono's dates.
pub open spec fn valid_offset_date_time(t: OffsetDateTime) -> bool {
    &&& -86400 < t.offset_seconds < 86400
    &&& in_chrono_range(local_day(t))
    &&& in_chrono_range(utc_day(t.timestamp as int))
}

/// Start (UTC) of the part of an event that falls on local day `d`: the
/// event's own start on its first day, else local midnight in the start's
/// offset.
pub open spec fn segment_start(start: OffsetDateTime, end: OffsetDateTime, d: int) -> int {
    if d == local_day(start) {
        start.timestamp as int
    } else {
        d * 86400 - start.offset_seconds
    }
}

/// End (UTC) of the part of an event that falls on local day `d`: the
/// event's own end on its last day, else 23:59 local time in the start's
/// offset.
pub open spec fn segment_end(start: OffsetDateTime, end: OffsetDateTime, d: int) -> int {
    if d == local_day(end) {
        end.timestamp as int
    } else {
        d * 86400 + 86340 - start.offset_seconds
    }
}

/// Number of local days from the start's day to the end's day.
pub open spec fn segment_count(start: OffsetDateTime, end: OffsetDateTime) -> int {
    if local_day(start) <= local_day(end) {
        local_day(end) - local_day(start) + 1
    } else {
        0
    }
}

/// The `k`-th stored part of an event is the part of local day
/// `local_day(start) + k`, with the request's text.
pub open spec fn is_segment(e: NewEvent, user_id: u128, payload: CreateEventRequest, k: int) -> bool {
    let d = local_day(payload.start_date) + k;
    &&& e.user_id == user_id
    &&& e.title@ == payload.title@
    &&& opt_string_view(e.description) == opt_string_view(payload.description)
    &&& e.tag@ == payload.tag@
    &&& e.start_date == segment_start(payload.start_date, payload.end_date, d)
    &&& e.end_date == segment_end(payload.start_date, payload.end_date, d)
}

/// Days within chrono's range are within a hundred million days of 1970, so
/// the seconds of a day fit in an `i64`.
proof fn lemma_local_seconds_bound(ts: int, off: int)
    requires
        in_chrono_range(utc_day(ts + off)),
    ensures
        -100_000_000 * 86400 <= ts + off < 100_000_000 * 86400,
{
    lemma_chrono_range_bounds(utc_day(ts + off));
    let q = (ts + off) / 86400;
    assert(-100_000_000 * 86400 <= ts + off < 100_000_000 * 86400) by (nonlinear_arith)
        requires
            q == (ts + off) / 86400,
            -100_000_000 < q < 100_000_000,
    ;
}

fn clone_description(s: &Option<String>) -> (r: Option<String>)
    ensures
        opt_string_view(r) == opt_string_view(*s),
{
    match s {
        Some(x) => Some(x.clone()),
        None => None,
    }
}

/// One stored event per local day from the start's day to the end's day:
/// the first part starts at the event's start, the last ends at its end,
/// the days between run from local midnight to 23:59 in the start's offset.
pub fn split_into_daily_events(user_id: u128, payload: &CreateEventRequest) -> (r: Vec<NewEvent>)
    requires
        valid_offset_date_time(payload.start_date),
        valid_offset_date_time(payload.end_date),
        local_day(payload.start_date) <= local_day(payload.end_date) ==> in_chrono_range(
            local_day(payload.end_date) + 1,
        ),
    ensures
        r@.len() == segment_count(payload.start_date, payload.end_date),
        forall|k: int| 0 <= k < r@.len() ==> is_segment(#[trigger] r@[k], user_id, *payload, k),
{
    let start = payload.start_date;
    let end = payload.end_date;
    let off = start.offset_seconds;
    proof {
        lemma_local_seconds_bound(start.timestamp as int, start.offset_seconds as int);
        lemma_local_seconds_bound(end.timestamp as int, end.offset_seconds as int);
        lemma_chrono_range_bounds(local_day(start));
        lemma_chrono_range_bounds(local_day(end));
    }
    let sd = utc_day_number(start.timestamp + start.offset_seconds as i64);
    let ed = utc_day_number(end.timestamp + end.offset_seconds as i64);
    let mut result: Vec<NewEvent> = Vec::new();
    let mut d: i64 = sd;
    while d <= ed
        invariant
            sd == local_day(start),
            ed == local_day(end),
            start == payload.start_date,
            end == payload.end_date,
            off == start.offset_seconds,
            -86400 < off < 86400,
            -100_000_000 < sd < 100_000_000,
            -100_000_000 < ed < 100_000_000,
            sd <= d,
            d <= ed + 1 || d == sd,
            result@.len() == d - sd,
            forall|k: int| 0 <= k < result@.len() ==> is_segment(#[trigger] result@[k], user_id, *payload, k),
        decreases ed + 1 - d,
    {
        let seg_start: i64 = if d == sd {
            start.timestamp
        } else {
            d * 86400 - off as i64
        };
        let seg_end: i64 = if d == ed {
            end.timestamp
        } else {
            d * 86400 + 86340 - off as i64
        };
        result.push(
            NewEvent {
                user_id,
                title: payload.title.clone(),
                description: clone_description(&payload.description),
                start_date: seg_start,
                end_date: seg_end,
                tag: payload.tag.clone(),
            },
        );
        proof {
            assert(is_segment(result@[result@.len() - 1], user_id, *payload, d - sd));
        }
        d = d + 1;
    }
    result
}

/// The date whose day number (counted from January 1 of year 1) is `n`.
pub open spec fn civil_of_ce_day(n: int) -> CivilDate {
    choose|c: CivilDate| valid_date(c) && ce_day_of(c) == n
}

/// Seconds east of UTC of Bangkok time, in which events are shown.
pub open spec fn bangkok_offset() -> int {
    25200
}

/// `%Y-%m-%d` of the Bangkok date of an instant.
pub open spec fn bangkok_date_text(ts: int) -> Seq<char> {
    ymd_text(civil_of_ce_day(utc_day(ts + bangkok_offset()) + unix_epoch_ce_day()))
}

/// `%H:%M` of the Bangkok time of day of an instant.
pub open spec fn bangkok_time_text(ts: int) -> Seq<char> {
    let s = (ts + bangkok_offset()) % 86400;
    hm_text(s / 3600, (s % 3600) / 60)
}

/// A stored instant that chrono can show in Bangkok time.
pub open spec fn showable_in_bangkok(ts: int) -> bool {
    in_chrono_range(utc_day(ts + bangkok_offset()))
}

/// Whether a stored instant can be shown in Bangkok time.
pub fn showable(ts: i64) -> (r: bool)
    ensures
        r == showable_in_bangkok(ts as int),
{
    if ts > i64::MAX - 25200 {
        proof {
            assert(utc_day(ts + bangkok_offset()) > 95026236);
        }
        return false;
    }
    day_in_chrono_range(utc_day_number(ts + 25200))
}

/// Whether a date-time can be held by chrono (see `valid_offset_date_time`).
pub fn valid_date_time(t: OffsetDateTime) -> (r: bool)
    ensures
        r == valid_offset_date_time(t),
{
    if t.offset_seconds <= -86400 || t.offset_seconds >= 86400 {
        return false;
    }
    let local: i128 = t.timestamp as i128 + t.offset_seconds as i128;
    if local > i64::MAX as i128 || local < i64::MIN as i128 {
        proof {
            assert(!in_chrono_range(local_day(t)));
        }
        return false;
    }
    day_in_chrono_range(utc_day_number(local as i64)) && day_in_chrono_range(utc_day_number(t.timestamp))
}

/// Whether a new event can be split into daily parts: both ends are
/// date-times chrono holds, and so is the day after the last one.
pub fn splittable(payload: &CreateEventRequest) -> (r: bool)
    ensures
        r == (valid_offset_date_time(payload.start_date) && valid_offset_date_time(payload.end_date)
            && (local_day(payload.start_date) <= local_day(payload.end_date) ==> in_chrono_range(
            local_day(payload.end_date) + 1,
        ))),
{
    if !valid_date_time(payload.start_date) || !valid_date_time(payload.end_date) {
        return false;
    }
    proof {
        lemma_local_seconds_bound(payload.start_date.timestamp as int, payload.start_date.offset_seconds as int);
        lemma_local_seconds_bound(payload.end_date.timestamp as int, payload.end_date.offset_seconds as int);
        lemma_chrono_range_bounds(local_day(payload.start_date));
        lemma_chrono_range_bounds(local_day(payload.end_date));
    }
    let sd = utc_day_number(payload.start_date.timestamp + payload.start_date.offset_seconds as i64);
    let ed = utc_day_number(payload.end_date.timestamp + payload.end_date.offset_seconds as i64);
    sd > ed || day_in_chrono_range(ed + 1)
}

/// An event as answered: its fields, the Bangkok date of its end and the
/// Bangkok time of its start.
pub fn event_to_response(e: Event) -> (r: EventResponse)
    requires
        showable_in_bangkok(e.start_date as int),
        showable_in_bangkok(e.end_date as int),
    ensures
        r.id == e.id,
        r.user_id == e.user_id,
        r.title == e.title,
        r.description == e.description,
        r.start_date == e.start_date,
        r.end_date == e.end_date,
        r.tag == e.tag,
        r.date@ == bangkok_date_text(e.end_date as int),
        r.time@ == bangkok_time_text(e.start_date as int),
{
    proof {
        lemma_local_seconds_bound(e.end_date as int, 25200);
        lemma_local_seconds_bound(e.start_date as int, 25200);
    }
    let date = match utc_date_of(e.end_date + 25200) {
        Some(c) => c,
        None => {
            proof {
                assert(false);
            }
            CivilDate { year: 1970, month: 1, day: 1 }
        },
    };
    proof {
        let n = utc_day(e.end_date + 25200) + unix_epoch_ce_day();
        let c = civil_of_ce_day(n);
        assert(valid_date(date) && ce_day_of(date) == n);
        assert(valid_date(c) && ce_day_of(c) == n);
        lemma_ce_day_injective(date, c);
    }
    let date_text = format_ymd(date);
    let local = e.start_date + 25200;
    let s = if local >= 0 {
        local % 86400
    } else {
        let m = (-local) % 86400;
        if m == 0 {
            0
        } else {
            86400 - m
        }
    };
    proof {
        let li = local as int;
        if li < 0 {
            let m = (-li) % 86400;
            let q = (-li) / 86400;
            assert(-li == q * 86400 + m && 0 <= m < 86400) by (nonlinear_arith)
                requires
                    q == (-li) / 86400,
                    m == (-li) % 86400,
            ;
            if m == 0 {
                assert(li == (-q) * 86400);
                assert(li % 86400 == 0) by (nonlinear_arith)
                    requires
                        li == (-q) * 86400,
                ;
            } else {
                assert(li == (-q - 1) * 86400 + (86400 - m));
                assert(li % 86400 == 86400 - m) by (nonlinear_arith)
                    requires
                        li == (-q - 1) * 86400 + (86400 - m),
                        0 < 86400 - m < 86400,
                ;
            }
        }
        assert(s == li % 86400);
    }
    let hour = (s / 3600) as u32;
    let minute = ((s % 3600) / 60) as u32;
    let time_text = format_hm(hour, minute);
    EventResponse {
        id: e.id,
        user_id: e.user_id,
        title: e.title,
        description: e.description,
        start_date: e.start_date,
        end_date: e.end_date,
        tag: e.tag,
        date: date_text,
        time: time_text,
    }
}

// ===== Holiday and event queries =====

/// A month filter: absent, or text that must parse as a month number.
pub open spec fn month_filter_ok(month: Option<Seq<char>>, r: Result<Option<u32>, AppError>) -> bool {
    match month {
        None => r == Ok::<Option<u32>, AppError>(None),
        Some(m) => match spec_parse_u32(m) {
            None => rejects_bad_request(r, "month must be a number between 1 and 12"@),
            Some(v) => if 1 <= v <= 12 {
                r == Ok::<Option<u32>, AppError>(Some(v))
            } else {
                rejects_bad_request(r, "month must be between 1 and 12"@)
            },
        },
    }
}

/// Reads a month filter: a number from 1 to 12, or absent.
pub fn parse_month_filter(month: Option<&str>) -> (r: Result<Option<u32>, AppError>)
    ensures
        month_filter_ok(opt_view(month), r),
{
    match month {
        None => Ok(None),
        Some(m) => match parse_u32(m) {
            None => Err(bad_request("month must be a number between 1 and 12")),
            Some(v) => if 1 <= v && v <= 12 {
                Ok(Some(v))
            } else {
                Err(bad_request("month must be between 1 and 12"))
            },
        },
    }
}

fn as_opt_str(s: &Option<String>) -> (r: Option<&str>)
    ensures
        opt_view(r) == opt_string_view(*s),
{
    match s {
        Some(x) => Some(x.as_str()),
        None => None,
    }
}

/// The UTC date of an instant.
pub open spec fn utc_civil(ts: int) -> CivilDate {
    civil_of_ce_day(utc_day(ts) + unix_epoch_ce_day())
}

/// The UTC date of an instant that chrono can hold.
fn civil_of_instant(ts: i64) -> (c: CivilDate)
    requires
        in_chrono_range(utc_day(ts as int)),
    ensures
        c == utc_civil(ts as int),
        valid_date(c),
{
    let c = match utc_date_of(ts) {
        Some(c) => c,
        None => {
            proof {
                assert(false);
            }
            CivilDate { year: 1970, month: 1, day: 1 }
        },
    };
    proof {
        let n = utc_day(ts as int) + unix_epoch_ce_day();
        let d = civil_of_ce_day(n);
        assert(valid_date(c) && ce_day_of(c) == n);
        assert(valid_date(d) && ce_day_of(d) == n);
        lemma_ce_day_injective(c, d);
    }
    c
}

/// The month filter of a holiday query, or its error.
pub open spec fn query_month(r: Result<(String, Option<u32>), AppError>) -> Result<Option<u32>, AppError> {
    match r {
        Ok(q) => Ok(q.1),
        Err(e) => Err(e),
    }
}

pub open spec fn query_month_at(r: Result<(String, Option<u32>, i64), AppError>) -> Result<Option<u32>, AppError> {
    match r {
        Ok(q) => Ok(q.1),
        Err(e) => Err(e),
    }
}

impl CalendarService {
    /// The year whose holidays are listed (the given text, else the current
    /// UTC year) and the month filter.
    pub fn holiday_query(year: Option<String>, month: Option<String>, now_ts: i64) -> (r: Result<(String, Option<u32>), AppError>)
        requires
            in_chrono_range(utc_day(now_ts as int)),
        ensures
            month_filter_ok(opt_string_view(month), query_month(r)),
            r is Ok ==> (r->Ok_0).0@ == match year {
                Some(y) => y@,
                None => int_text(utc_civil(now_ts as int).year as int),
            },
    {
        let m = match parse_month_filter(as_opt_str(&month)) {
            Ok(m) => m,
            Err(e) => return Err(e),
        };
        let y = match year {
            Some(y) => y,
            None => i32_text(civil_of_instant(now_ts).year),
        };
        Ok((y, m))
    }

    /// `holiday_query` at the current time, which is returned with it.
    pub fn holiday_query_now(year: Option<String>, month: Option<String>) -> (r: Result<(String, Option<u32>, i64), AppError>)
        ensures
            month_filter_ok(opt_string_view(month), query_month_at(r)),
            r is Ok ==> {
                let (y, _, now) = r->Ok_0;
                &&& in_chrono_range(utc_day(now as int))
                &&& y@ == match year {
                    Some(t) => t@,
                    None => int_text(utc_civil(now as int).year as int),
                }
            },
    {
        let now = utc_now_timestamp();
        match Self::holiday_query(year, month, now) {
            Ok((y, m)) => Ok((y, m, now)),
            Err(e) => Err(e),
        }
    }
}

/// The month (1 to 12) of the UTC date of an instant.
pub open spec fn utc_month(ts: int) -> int {
    utc_civil(ts).month as int
}

/// Number of holidays whose UTC date falls in month `m`.
pub open spec fn count_in_month(hs: Seq<Holiday>, m: int) -> int
    decreases hs.len(),
{
    if hs.len() == 0 {
        0
    } else {
        count_in_month(hs.drop_last(), m) + if utc_month(hs.last().holiday_date as int) == m {
            1int
        } else {
            0
        }
    }
}

/// Number of holidays later than `now`.
pub open spec fn count_upcoming(hs: Seq<Holiday>, now: int) -> int
    decreases hs.len(),
{
    if hs.len() == 0 {
        0
    } else {
        count_upcoming(hs.drop_last(), now) + if hs.last().holiday_date > now {
            1int
        } else {
            0
        }
    }
}

/// The holidays that the month filter keeps, in order.
pub open spec fn listed_holidays(hs: Seq<Holiday>, target_month: Option<u32>) -> Seq<Holiday>
    decreases hs.len(),
{
    if hs.len() == 0 {
        hs
    } else {
        let rest = listed_holidays(hs.drop_last(), target_month);
        match target_month {
            Some(m) => if utc_month(hs.last().holiday_date as int) == m {
                rest.push(hs.last())
            } else {
                rest
            },
            None => rest.push(hs.last()),
        }
    }
}

/// A holiday as answered.
pub open spec fn answers_holiday(r: HolidayResponse, h: Holiday) -> bool {
    &&& r.id == h.id
    &&& r.holiday_description == h.holiday_description
    &&& r.holiday_date == h.holiday_date
    &&& r.holiday_year == h.holiday_year
}

/// Holidays whose dates chrono can hold.
pub open spec fn holidays_in_range(hs: Seq<Holiday>) -> bool {
    forall|i: int| 0 <= i < hs.len() ==> in_chrono_range(utc_day((#[trigger] hs[i]).holiday_date as int))
}

/// The next holiday after `now` is the `k`-th of the list.
pub open spec fn is_next_upcoming(hs: Seq<Holiday>, now: int, k: int) -> bool {
    &&& 0 <= k < hs.len()
    &&& hs[k].holiday_date > now
    &&& forall|j: int| 0 <= j < k ==> hs[j].holiday_date <= now
}

/// How the holiday counts and the kept list grow by one holiday.
proof fn lemma_holiday_step(hs: Seq<Holiday>, i: int, m: int, now: int, tm: Option<u32>)
    requires
        0 <= i < hs.len(),
    ensures
        count_in_month(hs.take(i + 1), m) == count_in_month(hs.take(i), m) + if utc_month(
            hs[i].holiday_date as int,
        ) == m {
            1int
        } else {
            0
        },
        count_upcoming(hs.take(i + 1), now) == count_upcoming(hs.take(i), now) + if hs[i].holiday_date > now {
            1int
        } else {
            0
        },
        listed_holidays(hs.take(i + 1), tm) == match tm {
            Some(mm) => if utc_month(hs[i].holiday_date as int) == mm {
                listed_holidays(hs.take(i), tm).push(hs[i])
            } else {
                listed_holidays(hs.take(i), tm)
            },
            None => listed_holidays(hs.take(i), tm).push(hs[i]),
        },
{
    let t = hs.take(i + 1);
    assert(t.drop_last() == hs.take(i));
    assert(t.last() == hs[i]);
}

impl CalendarService {
    /// The holidays of a year as answered: those of the month filter, with
    /// the year's and the month's counts (the month is the filter's, else
    /// the current one), the next holiday after `now` and how many are left.
    #[verifier::rlimit(30)]
    pub fn holiday_list(holidays: Vec<Holiday>, target_month: Option<u32>, now_ts: i64) -> (r: HolidayListResponse)
        requires
            holidays_in_range(holidays@),
            in_chrono_range(utc_day(now_ts as int)),
            holidays@.len() <= i64::MAX,
        ensures
            r.stats.total_holidays_this_year == holidays@.len(),
            r.stats.total_holidays_this_month == count_in_month(
                holidays@,
                match target_month {
                    Some(m) => m as int,
                    None => utc_month(now_ts as int),
                },
            ),
            r.stats.remaining_holidays_this_year == count_upcoming(holidays@, now_ts as int),
            match r.stats.next_upcoming_holiday {
                None => forall|j: int| 0 <= j < holidays@.len() ==> (#[trigger] holidays@[j]).holiday_date <= now_ts,
                Some(n) => exists|k: int| {
                    &&& is_next_upcoming(holidays@, now_ts as int, k)
                    &&& n.holiday_description == (#[trigger] holidays@[k]).holiday_description
                    &&& n.holiday_date == holidays@[k].holiday_date
                    &&& n.days_until == utc_day(holidays@[k].holiday_date as int) - utc_day(now_ts as int)
                },
            },
            r.items@.len() == listed_holidays(holidays@, target_month).len(),
            forall|i: int| 0 <= i < r.items@.len() ==> answers_holiday(#[trigger] r.items@[i], listed_holidays(holidays@, target_month)[i]),
    {
        let stat_month: u32 = match target_month {
            Some(m) => m,
            None => civil_of_instant(now_ts).month,
        };
        let now_day = utc_day_number(now_ts);
        proof {
            lemma_chrono_range_bounds(utc_day(now_ts as int));
        }
        let n = holidays.len();
        let mut in_month: i64 = 0;
        let mut upcoming: i64 = 0;
        let mut next: Option<NextHolidayInfo> = None;
        let mut items: Vec<HolidayResponse> = Vec::new();
        let mut i: usize = 0;
        while i < n
            invariant
                n == holidays@.len(),
                n <= i64::MAX,
                0 <= i <= n,
                holidays_in_range(holidays@),
                now_day == utc_day(now_ts as int),
                -100_000_000 < now_day < 100_000_000,
                stat_month == match target_month {
                    Some(m) => m as int,
                    None => utc_month(now_ts as int),
                },
                0 <= in_month <= i,
                0 <= upcoming <= i,
                in_month == count_in_month(holidays@.take(i as int), stat_month as int),
                upcoming == count_upcoming(holidays@.take(i as int), now_ts as int),
                match next {
                    None => forall|j: int| 0 <= j < i ==> (#[trigger] holidays@[j]).holiday_date <= now_ts,
                    Some(nx) => exists|k: int| {
                        &&& is_next_upcoming(holidays@, now_ts as int, k)
                        &&& k < i
                        &&& nx.holiday_description == (#[trigger] holidays@[k]).holiday_description
                        &&& nx.holiday_date == holidays@[k].holiday_date
                        &&& nx.days_until == utc_day(holidays@[k].holiday_date as int) - utc_day(now_ts as int)
                    },
                },
                items@.len() == listed_holidays(holidays@.take(i as int), target_month).len(),
                forall|j: int| 0 <= j < items@.len() ==> answers_holiday(#[trigger] items@[j], listed_holidays(holidays@.take(i as int), target_month)[j]),
            decreases n - i,
        {
            let h = &holidays[i];
            proof {
                lemma_holiday_step(holidays@, i as int, stat_month as int, now_ts as int, target_month);
                assert(in_chrono_range(utc_day(holidays@[i as int].holiday_date as int)));
                lemma_chrono_range_bounds(utc_day(h.holiday_date as int));
            }
            let hd = civil_of_instant(h.holiday_date);
            if hd.month == stat_month {
                in_month = in_month + 1;
            }
            let later = h.holiday_date > now_ts;
            if later {
                upcoming = upcoming + 1;
                if next.is_none() {
                    let hday = utc_day_number(h.holiday_date);
                    next = Some(
                        NextHolidayInfo {
                            holiday_description: h.holiday_description.clone(),
                            holiday_date: h.holiday_date,
                            days_until: hday - now_day,
                        },
                    );
                    proof {
                        assert(is_next_upcoming(holidays@, now_ts as int, i as int));
                    }
                }
            }
            let keep = match target_month {
                Some(m) => hd.month == m,
                None => true,
            };
            if keep {
                items.push(
                    HolidayResponse {
                        id: h.id,
                        holiday_description: h.holiday_description.clone(),
                        holiday_date: h.holiday_date,
                        holiday_year: h.holiday_year.clone(),
                    },
                );
            }
            i = i + 1;
        }
        proof {
            assert(holidays@.take(n as int) == holidays@);
        }
        HolidayListResponse {
            items,
            stats: HolidayStats {
                total_holidays_this_year: n as i64,
                total_holidays_this_month: in_month,
                next_upcoming_holiday: next,
                remaining_holidays_this_year: upcoming,
            },
        }
    }
}

/// A year filter: absent, or text that must parse as a number.
pub open spec fn year_filter_ok(year: Option<Seq<char>>, r: Result<Option<i32>, AppError>) -> bool {
    match year {
        None => r == Ok::<Option<i32>, AppError>(None),
        Some(y) => match spec_parse_i32(y) {
            None => rejects_bad_request(r, "year must be a number"@),
            Some(v) => r == Ok::<Option<i32>, AppError>(Some(v)),
        },
    }
}

/// A year filter is given and is not a number.
pub open spec fn year_unparsable(year: Option<Seq<char>>) -> bool {
    match year {
        Some(y) => spec_parse_i32(y) is None,
        None => false,
    }
}

/// The year filter of an event query, or its error.
pub open spec fn query_year(r: Result<(Option<i32>, Option<u32>), AppError>) -> Result<Option<i32>, AppError> {
    match r {
        Ok(q) => Ok(q.0),
        Err(e) => Err(e),
    }
}

pub open spec fn query_event_month(r: Result<(Option<i32>, Option<u32>), AppError>) -> Result<Option<u32>, AppError> {
    match r {
        Ok(q) => Ok(q.1),
        Err(e) => Err(e),
    }
}

/// Stored events that can be answered (their instants can be shown in
/// Bangkok time).
pub open spec fn events_showable(es: Seq<Event>) -> bool {
    forall|i: int|
        0 <= i < es.len() ==> showable_in_bangkok((#[trigger] es[i]).start_date as int)
            && showable_in_bangkok(es[i].end_date as int)
}

/// An event as `event_to_response` answers it.
pub open spec fn answers_event(r: EventResponse, e: Event) -> bool {
    &&& r.id == e.id
    &&& r.user_id == e.user_id
    &&& r.title == e.title
    &&& r.description == e.description
    &&& r.start_date == e.start_date
    &&& r.end_date == e.end_date
    &&& r.tag == e.tag
    &&& r.date@ == bangkok_date_text(e.end_date as int)
    &&& r.time@ == bangkok_time_text(e.start_date as int)
}

/// Answers each event in order.
fn events_to_responses(events: Vec<Event>) -> (r: Vec<EventResponse>)
    requires
        events_showable(events@),
    ensures
        r@.len() == events@.len(),
        forall|i: int| 0 <= i < r@.len() ==> answers_event(#[trigger] r@[i], events@[i]),
{
    let mut out: Vec<EventResponse> = Vec::new();
    let mut rest = events;
    let ghost all = rest@;
    // answered front to back: take the events out in reverse and put them back
    let mut rev: Vec<Event> = Vec::new();
    while rest.len() > 0
        invariant
            rest@.len() + rev@.len() == all.len(),
            forall|j: int| 0 <= j < rest@.len() ==> rest@[j] == all[j],
            forall|j: int| 0 <= j < rev@.len() ==> rev@[j] == all[all.len() - 1 - j],
        decreases rest@.len(),
    {
        let e = rest.pop().unwrap();
        rev.push(e);
    }
    while rev.len() > 0
        invariant
            out@.len() + rev@.len() == all.len(),
            events_showable(all),
            forall|j: int| 0 <= j < rev@.len() ==> rev@[j] == all[all.len() - 1 - j],
            forall|j: int| 0 <= j < out@.len() ==> answers_event(#[trigger] out@[j], all[j]),
        decreases rev@.len(),
    {
        let e = rev.pop().unwrap();
        proof {
            assert(e == all[out@.len() as int]);
        }
        out.push(event_to_response(e));
    }
    out
}

/// The event was found and belongs to `user`.
pub open spec fn owned_by(existing: Option<Event>, user: u128) -> bool {
    match existing {
        Some(e) => e.user_id == user,
        None => false,
    }
}

/// The event was found and belongs to someone else.
pub open spec fn owned_by_other(existing: Option<Event>, user: u128) -> bool {
    match existing {
        Some(e) => e.user_id != user,
        None => false,
    }
}

impl CalendarService {
    /// The year and month filters of an event query.
    pub fn event_filters(filters: &EventFilterQuery) -> (r: Result<(Option<i32>, Option<u32>), AppError>)
        ensures
            year_unparsable(opt_string_view(filters.year)) ==> rejects_bad_request(r, "year must be a number"@),
            !year_unparsable(opt_string_view(filters.year)) ==> month_filter_ok(
                opt_string_view(filters.month),
                query_event_month(r),
            ) && (r is Ok ==> year_filter_ok(opt_string_view(filters.year), query_year(r))),
    {
        let year = match as_opt_str(&filters.year) {
            None => None,
            Some(y) => match parse_i32(y) {
                Some(v) => Some(v),
                None => return Err(bad_request("year must be a number")),
            },
        };
        let month = match parse_month_filter(as_opt_str(&filters.month)) {
            Ok(m) => m,
            Err(e) => return Err(e),
        };
        Ok((year, month))
    }

    /// The events of a user as answered, with their number.
    pub fn event_list(events: Vec<Event>) -> (r: EventListResponse)
        requires
            events_showable(events@),
            events@.len() <= i64::MAX,
        ensures
            r.total_events == events@.len(),
            r.items@.len() == events@.len(),
            forall|i: int| 0 <= i < r.items@.len() ==> answers_event(#[trigger] r.items@[i], events@[i]),
    {
        let total = events.len() as i64;
        let items = events_to_responses(events);
        EventListResponse { items, total_events: total }
    }

    /// The daily events to store for a new event: refused with `BadRequest`
    /// unless the end is after the start.
    pub fn create_events(payload: &CreateEventRequest, user_id: u128) -> (r: Result<Vec<NewEvent>, AppError>)
        requires
            valid_offset_date_time(payload.start_date),
            valid_offset_date_time(payload.end_date),
            local_day(payload.start_date) <= local_day(payload.end_date) ==> in_chrono_range(
                local_day(payload.end_date) + 1,
            ),
        ensures
            payload.end_date.timestamp <= payload.start_date.timestamp ==> rejects_bad_request(
                r,
                "end_date must be after start_date"@,
            ),
            payload.end_date.timestamp > payload.start_date.timestamp ==> (r matches Ok(v) && v@.len()
                == segment_count(payload.start_date, payload.end_date) && forall|k: int|
                0 <= k < v@.len() ==> is_segment(#[trigger] v@[k], user_id, *payload, k)),
    {
        if payload.end_date.timestamp <= payload.start_date.timestamp {
            return Err(bad_request("end_date must be after start_date"));
        }
        Ok(split_into_daily_events(user_id, payload))
    }

    /// The changes an edit stores, once the caller owns both the request and
    /// the stored event (`None` when it was not found) and the new end is
    /// after the new start.
    pub fn update_event(payload: &UpdateEventRequest, claims_user_id: u128, existing: Option<Event>) -> (r: Result<UpdateEvent, AppError>)
        ensures
            payload.user_id != claims_user_id ==> rejects_forbidden(
                r,
                "You do not have permission to edit this event."@,
            ),
            payload.user_id == claims_user_id && payload.end_date.timestamp
                <= payload.start_date.timestamp ==> rejects_bad_request(r, "end_date must be after start_date"@),
            payload.user_id == claims_user_id && payload.end_date.timestamp > payload.start_date.timestamp
                && existing is None ==> rejects_not_found(r, "The event to edit was not found."@),
            payload.user_id == claims_user_id && payload.end_date.timestamp > payload.start_date.timestamp
                && owned_by_other(existing, claims_user_id) ==> rejects_forbidden(
                r,
                "You do not have permission to edit this event."@,
            ),
            r is Ok <==> (payload.user_id == claims_user_id && payload.end_date.timestamp
                > payload.start_date.timestamp && owned_by(existing, claims_user_id)),
            r matches Ok(u) ==> {
                &&& u.title == payload.title
                &&& opt_string_view(u.description) == opt_string_view(payload.description)
                &&& u.start_date == payload.start_date.timestamp
                &&& u.end_date == payload.end_date.timestamp
                &&& u.tag == payload.tag
            },
    {
        if payload.user_id != claims_user_id {
            return Err(forbidden("You do not have permission to edit this event."));
        }
        if payload.end_date.timestamp <= payload.start_date.timestamp {
            return Err(bad_request("end_date must be after start_date"));
        }
        let e = match existing {
            Some(e) => e,
            None => return Err(not_found("The event to edit was not found.")),
        };
        if e.user_id != claims_user_id {
            return Err(forbidden("You do not have permission to edit this event."));
        }
        Ok(
            UpdateEvent {
                title: payload.title.clone(),
                description: clone_description(&payload.description),
                start_date: payload.start_date.timestamp,
                end_date: payload.end_date.timestamp,
                tag: payload.tag.clone(),
            },
        )
    }

    /// Whether the caller may delete an event (`None` when it was not found).
    pub fn delete_event(existing: Option<Event>, claims_user_id: u128) -> (r: Result<(), AppError>)
        ensures
            existing is None ==> rejects_not_found(r, "The event to delete was not found."@),
            owned_by_other(existing, claims_user_id) ==> rejects_forbidden(
                r,
                "You do not have permission to delete this event."@,
            ),
            r is Ok <==> owned_by(existing, claims_user_id),
    {
        match existing {
            None => Err(not_found("The event to delete was not found.")),
            Some(e) => if e.user_id != claims_user_id {
                Err(forbidden("You do not have permission to delete this event."))
            } else {
                Ok(())
            },
        }
    }
}

// ===== Request rules =====

impl CreateEventRequest {
    /// The broken rules: a title of 1 to 100 characters, a description of at most 3000, a tag of 1 to 20.
    pub fn validate(&self) -> (r: Vec<FieldError>)
        ensures
            issues(r@) == issue_if(char_len(self.title@) < 1 || char_len(self.title@) > 100, "title"@, "length"@, Some("Title ต้องมี 1-100 ตัวอักษร"@)) + match self.description { Some(x) => issue_if(char_len(x@) > 3000, "description"@, "length"@, Some("Description ต้องไม่เกิน 3000 ตัวอักษร"@)), None => Seq::<Issue>::empty() } + issue_if(char_len(self.tag@) < 1 || char_len(self.tag@) > 20, "tag"@, "length"@, Some("Tag ต้องมี 1-20 ตัวอักษร"@)),
    {
        let mut errors: Vec<FieldError> = Vec::new();
        proof {
            assert(issues(errors@) =~= Seq::<Issue>::empty());
        }
        check_length(&mut errors, "title", self.title.as_str(), Some(1), Some(100), "Title ต้องมี 1-100 ตัวอักษร");
        match &self.description {
            Some(x) => {
                check_length(&mut errors, "description", x.as_str(), None, Some(3000), "Description ต้องไม่เกิน 3000 ตัวอักษร");
            },
            None => {
                proof {
                    assert(issues(errors@) =~= issues(errors@) + Seq::<Issue>::empty());
                }
            },
        }
        check_length(&mut errors, "tag", self.tag.as_str(), Some(1), Some(20), "Tag ต้องมี 1-20 ตัวอักษร");
        errors
    }
}

impl UpdateEventRequest {
    /// The broken rules: a title of 1 to 100 characters, a description of at most 3000, a tag of 1 to 20.
    pub fn validate(&self) -> (r: Vec<FieldError>)
        ensures
            issues(r@) == issue_if(char_len(self.title@) < 1 || char_len(self.title@) > 100, "title"@, "length"@, Some("Title ต้องมี 1-100 ตัวอักษร"@)) + match self.description { Some(x) => issue_if(char_len(x@) > 3000, "description"@, "length"@, Some("Description ต้องไม่เกิน 3000 ตัวอักษร"@)), None => Seq::<Issue>::empty() } + issue_if(char_len(self.tag@) < 1 || char_len(self.tag@) > 20, "tag"@, "length"@, Some("Tag ต้องมี 1-20 ตัวอักษร"@)),
    {
        let mut errors: Vec<FieldError> = Vec::new();
        proof {
            assert(issues(errors@) =~= Seq::<Issue>::empty());
        }
        check_length(&mut errors, "title", self.title.as_str(), Some(1), Some(100), "Title ต้องมี 1-100 ตัวอักษร");
        match &self.description {
            Some(x) => {
                check_length(&mut errors, "description", x.as_str(), None, Some(3000), "Description ต้องไม่เกิน 3000 ตัวอักษร");
            },
            None => {
                proof {
                    assert(issues(errors@) =~= issues(errors@) + Seq::<Issue>::empty());
                }
            },
        }
        check_length(&mut errors, "tag", self.tag.as_str(), Some(1), Some(20), "Tag ต้องมี 1-20 ตัวอักษร");
        errors
    }
}

/// The stored parts of an event begin at the event's start and end at its
/// end: the first day's part starts at the start, the last day's part ends
/// at the end, and every day between is covered from 00:00 to 23:59 local.
pub proof fn law_parts_span_event(start: OffsetDateTime, end: OffsetDateTime, d: int)
    requires
        local_day(start) < d < local_day(end),
    ensures
        segment_start(start, end, local_day(start)) == start.timestamp,
        segment_end(start, end, local_day(end)) == end.timestamp,
        segment_end(start, end, d) - segment_start(start, end, d) == 86340,
        segment_start(start, end, d) + start.offset_seconds == d * 86400,
{
}

/// A year's counts bound the month's and the remaining ones, and the
/// month filter keeps no more holidays than there are.
pub proof fn law_holiday_counts_bounded(hs: Seq<Holiday>, m: int, now: int, tm: Option<u32>)
    ensures
        0 <= count_in_month(hs, m) <= hs.len(),
        0 <= count_upcoming(hs, now) <= hs.len(),
        listed_holidays(hs, tm).len() <= hs.len(),
    decreases hs.len(),
{
    if hs.len() > 0 {
        law_holiday_counts_bounded(hs.drop_last(), m, now, tm);
    }
}

/// Distinct Thai month names have distinct numbers, and each month from 1
/// to 12 has its name.
pub proof fn law_thai_months_one_to_one(a: Seq<char>, b: Seq<char>)
    ensures
        spec_thai_month(a) is Some && spec_thai_month(a) == spec_thai_month(b) ==> a == b,
        spec_thai_month("มกราคม"@) == Some(1u32),
        spec_thai_month("กุมภาพันธ์"@) == Some(2u32),
        spec_thai_month("มีนาคม"@) == Some(3u32),
        spec_thai_month("เมษายน"@) == Some(4u32),
        spec_thai_month("พฤษภาคม"@) == Some(5u32),
        spec_thai_month("มิถุนายน"@) == Some(6u32),
        spec_thai_month("กรกฎาคม"@) == Some(7u32),
        spec_thai_month("สิงหาคม"@) == Some(8u32),
        spec_thai_month("กันยายน"@) == Some(9u32),
        spec_thai_month("ตุลาคม"@) == Some(10u32),
        spec_thai_month("พฤศจิกายน"@) == Some(11u32),
        spec_thai_month("ธันวาคม"@) == Some(12u32),
{
    reveal_strlit("มกราคม");
    reveal_strlit("กุมภาพันธ์");
    reveal_strlit("มีนาคม");
    reveal_strlit("เมษายน");
    reveal_strlit("พฤษภาคม");
    reveal_strlit("มิถุนายน");
    reveal_strlit("กรกฎาคม");
    reveal_strlit("สิงหาคม");
    reveal_strlit("กันยายน");
    reveal_strlit("ตุลาคม");
    reveal_strlit("พฤศจิกายน");
    reveal_strlit("ธันวาคม");
    assert("กุมภาพันธ์"@[0] != "มกราคม"@[0]);
    assert("มีนาคม"@[1] != "มกราคม"@[1]);
    assert("มีนาคม"@[0] != "กุมภาพันธ์"@[0]);
    assert("เมษายน"@[0] != "มกราคม"@[0]);
    assert("เมษายน"@[0] != "กุมภาพันธ์"@[0]);
    assert("เมษายน"@[0] != "มีนาคม"@[0]);
    assert("พฤษภาคม"@[0] != "มกราคม"@[0]);
    assert("พฤษภาคม"@[0] != "กุมภาพันธ์"@[0]);
    assert("พฤษภาคม"@[0] != "มีนาคม"@[0]);
    assert("พฤษภาคม"@[0] != "เมษายน"@[0]);
    assert("มิถุนายน"@[1] != "มกราคม"@[1]);
    assert("มิถุนายน"@[0] != "กุมภาพันธ์"@[0]);
    assert("มิถุนายน"@[1] != "มีนาคม"@[1]);
    assert("มิถุนายน"@[0] != "เมษายน"@[0]);
    assert("มิถุนายน"@[0] != "พฤษภาคม"@[0]);
    assert("กรกฎาคม"@[0] != "มกราคม"@[0]);
    assert("กรกฎาคม"@[1] != "กุมภาพันธ์"@[1]);
    assert("กรกฎาคม"@[0] != "มีนาคม"@[0]);
    assert("กรกฎาคม"@[0] != "เมษายน"@[0]);
    assert("กรกฎาคม"@[0] != "พฤษภาคม"@[0]);
    assert("กรกฎาคม"@[0] != "มิถุนายน"@[0]);
    assert("สิงหาคม"@[0] != "มกราคม"@[0]);
    assert("สิงหาคม"@[0] != "กุมภาพันธ์"@[0]);
    assert("สิงหาคม"@[0] != "มีนาคม"@[0]);
    assert("สิงหาคม"@[0] != "เมษายน"@[0]);
    assert("สิงหาคม"@[0] != "พฤษภาคม"@[0]);
    assert("สิงหาคม"@[0] != "มิถุนายน"@[0]);
    assert("สิงหาคม"@[0] != "กรกฎาคม"@[0]);
    assert("กันยายน"@[0] != "มกราคม"@[0]);
    assert("กันยายน"@[1] != "กุมภาพันธ์"@[1]);
    assert("กันยายน"@[0] != "มีนาคม"@[0]);
    assert("กันยายน"@[0] != "เมษายน"@[0]);
    assert("กันยายน"@[0] != "พฤษภาคม"@[0]);
    assert("กันยายน"@[0] != "มิถุนายน"@[0]);
    assert("กันยายน"@[1] != "กรกฎาคม"@[1]);
    assert("กันยายน"@[0] != "สิงหาคม"@[0]);
    assert("ตุลาคม"@[0] != "มกราคม"@[0]);
    assert("ตุลาคม"@[0] != "กุมภาพันธ์"@[0]);
    assert("ตุลาคม"@[0] != "มีนาคม"@[0]);
    assert("ตุลาคม"@[0] != "เมษายน"@[0]);
    assert("ตุลาคม"@[0] != "พฤษภาคม"@[0]);
    assert("ตุลาคม"@[0] != "มิถุนายน"@[0]);
    assert("ตุลาคม"@[0] != "กรกฎาคม"@[0]);
    assert("ตุลาคม"@[0] != "สิงหาคม"@[0]);
    assert("ตุลาคม"@[0] != "กันยายน"@[0]);
    assert("พฤศจิกายน"@[0] != "มกราคม"@[0]);
    assert("พฤศจิกายน"@[0] != "กุมภาพันธ์"@[0]);
    assert("พฤศจิกายน"@[0] != "มีนาคม"@[0]);
    assert("พฤศจิกายน"@[0] != "เมษายน"@[0]);
    assert("พฤศจิกายน"@[2] != "พฤษภาคม"@[2]);
    assert("พฤศจิกายน"@[0] != "มิถุนายน"@[0]);
    assert("พฤศจิกายน"@[0] != "กรกฎาคม"@[0]);
    assert("พฤศจิกายน"@[0] != "สิงหาคม"@[0]);
    assert("พฤศจิกายน"@[0] != "กันยายน"@[0]);
    assert("พฤศจิกายน"@[0] != "ตุลาคม"@[0]);
    assert("ธันวาคม"@[0] != "มกราคม"@[0]);
    assert("ธันวาคม"@[0] != "กุมภาพันธ์"@[0]);
    assert("ธันวาคม"@[0] != "มีนาคม"@[0]);
    assert("ธันวาคม"@[0] != "เมษายน"@[0]);
    assert("ธันวาคม"@[0] != "พฤษภาคม"@[0]);
    assert("ธันวาคม"@[0] != "มิถุนายน"@[0]);
    assert("ธันวาคม"@[0] != "กรกฎาคม"@[0]);
    assert("ธันวาคม"@[0] != "สิงหาคม"@[0]);
    assert("ธันวาคม"@[0] != "กันยายน"@[0]);
    assert("ธันวาคม"@[0] != "ตุลาคม"@[0]);
    assert("ธันวาคม"@[0] != "พฤศจิกายน"@[0]);
}

} // verus!
