use productivity_api::common::dates::day_in_chrono_range;
use productivity_api::common::errors::AppError;
use productivity_api::modules::calendar::{
    event_to_response, parse_month_filter, showable, split_into_daily_events, splittable,
    thai_month_to_number, valid_date_time,
    BotHolidayItem, CalendarService, CreateEventRequest, Event, EventFilterQuery, Holiday,
    OffsetDateTime, UpdateEventRequest,
};

fn msg(e: &AppError) -> String {
    match e {
        AppError::BadRequest(m)
        | AppError::Unauthorized(m)
        | AppError::Forbidden(m)
        | AppError::NotFound(m)
        | AppError::Conflict(m)
        | AppError::InternalServerError(m) => m.clone(),
    }
}

fn item(date: &str, month: &str, year: &str) -> BotHolidayItem {
    BotHolidayItem {
        holiday_description: "วันหยุด".to_string(),
        date: date.to_string(),
        month: month.to_string(),
        year: year.to_string(),
    }
}

#[test]
fn thai_months_map_to_numbers() {
    let names = [
        "มกราคม", "กุมภาพันธ์", "มีนาคม", "เมษายน", "พฤษภาคม", "มิถุนายน", "กรกฎาคม", "สิงหาคม",
        "กันยายน", "ตุลาคม", "พฤศจิกายน", "ธันวาคม",
    ];
    for (i, n) in names.iter().enumerate() {
        assert_eq!(thai_month_to_number(n), Some(i as u32 + 1));
    }
    assert_eq!(thai_month_to_number("January"), None);
    assert_eq!(thai_month_to_number(""), None);
}

#[test]
fn holiday_date_parses_buddhist_year() {
    assert_eq!(item("วันจันทร์ 1", "มกราคม", "2567").parse_date(), Some(1704067200));
    assert_eq!(item("13", " เมษายน ", " 2567 ").parse_date(), Some(1712966400));
    assert_eq!(item("วันพฤหัสบดี 30", "กุมภาพันธ์", "2567").parse_date(), None);
    assert_eq!(item("1", "Jan", "2567").parse_date(), None);
    assert_eq!(item("", "มกราคม", "2567").parse_date(), None);
}

#[test]
fn prepare_holidays_lists_each_year_once() {
    let items = vec![
        item("1", "มกราคม", "2567"),
        item("13", "เมษายน", "2567"),
        item("1", "มกราคม", "2568"),
    ];
    let (hs, years) = match CalendarService::prepare_holidays(&items) {
        Ok(v) => v,
        Err(e) => panic!("{:?}", e),
    };
    assert_eq!(hs.len(), 3);
    assert_eq!(hs[0].holiday_date, 1704067200);
    assert_eq!(hs[0].holiday_year, "2024");
    assert_eq!(hs[2].holiday_year, "2025");
    assert_eq!(years, vec!["2024".to_string(), "2025".to_string()]);
}

#[test]
fn prepare_holidays_refuses_unreadable_date() {
    let items = vec![item("1", "มกราคม", "2567"), item("x", "มกราคม", "2567"), item("y", "z", "w")];
    match CalendarService::prepare_holidays(&items) {
        Err(AppError::BadRequest(m)) => assert_eq!(m, "Unable to parse date: x มกราคม 2567"),
        _ => panic!("expected a bad request"),
    }
}

fn at(ts: i64, off: i32) -> OffsetDateTime {
    OffsetDateTime { timestamp: ts, offset_seconds: off }
}

fn request(start: OffsetDateTime, end: OffsetDateTime) -> CreateEventRequest {
    CreateEventRequest {
        title: "Trip".to_string(),
        description: Some("far".to_string()),
        start_date: start,
        end_date: end,
        tag: "travel".to_string(),
    }
}

#[test]
fn event_is_split_per_local_day() {
    // 2024-01-01 10:00 to 2024-01-03 12:00 at +07:00
    let req = request(at(1704078000, 25200), at(1704258000, 25200));
    let parts = split_into_daily_events(7, &req);
    assert_eq!(parts.len(), 3);
    assert_eq!((parts[0].start_date, parts[0].end_date), (1704078000, 1704128340));
    assert_eq!((parts[1].start_date, parts[1].end_date), (1704128400, 1704214740));
    assert_eq!((parts[2].start_date, parts[2].end_date), (1704214800, 1704258000));
    for p in &parts {
        assert_eq!(p.user_id, 7);
        assert_eq!(p.title, "Trip");
        assert_eq!(p.description.as_deref(), Some("far"));
        assert_eq!(p.tag, "travel");
    }
    // the middle day runs from 00:00 to 23:59 local
    assert_eq!(parts[1].end_date - parts[1].start_date, 86340);
    assert_eq!((parts[1].start_date + 25200) % 86400, 0);
}

#[test]
fn event_within_one_day_is_one_part() {
    let req = request(at(1704078000, 25200), at(1704081600, 25200));
    let parts = split_into_daily_events(1, &req);
    assert_eq!(parts.len(), 1);
    assert_eq!((parts[0].start_date, parts[0].end_date), (1704078000, 1704081600));
}

#[test]
fn create_events_needs_end_after_start() {
    let req = request(at(1704078000, 25200), at(1704078000, 25200));
    match CalendarService::create_events(&req, 1) {
        Err(AppError::BadRequest(m)) => assert_eq!(m, "end_date must be after start_date"),
        _ => panic!("expected a bad request"),
    }
    let ok = request(at(1704078000, 0), at(1704078060, 0));
    assert!(matches!(CalendarService::create_events(&ok, 1), Ok(v) if v.len() == 1));
}

fn event(user: u128, start: i64, end: i64) -> Event {
    Event {
        id: 9,
        user_id: user,
        title: "t".to_string(),
        description: None,
        start_date: start,
        end_date: end,
        tag: "x".to_string(),
        created_at: 0,
        updated_at: 0,
    }
}

#[test]
fn event_response_shows_bangkok_date_and_time() {
    // starts 2024-01-01T03:00Z (10:00 in Bangkok), ends 2024-01-01T18:30Z (01:30 next day)
    let r = event_to_response(event(1, 1704078000, 1704133800));
    assert_eq!(r.time, "10:00");
    assert_eq!(r.date, "2024-01-02");
    assert_eq!(r.id, 9);
    let early = event_to_response(event(1, -3600, -3600));
    assert_eq!(early.time, "06:00");
    assert_eq!(early.date, "1970-01-01");
}

fn update_req(user: u128, start: i64, end: i64) -> UpdateEventRequest {
    UpdateEventRequest {
        user_id: user,
        title: " New ".to_string(),
        description: None,
        start_date: at(start, 0),
        end_date: at(end, 0),
        tag: "x".to_string(),
    }
}

#[test]
fn update_event_checks_in_order() {
    let r = CalendarService::update_event(&update_req(2, 0, 10), 1, Some(event(1, 0, 1)));
    assert_eq!(msg(&r.err().unwrap()), "You do not have permission to edit this event.");
    let r = CalendarService::update_event(&update_req(1, 10, 10), 1, Some(event(1, 0, 1)));
    assert!(matches!(r, Err(AppError::BadRequest(_))));
    let r = CalendarService::update_event(&update_req(1, 0, 10), 1, None);
    assert_eq!(msg(&r.err().unwrap()), "The event to edit was not found.");
    let r = CalendarService::update_event(&update_req(1, 0, 10), 1, Some(event(3, 0, 1)));
    assert!(matches!(r, Err(AppError::Forbidden(_))));
    match CalendarService::update_event(&update_req(1, 5, 10), 1, Some(event(1, 0, 1))) {
        Ok(u) => {
            assert_eq!(u.title, " New ");
            assert_eq!((u.start_date, u.end_date), (5, 10));
        }
        Err(e) => panic!("{:?}", e),
    }
}

#[test]
fn delete_event_needs_owner() {
    assert_eq!(
        msg(&CalendarService::delete_event(None, 1).err().unwrap()),
        "The event to delete was not found."
    );
    assert_eq!(
        msg(&CalendarService::delete_event(Some(event(2, 0, 1)), 1).err().unwrap()),
        "You do not have permission to delete this event."
    );
    assert!(CalendarService::delete_event(Some(event(1, 0, 1)), 1).is_ok());
}

#[test]
fn month_filter_messages() {
    assert!(matches!(parse_month_filter(None), Ok(None)));
    assert!(matches!(parse_month_filter(Some("7")), Ok(Some(7))));
    assert_eq!(
        msg(&parse_month_filter(Some("July")).err().unwrap()),
        "month must be a number between 1 and 12"
    );
    assert_eq!(msg(&parse_month_filter(Some("13")).err().unwrap()), "month must be between 1 and 12");
    assert_eq!(msg(&parse_month_filter(Some("0")).err().unwrap()), "month must be between 1 and 12");
}

#[test]
fn holiday_query_defaults_to_current_year() {
    // 2024-03-10T00:00Z
    let now = 1710028800;
    match CalendarService::holiday_query(None, Some("3".to_string()), now) {
        Ok((y, m)) => {
            assert_eq!(y, "2024");
            assert_eq!(m, Some(3));
        }
        Err(e) => panic!("{:?}", e),
    }
    match CalendarService::holiday_query(Some("2020".to_string()), None, now) {
        Ok((y, m)) => {
            assert_eq!(y, "2020");
            assert_eq!(m, None);
        }
        Err(e) => panic!("{:?}", e),
    }
    assert!(CalendarService::holiday_query(None, Some("99".to_string()), now).is_err());
}

fn holiday(id: u128, ts: i64) -> Holiday {
    Holiday {
        id,
        holiday_description: format!("h{}", id),
        holiday_date: ts,
        holiday_year: "2024".to_string(),
        created_at: 0,
        updated_at: 0,
    }
}

#[test]
fn holiday_list_counts_and_next() {
    // Jan 1, Apr 13, Apr 14, Dec 31 of 2024; now is 2024-04-13T12:00Z
    let hs = vec![
        holiday(1, 1704067200),
        holiday(2, 1712966400),
        holiday(3, 1713052800),
        holiday(4, 1735603200),
    ];
    let now = 1713009600;
    let all = CalendarService::holiday_list(hs, None, now);
    assert_eq!(all.stats.total_holidays_this_year, 4);
    assert_eq!(all.stats.total_holidays_this_month, 2);
    assert_eq!(all.stats.remaining_holidays_this_year, 2);
    let next = all.stats.next_upcoming_holiday.unwrap();
    assert_eq!(next.holiday_description, "h3");
    assert_eq!(next.days_until, 1);
    assert_eq!(all.items.len(), 4);
    let hs2 = vec![holiday(1, 1704067200), holiday(2, 1712966400), holiday(4, 1735603200)];
    let dec = CalendarService::holiday_list(hs2, Some(12), now);
    assert_eq!(dec.items.len(), 1);
    assert_eq!(dec.items[0].id, 4);
    assert_eq!(dec.stats.total_holidays_this_month, 1);
    assert!(dec.stats.total_holidays_this_month <= dec.stats.total_holidays_this_year);
}

#[test]
fn event_filters_need_numbers() {
    let q = EventFilterQuery { year: Some("20x4".to_string()), month: Some("2".to_string()), tag: None };
    assert_eq!(msg(&CalendarService::event_filters(&q).err().unwrap()), "year must be a number");
    let q = EventFilterQuery { year: Some("2024".to_string()), month: Some("2".to_string()), tag: None };
    assert!(matches!(CalendarService::event_filters(&q), Ok((Some(2024), Some(2)))));
    let q = EventFilterQuery { year: None, month: Some("14".to_string()), tag: None };
    assert!(CalendarService::event_filters(&q).is_err());
}

#[test]
fn event_list_counts() {
    let r = CalendarService::event_list(vec![event(1, 0, 60), event(1, 3600, 7200)]);
    assert_eq!(r.total_events, 2);
    assert_eq!(r.items[1].time, "08:00");
}

#[test]
fn event_request_rules() {
    let mut req = request(at(0, 0), at(60, 0));
    assert!(req.validate().is_empty());
    req.title = String::new();
    req.tag = "x".repeat(21);
    let errors = req.validate();
    assert_eq!(errors.len(), 2);
    assert_eq!(errors[0].field, "title");
    assert_eq!(errors[0].code, "length");
    assert_eq!(errors[1].message.as_deref(), Some("Tag ต้องมี 1-20 ตัวอักษร"));
}

#[test]
fn instants_chrono_can_hold() {
    assert!(day_in_chrono_range(0));
    assert!(day_in_chrono_range(-96465292));
    assert!(!day_in_chrono_range(-96465293));
    assert!(day_in_chrono_range(95026236));
    assert!(!day_in_chrono_range(95026237));
    assert!(showable(0));
    assert!(!showable(i64::MAX));
    assert!(valid_date_time(OffsetDateTime { timestamp: 1_700_000_000, offset_seconds: 25200 }));
    assert!(!valid_date_time(OffsetDateTime { timestamp: 0, offset_seconds: 86400 }));
    assert!(!valid_date_time(OffsetDateTime { timestamp: i64::MAX, offset_seconds: 0 }));
    let start = OffsetDateTime { timestamp: 1_700_000_000, offset_seconds: 25200 };
    let end = OffsetDateTime { timestamp: 1_700_200_000, offset_seconds: 25200 };
    assert!(splittable(&request(start, end)));
    assert!(!splittable(&request(start, OffsetDateTime { timestamp: i64::MAX, offset_seconds: 0 })));
}
