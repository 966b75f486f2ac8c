use productivity_api::common::response::{normalize_page_limit, total_pages, ApiResponse, EmptyData, PaginatedData};
use productivity_api::common::text::{normalize_filter, normalize_optional};
use productivity_api::common::query_utils::{like_pattern, month_year_range, page_offset};

#[test]
fn total_pages_rounds_up() {
    assert_eq!(total_pages(0, 10), 0);
    assert_eq!(total_pages(1, 10), 1);
    assert_eq!(total_pages(10, 10), 1);
    assert_eq!(total_pages(11, 10), 2);
    assert_eq!(total_pages(95, 10), 10);
}

#[test]
fn pages_hold_items_on_values() {
    for total in [0i64, 1, 9, 10, 11, 99, 100, 101] {
        for limit in [1i64, 3, 10, 100] {
            let p = total_pages(total, limit);
            assert!(p * limit >= total);
            if total > 0 {
                assert!((p - 1) * limit < total);
            } else {
                assert_eq!(p, 0);
            }
        }
    }
}

#[test]
fn normalize_page_limit_defaults_and_bounds() {
    assert_eq!(normalize_page_limit(None, None), (1, 10));
    assert_eq!(normalize_page_limit(Some(0), Some(0)), (1, 1));
    assert_eq!(normalize_page_limit(Some(-5), Some(500)), (1, 100));
    assert_eq!(normalize_page_limit(Some(3), Some(25)), (3, 25));
}

#[test]
fn normalize_page_limit_settles() {
    for (p, l) in [(None, None), (Some(-1), Some(1000)), (Some(7), Some(0))] {
        let (a, b) = normalize_page_limit(p, l);
        assert_eq!(normalize_page_limit(Some(a), Some(b)), (a, b));
    }
}

#[test]
fn paginated_data_counts_pages() {
    let page = PaginatedData::new(vec![1, 2, 3], 23, 2, 10);
    assert_eq!(page.items, vec![1, 2, 3]);
    assert_eq!(page.total_items, 23);
    assert_eq!(page.total_pages, 3);
    assert_eq!(page.current_page, 2);
}

#[test]
fn api_response_shapes() {
    let ok = ApiResponse::success(200, "done", 5);
    assert_eq!(ok.status, "success");
    assert_eq!(ok.code, 200);
    assert_eq!(ok.message, "done");
    assert_eq!(ok.data, Some(5));
    let empty: ApiResponse<EmptyData> = ApiResponse::success_without_data(201, "made");
    assert_eq!(empty.status, "success");
    assert!(empty.data.is_none());
    let fail: ApiResponse<EmptyData> = ApiResponse::fail(400, "bad");
    assert_eq!(fail.status, "fail");
    let err: ApiResponse<EmptyData> = ApiResponse::error(500, "boom");
    assert_eq!(err.status, "error");
    assert_eq!(err.message, "boom");
}

#[test]
fn normalize_filter_trims_and_drops_blank() {
    assert_eq!(normalize_filter(None), None);
    assert_eq!(normalize_filter(Some("   ")), None);
    assert_eq!(normalize_filter(Some("  food ")), Some("food"));
    assert_eq!(normalize_optional(Some("\u{3000}x\t")), Some("x"));
}

#[test]
fn normalize_settles_on_values() {
    for v in [Some(" a b "), Some(""), None, Some("x")] {
        let once = normalize_filter(v);
        assert_eq!(normalize_filter(once), once);
    }
}

#[test]
fn month_year_range_covers_month() {
    let (s, e) = month_year_range(Some("2"), Some("2024")).unwrap();
    assert_eq!(s, 1706745600);
    assert_eq!(e - s, 29 * 86400);
    let (s2, e2) = month_year_range(Some("12"), Some("2023")).unwrap();
    assert_eq!(s2, 1701388800);
    assert_eq!(e2, 1704067200);
    assert_eq!(month_year_range(Some("13"), Some("2024")), None);
    assert_eq!(month_year_range(Some("x"), Some("2024")), None);
    assert_eq!(month_year_range(None, Some("2024")), None);
    assert_eq!(month_year_range(Some("12"), Some("2147483647")), None);
}

#[test]
fn query_helpers() {
    assert_eq!(page_offset(3, 10), 20);
    assert_eq!(page_offset(1, 50), 0);
    assert_eq!(like_pattern("cof"), "%cof%");
}
