use productivity_api::common::dates::{last_day_of_month, CivilDate};
use productivity_api::common::errors::{map_diesel_error, AppError, DbError};
use productivity_api::modules::transactions::{
    current_month_billing_date, normalize_monthly, stats_month_measurable, BillingCycle, CreateSubscriptionRequest,
    CreateTransactionRequest, Subscription, Transaction, TransactionService, TransactionType,
};

fn msg(e: &AppError) -> String {
    match e {
        AppError::BadRequest(m)
        | AppError::Unauthorized(m)
        | AppError::Forbidden(m)
        | AppError::NotFound(m)
        | AppError::Conflict(m)
        | AppError::InternalServerError(m) => m.clone(),
    }
}

#[test]
fn errors_become_answers() {
    let (code, body) = AppError::NotFound("gone".to_string()).into_response();
    assert_eq!((code, body.status.as_str(), body.message.as_str()), (404, "fail", "gone"));
    assert!(body.data.is_none());
    let (code, body) = AppError::InternalServerError("boom".to_string()).into_response();
    assert_eq!((code, body.status.as_str()), (500, "error"));
    assert_eq!(AppError::Conflict(String::new()).status_code(), 409);
    assert_eq!(AppError::Unauthorized(String::new()).status_code(), 401);
    assert_eq!(AppError::Forbidden(String::new()).status_code(), 403);
    assert_eq!(AppError::BadRequest(String::new()).status_code(), 400);
}

#[test]
fn database_errors_map() {
    assert!(matches!(AppError::from_db_error(DbError::NotFound), AppError::NotFound(m) if m == "ข้อมูลที่ต้องการไม่พบในระบบ"));
    assert!(matches!(AppError::from_db_error(DbError::UniqueViolation), AppError::Conflict(m) if m == "ข้อมูลนี้มีอยู่แล้วในระบบ"));
    assert!(matches!(AppError::from_db_error(DbError::Other), AppError::InternalServerError(m) if m == "เกิดข้อผิดพลาดจากฐานข้อมูล"));
    assert!(matches!(map_diesel_error("nf", "ie", DbError::UniqueViolation), AppError::InternalServerError(m) if m == "ie"));
}

#[test]
fn month_lengths() {
    assert_eq!(last_day_of_month(2024, 2), 29);
    assert_eq!(last_day_of_month(2023, 2), 28);
    assert_eq!(last_day_of_month(1900, 2), 28);
    assert_eq!(last_day_of_month(2000, 2), 29);
    assert_eq!(last_day_of_month(2024, 4), 30);
    assert_eq!(last_day_of_month(2024, 12), 31);
}

fn tx(type_: TransactionType, amount: i64, category: &str, day: i64) -> Transaction {
    Transaction {
        id: day as u128,
        user_id: 1,
        type_,
        amount,
        category: category.to_string(),
        title: "t".to_string(),
        note: None,
        transaction_date: 1704067200 + day * 86400,
        created_at: 0,
        updated_at: 0,
    }
}

#[test]
fn transaction_stats() {
    let txs = vec![
        tx(TransactionType::Income, 10000, "salary", 0),
        tx(TransactionType::Expense, 300, "food", 0),
        tx(TransactionType::Expense, 700, "food", 2),
        tx(TransactionType::Expense, 2000, "rent", 4),
    ];
    let s = TransactionService::build_transaction_stats(&txs, None, None);
    assert_eq!((s.total_income, s.total_expense, s.transaction_count), (10000, 3000, 4));
    // five days from the first to the last transaction
    assert_eq!(s.average_daily_expense, 600);
    assert_eq!(s.top_expense_category[0].category, "rent");
    assert_eq!(s.top_expense_category[1].total_amount, 1000);
    assert_eq!(s.top_expense_category[1].count, 2);
    let feb = TransactionService::build_transaction_stats(&txs, Some("2"), Some("2024"));
    assert_eq!(feb.average_daily_expense, 3000 / 29);
    assert_eq!(TransactionService::days_in_range(&[], None, None), 1);
    assert_eq!(TransactionService::days_in_range(&txs, Some("13"), Some("2024")), 5);
}

fn sub(cycle: BillingCycle, amount: i64, day: i32, month: Option<i32>, category: Option<&str>) -> Subscription {
    Subscription {
        id: 1,
        user_id: 1,
        name: "s".to_string(),
        amount,
        billing_cycle: cycle,
        billing_day: day,
        billing_month: month,
        category: category.map(|c| c.to_string()),
        note: None,
        start_date: 0,
        end_date: None,
        is_active: true,
        created_at: 0,
        updated_at: 0,
    }
}

#[test]
fn subscription_amounts() {
    assert_eq!(normalize_monthly(&sub(BillingCycle::Monthly, 500, 1, None, None)), 500);
    assert_eq!(normalize_monthly(&sub(BillingCycle::Yearly, 1200, 1, Some(3), None)), 100);
    assert_eq!(normalize_monthly(&sub(BillingCycle::Yearly, 1199, 1, Some(3), None)), 99);
}

#[test]
fn billing_dates_clamp_to_month_end() {
    let today = CivilDate { year: 2024, month: 2, day: 10 };
    let d = current_month_billing_date(&sub(BillingCycle::Monthly, 1, 31, None, None), today).unwrap();
    assert_eq!((d.year, d.month, d.day), (2024, 2, 29));
    assert!(current_month_billing_date(&sub(BillingCycle::Yearly, 1, 5, Some(3), None), today).is_none());
    assert!(current_month_billing_date(&sub(BillingCycle::Yearly, 1, 5, Some(2), None), today).is_some());
}

#[test]
fn subscription_stats_split_this_month() {
    let today = CivilDate { year: 2024, month: 2, day: 10 };
    let subs = vec![
        sub(BillingCycle::Monthly, 300, 5, None, Some("tv")),
        sub(BillingCycle::Monthly, 200, 20, None, Some("tv")),
        sub(BillingCycle::Yearly, 1200, 1, Some(2), None),
        sub(BillingCycle::Yearly, 2400, 1, Some(6), Some("cloud")),
    ];
    let s = TransactionService::build_subscription_stats_on(&subs, 9, today);
    assert_eq!(s.monthly_recurring, 300 + 200 + 100 + 200);
    assert_eq!(s.yearly_estimate, 3600 + 2400 + 1200 + 2400);
    assert_eq!((s.active_count, s.total_count), (4, 9));
    assert_eq!((s.passed_this_month.count, s.passed_this_month.amount), (2, 1500));
    assert_eq!((s.remaining_this_month.count, s.remaining_this_month.amount), (1, 200));
    assert_eq!(s.passed_this_month.count + s.remaining_this_month.count, 3);
    assert_eq!((s.cycle_split.monthly_count, s.cycle_split.yearly_count), (2, 2));
    assert_eq!(s.cycle_split.monthly_count + s.cycle_split.yearly_count, s.active_count);
    assert_eq!(s.category_breakdown[0].category.as_deref(), Some("tv"));
    assert_eq!(s.category_breakdown[0].monthly_amount, 500);
    assert_eq!(s.top_expenses.len(), 4);
    assert_eq!(s.top_expenses[0].monthly_amount, 300);
}

#[test]
fn billing_month_matches_cycle() {
    assert!(matches!(TransactionService::resolve_billing_month(BillingCycle::Yearly, Some(5)), Ok(Some(5))));
    assert_eq!(
        msg(&TransactionService::resolve_billing_month(BillingCycle::Yearly, None).err().unwrap()),
        "ต้องระบุ billing_month เมื่อจ่ายแบบรายปี"
    );
    assert_eq!(
        msg(&TransactionService::resolve_billing_month(BillingCycle::Monthly, Some(5)).err().unwrap()),
        "จ่ายแบบรายเดือนต้องไม่ระบุ billing_month"
    );
    assert!(matches!(TransactionService::resolve_billing_month(BillingCycle::Monthly, None), Ok(None)));
}

#[test]
fn ownership_and_toggle() {
    assert!(TransactionService::find_owned_transaction(Some(tx(TransactionType::Income, 1, "x", 0)), 2).is_err());
    assert!(TransactionService::find_owned_transaction(None, 1).is_err());
    assert!(TransactionService::find_owned_subscription(Some(sub(BillingCycle::Monthly, 1, 1, None, None)), 1).is_ok());
    assert!(!TransactionService::toggle_subscription(&sub(BillingCycle::Monthly, 1, 1, None, None)));
}

#[test]
fn transaction_requests() {
    let req = CreateTransactionRequest {
        type_: TransactionType::Expense,
        amount: 0,
        category: " food ".to_string(),
        title: "".to_string(),
        note: None,
        transaction_date: 0,
    };
    let e = req.validate();
    assert_eq!(e.iter().map(|f| f.field.as_str()).collect::<Vec<_>>(), vec!["amount", "title"]);
    let n = TransactionService::new_transaction(&req, 3);
    assert_eq!(n.category, "food");
    let s = CreateSubscriptionRequest {
        name: "Music".to_string(),
        amount: 100,
        billing_cycle: BillingCycle::Monthly,
        billing_day: 32,
        billing_month: Some(13),
        category: None,
        note: None,
        start_date: 0,
        end_date: None,
    };
    assert_eq!(s.validate().len(), 2);
    assert!(TransactionService::new_subscription(&s, 1).is_err());
    let page = TransactionService::transaction_list_response(
        vec![tx(TransactionType::Income, 1, "x", 0)],
        21,
        1,
        10,
        TransactionService::build_transaction_stats(&[], None, None),
    );
    assert_eq!((page.total_pages, page.items.len()), (3, 1));
}

#[test]
fn running_totals_checks() {
    let small = vec![
        tx(TransactionType::Income, 500, "salary", 0),
        tx(TransactionType::Expense, -300, "food", 1),
    ];
    assert!(TransactionService::transaction_sums_checked(&small));
    let large = vec![
        tx(TransactionType::Income, i64::MAX, "salary", 0),
        tx(TransactionType::Expense, -1, "food", 1),
    ];
    assert!(!TransactionService::transaction_sums_checked(&large));
    assert!(TransactionService::transaction_sums_checked(&[]));

    let subs = vec![sub(BillingCycle::Monthly, 100, 1, None, None), sub(BillingCycle::Yearly, -1200, 5, Some(3), None)];
    assert!(TransactionService::subscription_sums_checked(&subs));
    let edge = vec![sub(BillingCycle::Monthly, i64::MAX / 12, 1, None, None)];
    assert!(TransactionService::subscription_sums_checked(&edge));
    let over = vec![sub(BillingCycle::Monthly, i64::MAX / 12 + 1, 1, None, None)];
    assert!(!TransactionService::subscription_sums_checked(&over));
}

#[test]
fn statistics_month_measurable() {
    assert!(stats_month_measurable(Some("2"), Some("2024")));
    assert!(stats_month_measurable(Some("12"), Some("262141")));
    assert!(!stats_month_measurable(Some("12"), Some("262142")));
    assert!(!stats_month_measurable(Some("5"), Some("300000")));
    assert!(stats_month_measurable(Some("13"), Some("2024")));
    assert!(stats_month_measurable(None, Some("2024")));
}

#[test]
fn top_expenses_keep_list_order_on_ties() {
    let today = CivilDate { year: 2024, month: 2, day: 10 };
    let names = ["a", "b", "c", "d", "e"];
    let amounts = [100, 300, 100, 300, 100];
    let subs: Vec<Subscription> = names
        .iter()
        .zip(amounts.iter())
        .map(|(n, a)| {
            let mut s = sub(BillingCycle::Monthly, *a, 1, None, None);
            s.name = n.to_string();
            s
        })
        .collect();
    let s = TransactionService::build_subscription_stats_on(&subs, 5, today);
    let top: Vec<&str> = s.top_expenses.iter().map(|t| t.name.as_str()).collect();
    assert_eq!(top, vec!["b", "d", "a", "c"]);
}

#[test]
fn toggling_twice_restores() {
    let mut s = sub(BillingCycle::Monthly, 1, 1, None, None);
    let first = s.is_active;
    s.is_active = TransactionService::toggle_subscription(&s);
    assert_eq!(s.is_active, !first);
    s.is_active = TransactionService::toggle_subscription(&s);
    assert_eq!(s.is_active, first);
}
