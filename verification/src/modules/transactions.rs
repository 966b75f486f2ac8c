//! Income/expense transactions and recurring subscriptions: the rules on
//! billing months and the statistics shown beside the lists.
use crate::common::dates::{
    CivilDate, build_billing_date, date_before, date_lt, days_in_month, last_day_of_month, spec_billing_date,
    valid_date, max_year, trunc_div, trunc_div_i64, utc_day, utc_day_number, utc_today,
    valid_ymd,
};
use crate::common::errors::{
    AppError, bad_request, forbidden, not_found, rejects_bad_request, rejects_forbidden,
    rejects_not_found,
};
use crate::common::response::{PaginatedData, spec_total_pages};
use crate::common::ranking::{Ranked, distinct_keys, min_nat, picked_stably, select_top, sorted_desc};
use crate::common::text::{
    clone_opt_string,
    normalize_optional, opt_string_view, opt_view, parse_i32, parse_u32, spec_normalize_optional,
    spec_parse_i32, spec_parse_u32, str_eq, str_trim, trimmed, owned_optional_string, trimmed_string,
};
use crate::common::validation::{
    FieldError, Issue, issues, issue_if, char_len, check_trimmed_len, check_max_chars, check_range,
};
use vstd::prelude::*;

verus! {

broadcast use vstd::seq_lib::group_seq_properties;

#[derive(Clone, Copy, PartialEq, Eq, Debug, Structural)]
pub enum TransactionType {
    Income,
    Expense,
}

#[derive(Clone, Copy, PartialEq, Eq, Debug, Structural)]
pub enum BillingCycle {
    Monthly,
    Yearly,
}

/// A stored transaction; instants are Unix timestamps, ids the 128-bit value
/// of the UUID.
pub struct Transaction {
    pub id: u128,
    pub user_id: u128,
    pub type_: TransactionType,
    pub amount: i64,
    pub category: String,
    pub title: String,
    pub note: Option<String>,
    pub transaction_date: i64,
    pub created_at: i64,
    pub updated_at: i64,
}

/// A stored subscription.
pub struct Subscription {
    pub id: u128,
    pub user_id: u128,
    pub name: String,
    pub amount: i64,
    pub billing_cycle: BillingCycle,
    pub billing_day: i32,
    pub billing_month: Option<i32>,
    pub category: Option<String>,
    pub note: Option<String>,
    pub start_date: i64,
    pub end_date: Option<i64>,
    pub is_active: bool,
    pub created_at: i64,
    pub updated_at: i64,
}

/// Filters of the transaction list.
pub struct TransactionFilterQuery {
    pub page: Option<i64>,
    pub limit: Option<i64>,
    pub type_: Option<TransactionType>,
    pub category: Option<String>,
    pub keyword: Option<String>,
    pub month: Option<String>,
    pub year: Option<String>,
}

/// Filters of the subscription list.
pub struct SubscriptionFilterQuery {
    pub billing_cycle: Option<BillingCycle>,
    pub is_active: Option<bool>,
    pub keyword: Option<String>,
}

/// Total expense of one category.
pub struct TransactionCategoryStat {
    pub category: String,
    pub total_amount: i64,
    pub count: i64,
}

/// Summary of the transactions of a month (amounts in satang).
pub struct TransactionStatsResponse {
    pub total_income: i64,
    pub total_expense: i64,
    pub top_expense_category: Vec<TransactionCategoryStat>,
    pub average_daily_expense: i64,
    pub transaction_count: i64,
}

pub struct SubscriptionMonthlyStat {
    pub count: i64,
    pub amount: i64,
}

pub struct SubscriptionCategoryStat {
    pub category: Option<String>,
    pub monthly_amount: i64,
    pub count: i64,
}

pub struct SubscriptionCycleSplit {
    pub monthly_count: i64,
    pub yearly_count: i64,
}

pub struct SubscriptionTopExpense {
    pub name: String,
    pub monthly_amount: i64,
}

/// Summary of the active subscriptions (amounts in satang).
pub struct SubscriptionStatsResponse {
    pub monthly_recurring: i64,
    pub yearly_estimate: i64,
    pub active_count: i64,
    pub total_count: i64,
    pub remaining_this_month: SubscriptionMonthlyStat,
    pub passed_this_month: SubscriptionMonthlyStat,
    pub category_breakdown: Vec<SubscriptionCategoryStat>,
    pub cycle_split: SubscriptionCycleSplit,
    pub top_expenses: Vec<SubscriptionTopExpense>,
}

/// Service of transactions and subscriptions.
pub struct TransactionService;

impl Ranked for TransactionCategoryStat {
    type Key = Seq<char>;

    open spec fn rank(&self) -> int {
        self.total_amount as int
    }

    open spec fn group_key(&self) -> Seq<char> {
        self.category@
    }

    fn rank_value(&self) -> (r: i64) {
        self.total_amount
    }
}

impl Ranked for SubscriptionCategoryStat {
    type Key = Option<Seq<char>>;

    open spec fn rank(&self) -> int {
        self.monthly_amount as int
    }

    open spec fn group_key(&self) -> Option<Seq<char>> {
        opt_string_view(self.category)
    }

    fn rank_value(&self) -> (r: i64) {
        self.monthly_amount
    }
}

impl Ranked for SubscriptionTopExpense {
    type Key = Seq<char>;

    open spec fn rank(&self) -> int {
        self.monthly_amount as int
    }

    open spec fn group_key(&self) -> Seq<char> {
        self.name@
    }

    fn rank_value(&self) -> (r: i64) {
        self.monthly_amount
    }
}

pub open spec fn fits_i64(x: int) -> bool {
    i64::MIN <= x <= i64::MAX
}

// ===== Transaction statistics: specification =====

pub open spec fn income_sum(s: Seq<Transaction>) -> int
    decreases s.len(),
{
    if s.len() == 0 {
        0
    } else {
        income_sum(s.drop_last()) + if s.last().type_ == TransactionType::Income {
            s.last().amount as int
        } else {
            0
        }
    }
}

pub open spec fn expense_sum(s: Seq<Transaction>) -> int
    decreases s.len(),
{
    if s.len() == 0 {
        0
    } else {
        expense_sum(s.drop_last()) + if s.last().type_ == TransactionType::Expense {
            s.last().amount as int
        } else {
            0
        }
    }
}

pub open spec fn in_category(t: Transaction, c: Seq<char>) -> bool {
    t.type_ == TransactionType::Expense && t.category@ == c
}

/// Sum of the expenses of category `c`.
pub open spec fn category_sum(s: Seq<Transaction>, c: Seq<char>) -> int
    decreases s.len(),
{
    if s.len() == 0 {
        0
    } else {
        category_sum(s.drop_last(), c) + if in_category(s.last(), c) {
            s.last().amount as int
        } else {
            0
        }
    }
}

/// Number of expenses of category `c`.
pub open spec fn category_count(s: Seq<Transaction>, c: Seq<char>) -> int
    decreases s.len(),
{
    if s.len() == 0 {
        0
    } else {
        category_count(s.drop_last(), c) + if in_category(s.last(), c) {
            1int
        } else {
            0
        }
    }
}

pub open spec fn is_expense_category(s: Seq<Transaction>, c: Seq<char>) -> bool {
    exists|i: int| 0 <= i < s.len() && in_category(#[trigger] s[i], c)
}

/// Every running total that the statistics keep stays within `i64` (adding
/// past it would overflow).
pub open spec fn transaction_sums_fit(s: Seq<Transaction>) -> bool {
    &&& s.len() <= i64::MAX
    &&& forall|k: int|
        0 <= k <= s.len() ==> fits_i64(#[trigger] income_sum(s.take(k))) && fits_i64(
            expense_sum(s.take(k)),
        )
    &&& forall|k: int, c: Seq<char>|
        0 <= k <= s.len() ==> fits_i64(#[trigger] category_sum(s.take(k), c))
}

/// Earliest and latest UTC day of the transactions.
pub open spec fn min_day(s: Seq<Transaction>) -> int
    decreases s.len(),
{
    if s.len() <= 1 {
        utc_day(s[0].transaction_date as int)
    } else {
        let m = min_day(s.drop_last());
        let d = utc_day(s.last().transaction_date as int);
        if d < m {
            d
        } else {
            m
        }
    }
}

pub open spec fn max_day(s: Seq<Transaction>) -> int
    decreases s.len(),
{
    if s.len() <= 1 {
        utc_day(s[0].transaction_date as int)
    } else {
        let m = max_day(s.drop_last());
        let d = utc_day(s.last().transaction_date as int);
        if d > m {
            d
        } else {
            m
        }
    }
}

/// The month and year of the statistics, when both are given, parse, and the
/// month lies in `1..=12`.
pub open spec fn stats_month(month: Option<Seq<char>>, year: Option<Seq<char>>) -> Option<(int, int)> {
    match (month, year) {
        (Some(ms), Some(ys)) => match (spec_parse_u32(ms), spec_parse_i32(ys)) {
            (Some(m), Some(y)) => if 1 <= m <= 12 {
                Some((m as int, y as int))
            } else {
                None
            },
            _ => None,
        },
        _ => None,
    }
}

/// Days over which the daily average is taken: the length of the chosen
/// month, else the span from the earliest to the latest transaction day
/// (1 when there is none).
pub open spec fn spec_days_in_range(
    s: Seq<Transaction>,
    month: Option<Seq<char>>,
    year: Option<Seq<char>>,
) -> int {
    match stats_month(month, year) {
        Some((m, y)) => days_in_month(y, m),
        None => if s.len() == 0 {
            1
        } else {
            max_day(s) - min_day(s) + 1
        },
    }
}

/// The chosen month can be measured: it and the month after it lie in the
/// range of dates chrono holds.
pub open spec fn stats_month_supported(month: Option<Seq<char>>, year: Option<Seq<char>>) -> bool {
    match stats_month(month, year) {
        Some((m, y)) => valid_ymd(y, m, 1) && (m == 12 ==> y + 1 <= max_year()),
        None => true,
    }
}

/// Whether the chosen statistics month can be measured (see
/// `stats_month_supported`).
pub fn stats_month_measurable(month: Option<&str>, year: Option<&str>) -> (r: bool)
    ensures
        r == stats_month_supported(opt_view(month), opt_view(year)),
{
    let m = match month {
        Some(ms) => parse_u32(ms),
        None => None,
    };
    let y = match year {
        Some(ys) => parse_i32(ys),
        None => None,
    };
    match (m, y) {
        (Some(m), Some(y)) => {
            if 1 <= m && m <= 12 {
                -262143 <= y && y <= 262142 && (m != 12 || y < 262142)
            } else {
                true
            }
        },
        _ => true,
    }
}

/// The category statistics are the true totals of distinct categories.
pub open spec fn category_stats_exact(s: Seq<Transaction>, g: Seq<TransactionCategoryStat>) -> bool {
    &&& distinct_keys(g)
    &&& forall|j: int|
        0 <= j < g.len() ==> is_expense_category(s, (#[trigger] g[j]).category@)
            && g[j].total_amount == category_sum(s, g[j].category@) && g[j].count
            == category_count(s, g[j].category@)
}

// ===== Transaction statistics: proofs and code =====

proof fn lemma_take_step(s: Seq<Transaction>, i: int)
    requires
        0 <= i < s.len(),
    ensures
        s.take(i + 1).drop_last() == s.take(i),
        s.take(i + 1).last() == s[i],
        s.take(i + 1).len() == i + 1,
{
    assert(s.take(i + 1).drop_last() =~= s.take(i));
}

/// Groups the expenses by category, in order of first appearance.
fn group_expense_categories(s: &[Transaction]) -> (g: Vec<TransactionCategoryStat>)
    requires
        transaction_sums_fit(s@),
    ensures
        category_stats_exact(s@, g@),
        forall|c: Seq<char>|
            #![trigger is_expense_category(s@, c)]
            is_expense_category(s@, c) ==> exists|j: int|
                0 <= j < g@.len() && (#[trigger] g@[j]).category@ == c,
{
    let mut g: Vec<TransactionCategoryStat> = Vec::new();
    let n = s.len();
    let mut i: usize = 0;
    while i < n
        invariant
            n == s@.len(),
            0 <= i <= n,
            transaction_sums_fit(s@),
            g@.len() <= i,
            category_stats_exact(s@.take(i as int), g@),
            forall|c: Seq<char>|
                #![trigger is_expense_category(s@.take(i as int), c)]
                is_expense_category(s@.take(i as int), c) ==> exists|j: int|
                    0 <= j < g@.len() && (#[trigger] g@[j]).category@ == c,
        decreases n - i,
    {
        let t = &s[i];
        proof {
            lemma_take_step(s@, i as int);
        }
        let ghost prev = s@.take(i as int);
        let ghost cur = s@.take(i + 1);
        proof {
            assert forall|c: Seq<char>|
                category_sum(cur, c) == category_sum(prev, c) + (if in_category(s@[i as int], c) {
                    s@[i as int].amount as int
                } else {
                    0
                }) && category_count(cur, c) == category_count(prev, c) + (if in_category(
                    s@[i as int],
                    c,
                ) {
                    1int
                } else {
                    0
                }) by {}
            assert forall|c: Seq<char>|
                is_expense_category(cur, c) == (is_expense_category(prev, c) || in_category(
                    s@[i as int],
                    c,
                )) by {
                if is_expense_category(cur, c) {
                    let k = choose|k: int| 0 <= k < cur.len() && in_category(#[trigger] cur[k], c);
                    if k < i {
                        assert(prev[k] == cur[k]);
                    }
                }
                if is_expense_category(prev, c) {
                    let k = choose|k: int| 0 <= k < prev.len() && in_category(#[trigger] prev[k], c);
                    assert(cur[k] == prev[k]);
                }
                if in_category(s@[i as int], c) {
                    assert(cur[i as int] == s@[i as int]);
                }
            }
        }
        if t.type_ == TransactionType::Expense {
            let mut found: Option<usize> = None;
            let mut j: usize = 0;
            while j < g.len()
                invariant
                    0 <= j <= g@.len(),
                    found is None ==> forall|k: int| 0 <= k < j ==> g@[k].category@ != t.category@,
                    found matches Some(f) ==> f < g@.len() && g@[f as int].category@ == t.category@,
                decreases g@.len() - j,
            {
                if found.is_none() && str_eq(g[j].category.as_str(), t.category.as_str()) {
                    found = Some(j);
                }
                j = j + 1;
            }
            match found {
                Some(f) => {
                    let old_total = g[f].total_amount;
                    let old_count = g[f].count;
                    proof {
                        let c = t.category@;
                        assert(fits_i64(category_sum(s@.take(i + 1), c)));
                        assert(g@[f as int].count <= i) by {
                            lemma_count_bound(prev, c);
                        }
                    }
                    let entry = TransactionCategoryStat {
                        category: g[f].category.clone(),
                        total_amount: old_total + t.amount,
                        count: old_count + 1,
                    };
                    let ghost old_g = g@;
                    g.set(f, entry);
                    proof {
                        assert forall|a: int, b: int|
                            0 <= a < g@.len() && 0 <= b < g@.len() && a != b implies g@[a].group_key()
                            != g@[b].group_key() by {
                            assert(old_g[a].group_key() != old_g[b].group_key());
                        }
                        assert forall|k: int| 0 <= k < g@.len() implies is_expense_category(
                            cur,
                            (#[trigger] g@[k]).category@,
                        ) && g@[k].total_amount == category_sum(cur, g@[k].category@)
                            && g@[k].count == category_count(cur, g@[k].category@) by {
                            if k != f {
                                assert(g@[k] == old_g[k]);
                                assert(g@[k].category@ != t.category@);
                            }
                        }
                        assert forall|c: Seq<char>|
                            #![trigger is_expense_category(cur, c)]
                            is_expense_category(cur, c) implies exists|k: int|
                                0 <= k < g@.len() && (#[trigger] g@[k]).category@ == c by {
                            if is_expense_category(prev, c) {
                                let k = choose|k: int|
                                    0 <= k < old_g.len() && (#[trigger] old_g[k]).category@ == c;
                                assert(g@[k].category@ == c);
                            } else {
                                assert(g@[f as int].category@ == c);
                            }
                        }
                    }
                },
                None => {
                    proof {
                        let c = t.category@;
                        assert(fits_i64(category_sum(s@.take(i + 1), c)));
                        assert(!is_expense_category(prev, c)) by {
                            if is_expense_category(prev, c) {
                                let k = choose|k: int|
                                    0 <= k < g@.len() && (#[trigger] g@[k]).category@ == c;
                            }
                        }
                        lemma_absent_category_zero(prev, c);
                    }
                    let entry = TransactionCategoryStat {
                        category: t.category.clone(),
                        total_amount: t.amount,
                        count: 1,
                    };
                    let ghost old_g = g@;
                    g.push(entry);
                    proof {
                        assert forall|a: int, b: int|
                            0 <= a < g@.len() && 0 <= b < g@.len() && a != b implies g@[a].group_key()
                            != g@[b].group_key() by {
                            if a < old_g.len() && b < old_g.len() {
                                assert(old_g[a].group_key() != old_g[b].group_key());
                            }
                        }
                        assert forall|k: int| 0 <= k < g@.len() implies is_expense_category(
                            cur,
                            (#[trigger] g@[k]).category@,
                        ) && g@[k].total_amount == category_sum(cur, g@[k].category@)
                            && g@[k].count == category_count(cur, g@[k].category@) by {
                            if k < old_g.len() {
                                assert(g@[k] == old_g[k]);
                                assert(g@[k].category@ != t.category@);
                            }
                        }
                        assert forall|c: Seq<char>|
                            #![trigger is_expense_category(cur, c)]
                            is_expense_category(cur, c) implies exists|k: int|
                                0 <= k < g@.len() && (#[trigger] g@[k]).category@ == c by {
                            if is_expense_category(prev, c) {
                                let k = choose|k: int|
                                    0 <= k < old_g.len() && (#[trigger] old_g[k]).category@ == c;
                                assert(g@[k].category@ == c);
                            } else {
                                assert(g@[old_g.len() as int].category@ == c);
                            }
                        }
                    }
                },
            }
        } else {
            proof {
                assert forall|k: int| 0 <= k < g@.len() implies is_expense_category(
                    cur,
                    (#[trigger] g@[k]).category@,
                ) && g@[k].total_amount == category_sum(cur, g@[k].category@) && g@[k].count
                    == category_count(cur, g@[k].category@) by {}
                assert forall|c: Seq<char>|
                    #![trigger is_expense_category(cur, c)]
                    is_expense_category(cur, c) implies exists|k: int|
                        0 <= k < g@.len() && (#[trigger] g@[k]).category@ == c by {
                    assert(is_expense_category(prev, c));
                }
            }
        }
        i = i + 1;
    }
    proof {
        assert(s@.take(n as int) =~= s@);
    }
    g
}

proof fn lemma_count_bound(s: Seq<Transaction>, c: Seq<char>)
    ensures
        0 <= category_count(s, c) <= s.len(),
    decreases s.len(),
{
    if s.len() > 0 {
        lemma_count_bound(s.drop_last(), c);
    }
}

proof fn lemma_absent_category_zero(s: Seq<Transaction>, c: Seq<char>)
    requires
        !is_expense_category(s, c),
    ensures
        category_sum(s, c) == 0,
        category_count(s, c) == 0,
    decreases s.len(),
{
    if s.len() > 0 {
        assert(!in_category(s[s.len() - 1], c));
        assert forall|k: int| 0 <= k < s.drop_last().len() implies !in_category(
            #[trigger] s.drop_last()[k],
            c,
        ) by {
            assert(s.drop_last()[k] == s[k]);
        }
        lemma_absent_category_zero(s.drop_last(), c);
    }
}

} // verus!

verus! {

proof fn lemma_min_max_day(s: Seq<Transaction>)
    requires
        s.len() > 0,
    ensures
        min_day(s) <= max_day(s),
        exists|i: int| 0 <= i < s.len() && utc_day((#[trigger] s[i]).transaction_date as int) == min_day(s),
        exists|i: int| 0 <= i < s.len() && utc_day((#[trigger] s[i]).transaction_date as int) == max_day(s),
    decreases s.len(),
{
    if s.len() > 1 {
        lemma_min_max_day(s.drop_last());
        let i = choose|i: int| 0 <= i < s.drop_last().len() && utc_day((#[trigger] s.drop_last()[i]).transaction_date as int) == min_day(s.drop_last());
        let j = choose|j: int| 0 <= j < s.drop_last().len() && utc_day((#[trigger] s.drop_last()[j]).transaction_date as int) == max_day(s.drop_last());
        assert(s.drop_last()[i] == s[i]);
        assert(s.drop_last()[j] == s[j]);
        assert(s[s.len() - 1] == s.last());
    } else {
        assert(s[0] == s[0]);
    }
}

proof fn lemma_utc_day_bounds(ts: int)
    requires
        i64::MIN <= ts <= i64::MAX,
    ensures
        -106751991167301 <= utc_day(ts) <= 106751991167300,
{
    assert(-106751991167301 <= ts / 86400 <= 106751991167300) by (nonlinear_arith)
        requires
            i64::MIN <= ts <= i64::MAX,
    ;
}

impl TransactionService {
    /// Days over which the average daily expense is taken: the length of the
    /// chosen month, or the span in UTC days from the earliest to the latest
    /// transaction (1 when there are none).
    pub fn days_in_range(transactions: &[Transaction], month: Option<&str>, year: Option<&str>) -> (r: i64)
        requires
            stats_month_supported(opt_view(month), opt_view(year)),
        ensures
            r as int == spec_days_in_range(transactions@, opt_view(month), opt_view(year)),
            r >= 1,
    {
        let m = match month {
            Some(ms) => parse_u32(ms),
            None => None,
        };
        let y = match year {
            Some(ys) => parse_i32(ys),
            None => None,
        };
        if let (Some(m), Some(y)) = (m, y) {
            if 1 <= m && m <= 12 {
                let d = last_day_of_month(y, m);
                return d as i64;
            }
        }
        let n = transactions.len();
        if n == 0 {
            return 1;
        }
        let mut lo = utc_day_number(transactions[0].transaction_date);
        let mut hi = lo;
        let mut i: usize = 1;
        while i < n
            invariant
                n == transactions@.len(),
                1 <= i <= n,
                lo as int == min_day(transactions@.take(i as int)),
                hi as int == max_day(transactions@.take(i as int)),
            decreases n - i,
        {
            let d = utc_day_number(transactions[i].transaction_date);
            proof {
                assert(transactions@.take(i + 1).drop_last() =~= transactions@.take(i as int));
            }
            if d < lo {
                lo = d;
            }
            if d > hi {
                hi = d;
            }
            i = i + 1;
        }
        proof {
            assert(transactions@.take(n as int) =~= transactions@);
            lemma_min_max_day(transactions@);
            let a = choose|a: int| 0 <= a < transactions@.len() && utc_day((#[trigger] transactions@[a]).transaction_date as int) == min_day(transactions@);
            let b = choose|b: int| 0 <= b < transactions@.len() && utc_day((#[trigger] transactions@[b]).transaction_date as int) == max_day(transactions@);
            lemma_utc_day_bounds(transactions@[a].transaction_date as int);
            lemma_utc_day_bounds(transactions@[b].transaction_date as int);
        }
        hi - lo + 1
    }

    /// Statistics of the transactions of the chosen range: totals, the five
    /// largest expense categories, the average daily expense (rounded toward
    /// zero) and the number of transactions.
    pub fn build_transaction_stats(
        transactions: &[Transaction],
        month: Option<&str>,
        year: Option<&str>,
    ) -> (r: TransactionStatsResponse)
        requires
            transaction_sums_fit(transactions@),
            stats_month_supported(opt_view(month), opt_view(year)),
        ensures
            r.total_income == income_sum(transactions@),
            r.total_expense == expense_sum(transactions@),
            r.transaction_count == transactions@.len(),
            r.average_daily_expense as int == trunc_div(
                expense_sum(transactions@),
                spec_days_in_range(transactions@, opt_view(month), opt_view(year)),
            ),
            category_stats_exact(transactions@, r.top_expense_category@),
            r.top_expense_category@.len() <= 5,
            sorted_desc(r.top_expense_category@),
            forall|c: Seq<char>|
                #![trigger is_expense_category(transactions@, c)]
                is_expense_category(transactions@, c) && !(exists|j: int|
                    0 <= j < r.top_expense_category@.len()
                        && (#[trigger] r.top_expense_category@[j]).category@ == c) ==> r.top_expense_category@.len()
                    == 5 && category_sum(transactions@, c) <= r.top_expense_category@.last().total_amount,
    {
        let n = transactions.len();
        let mut total_income: i64 = 0;
        let mut total_expense: i64 = 0;
        let mut i: usize = 0;
        while i < n
            invariant
                n == transactions@.len(),
                0 <= i <= n,
                transaction_sums_fit(transactions@),
                total_income == income_sum(transactions@.take(i as int)),
                total_expense == expense_sum(transactions@.take(i as int)),
            decreases n - i,
        {
            proof {
                lemma_take_step(transactions@, i as int);
                assert(fits_i64(income_sum(transactions@.take(i + 1))));
                assert(fits_i64(expense_sum(transactions@.take(i + 1))));
            }
            match transactions[i].type_ {
                TransactionType::Income => total_income = total_income + transactions[i].amount,
                TransactionType::Expense => total_expense = total_expense + transactions[i].amount,
            }
            i = i + 1;
        }
        proof {
            assert(transactions@.take(n as int) =~= transactions@);
        }
        let groups = group_expense_categories(transactions);
        let ghost g = groups@;
        let top = select_top(groups, 5);
        let days = Self::days_in_range(transactions, month, year);
        let average_daily_expense = if days > 0 {
            trunc_div_i64(total_expense, days)
        } else {
            0
        };
        proof {
            assert forall|j: int| 0 <= j < top@.len() implies is_expense_category(
                transactions@,
                (#[trigger] top@[j]).category@,
            ) && top@[j].total_amount == category_sum(transactions@, top@[j].category@)
                && top@[j].count == category_count(transactions@, top@[j].category@) by {
                assert(g.contains(top@[j]));
                let k = choose|k: int| 0 <= k < g.len() && g[k] == top@[j];
                assert(g[k] == top@[j]);
            }
            assert forall|c: Seq<char>|
                #![trigger is_expense_category(transactions@, c)]
                is_expense_category(transactions@, c) && !(exists|j: int|
                    0 <= j < top@.len() && (#[trigger] top@[j]).category@ == c) implies top@.len()
                    == 5 && category_sum(transactions@, c) <= top@.last().total_amount by {
                let k = choose|k: int| 0 <= k < g.len() && (#[trigger] g[k]).category@ == c;
                let x = g[k];
                g.to_multiset_ensures();
                top@.to_multiset_ensures();
                assert(g.contains(x));
                if top@.to_multiset().count(x) > 0 {
                    assert(top@.contains(x));
                    let j = choose|j: int| 0 <= j < top@.len() && top@[j] == x;
                    assert(top@[j].category@ == c);
                }
                assert(g.to_multiset().count(x) > top@.to_multiset().count(x));
            }
        }
        TransactionStatsResponse {
            total_income,
            total_expense,
            top_expense_category: top,
            average_daily_expense,
            transaction_count: n as i64,
        }
    }
}

} // verus!

verus! {

// ===== Subscription statistics: specification =====

/// What a subscription costs per month: yearly amounts are divided by 12
/// (rounding toward zero).
pub open spec fn monthly_amount(s: Subscription) -> int {
    match s.billing_cycle {
        BillingCycle::Monthly => s.amount as int,
        BillingCycle::Yearly => trunc_div(s.amount as int, 12),
    }
}

/// What a subscription costs per year: monthly amounts times 12.
pub open spec fn yearly_amount(s: Subscription) -> int {
    match s.billing_cycle {
        BillingCycle::Monthly => s.amount as int * 12,
        BillingCycle::Yearly => s.amount as int,
    }
}

/// Whether the subscription is billed in the month of `today`: monthly ones
/// always, yearly ones when their billing month (1 when unset) is that month.
pub open spec fn due_this_month(s: Subscription, today: CivilDate) -> bool {
    match s.billing_cycle {
        BillingCycle::Monthly => true,
        BillingCycle::Yearly => {
            let m = match s.billing_month {
                Some(m) => m as int,
                None => 1,
            };
            m == today.month
        },
    }
}

/// The billing date of this month, when the subscription is due this month.
pub open spec fn spec_current_month_billing_date(s: Subscription, today: CivilDate) -> Option<
    CivilDate,
> {
    if due_this_month(s, today) {
        Some(spec_billing_date(today.year as int, today.month as int, s.billing_day as int))
    } else {
        None
    }
}

pub open spec fn is_passed(s: Subscription, today: CivilDate) -> bool {
    match spec_current_month_billing_date(s, today) {
        Some(d) => date_lt(d, today),
        None => false,
    }
}

pub open spec fn is_remaining(s: Subscription, today: CivilDate) -> bool {
    match spec_current_month_billing_date(s, today) {
        Some(d) => !date_lt(d, today),
        None => false,
    }
}

/// Sum of `f` over the subscriptions.
pub open spec fn sum_by(s: Seq<Subscription>, f: spec_fn(Subscription) -> int) -> int
    decreases s.len(),
{
    if s.len() == 0 {
        0
    } else {
        sum_by(s.drop_last(), f) + f(s.last())
    }
}

pub open spec fn monthly_f() -> spec_fn(Subscription) -> int {
    |x: Subscription| monthly_amount(x)
}

pub open spec fn yearly_f() -> spec_fn(Subscription) -> int {
    |x: Subscription| yearly_amount(x)
}

pub open spec fn passed_amount_f(today: CivilDate) -> spec_fn(Subscription) -> int {
    |x: Subscription|
        if is_passed(x, today) {
            x.amount as int
        } else {
            0
        }
}

pub open spec fn remaining_amount_f(today: CivilDate) -> spec_fn(Subscription) -> int {
    |x: Subscription|
        if is_remaining(x, today) {
            x.amount as int
        } else {
            0
        }
}

pub open spec fn passed_count_f(today: CivilDate) -> spec_fn(Subscription) -> int {
    |x: Subscription|
        if is_passed(x, today) {
            1int
        } else {
            0
        }
}

pub open spec fn remaining_count_f(today: CivilDate) -> spec_fn(Subscription) -> int {
    |x: Subscription|
        if is_remaining(x, today) {
            1int
        } else {
            0
        }
}

pub open spec fn cycle_count_f(cycle: BillingCycle) -> spec_fn(Subscription) -> int {
    |x: Subscription|
        if x.billing_cycle == cycle {
            1int
        } else {
            0
        }
}

pub open spec fn sub_category_monthly_f(c: Option<Seq<char>>) -> spec_fn(Subscription) -> int {
    |x: Subscription|
        if opt_string_view(x.category) == c {
            monthly_amount(x)
        } else {
            0
        }
}

pub open spec fn sub_category_count_f(c: Option<Seq<char>>) -> spec_fn(Subscription) -> int {
    |x: Subscription|
        if opt_string_view(x.category) == c {
            1int
        } else {
            0
        }
}

pub open spec fn has_sub_category(s: Seq<Subscription>, c: Option<Seq<char>>) -> bool {
    exists|i: int| 0 <= i < s.len() && opt_string_view((#[trigger] s[i]).category) == c
}

/// The billing dates of this month can be built: only December of chrono's
/// last year has no following month, and it matters only when something is
/// due.
pub open spec fn billing_dates_supported(s: Seq<Subscription>, today: CivilDate) -> bool {
    &&& valid_date(today)
    &&& (today.month == 12 && today.year == max_year()) ==> forall|i: int|
        0 <= i < s.len() ==> !due_this_month(#[trigger] s[i], today)
}

/// Every running total that the statistics keep stays within `i64`.
pub open spec fn subscription_sums_fit(s: Seq<Subscription>, today: CivilDate) -> bool {
    &&& s.len() <= i64::MAX
    &&& forall|i: int|
        0 <= i < s.len() && (#[trigger] s[i]).billing_cycle == BillingCycle::Monthly ==> fits_i64(
            s[i].amount as int * 12,
        )
    &&& forall|k: int|
        0 <= k <= s.len() ==> {
            &&& fits_i64(#[trigger] sum_by(s.take(k), monthly_f()))
            &&& fits_i64(sum_by(s.take(k), yearly_f()))
            &&& fits_i64(sum_by(s.take(k), passed_amount_f(today)))
            &&& fits_i64(sum_by(s.take(k), remaining_amount_f(today)))
        }
    &&& forall|k: int, c: Option<Seq<char>>|
        0 <= k <= s.len() ==> fits_i64(#[trigger] sum_by(s.take(k), sub_category_monthly_f(c)))
}

/// The per-category figures are exact totals of distinct categories.
pub open spec fn sub_category_stats_exact(
    s: Seq<Subscription>,
    g: Seq<SubscriptionCategoryStat>,
) -> bool {
    &&& distinct_keys(g)
    &&& forall|j: int|
        0 <= j < g.len() ==> has_sub_category(s, opt_string_view((#[trigger] g[j]).category))
            && g[j].monthly_amount == sum_by(s, sub_category_monthly_f(opt_string_view(g[j].category)))
            && g[j].count == sum_by(s, sub_category_count_f(opt_string_view(g[j].category)))
}

/// The entry a subscription contributes to the list of largest expenses.
pub open spec fn top_entry(s: Subscription) -> SubscriptionTopExpense {
    SubscriptionTopExpense { name: s.name, monthly_amount: monthly_amount(s) as i64 }
}

// ===== Subscription statistics: proofs and code =====

proof fn lemma_sub_take_step(s: Seq<Subscription>, i: int)
    requires
        0 <= i < s.len(),
    ensures
        s.take(i + 1).drop_last() == s.take(i),
        s.take(i + 1).last() == s[i],
        s.take(i + 1).len() == i + 1,
{
    assert(s.take(i + 1).drop_last() =~= s.take(i));
}

proof fn lemma_sum_by_bounds(s: Seq<Subscription>, f: spec_fn(Subscription) -> int)
    requires
        forall|x: Subscription| 0 <= #[trigger] f(x) <= 1,
    ensures
        0 <= sum_by(s, f) <= s.len(),
    decreases s.len(),
{
    if s.len() > 0 {
        lemma_sum_by_bounds(s.drop_last(), f);
    }
}

proof fn lemma_sum_by_zero(s: Seq<Subscription>, f: spec_fn(Subscription) -> int)
    requires
        forall|i: int| 0 <= i < s.len() ==> f(#[trigger] s[i]) == 0,
    ensures
        sum_by(s, f) == 0,
    decreases s.len(),
{
    if s.len() > 0 {
        assert forall|i: int| 0 <= i < s.drop_last().len() implies f(#[trigger] s.drop_last()[i]) == 0 by {
            assert(s.drop_last()[i] == s[i]);
        }
        assert(f(s[s.len() - 1]) == 0);
        lemma_sum_by_zero(s.drop_last(), f);
    }
}

/// Subscription amount per month.
pub fn normalize_monthly(subscription: &Subscription) -> (r: i64)
    ensures
        r as int == monthly_amount(*subscription),
{
    match subscription.billing_cycle {
        BillingCycle::Monthly => subscription.amount,
        BillingCycle::Yearly => trunc_div_i64(subscription.amount, 12),
    }
}

/// This month's billing date of a subscription, when it is due this month.
pub fn current_month_billing_date(subscription: &Subscription, today: CivilDate) -> (r: Option<
    CivilDate,
>)
    requires
        valid_date(today),
        due_this_month(*subscription, today) ==> !(today.month == 12 && today.year == max_year()),
    ensures
        r == spec_current_month_billing_date(*subscription, today),
{
    match subscription.billing_cycle {
        BillingCycle::Monthly => Some(build_billing_date(today.year, today.month, subscription.billing_day)),
        BillingCycle::Yearly => {
            let month = match subscription.billing_month {
                Some(m) => m,
                None => 1,
            };
            if month >= 0 && month as u32 == today.month {
                Some(build_billing_date(today.year, today.month, subscription.billing_day))
            } else {
                None
            }
        },
    }
}

fn opt_str_eq(a: &Option<String>, b: &Option<String>) -> (r: bool)
    ensures
        r == (opt_string_view(*a) == opt_string_view(*b)),
{
    match (a, b) {
        (Some(x), Some(y)) => str_eq(x.as_str(), y.as_str()),
        (None, None) => true,
        _ => false,
    }
}

/// Groups the subscriptions by category, in order of first appearance, with
/// the monthly amount and the number of each.
fn group_subscription_categories(s: &[Subscription], Ghost(today): Ghost<CivilDate>) -> (g: Vec<
    SubscriptionCategoryStat,
>)
    requires
        subscription_sums_fit(s@, today),
    ensures
        sub_category_stats_exact(s@, g@),
        g@.len() <= s@.len(),
        forall|c: Option<Seq<char>>|
            #![trigger has_sub_category(s@, c)]
            has_sub_category(s@, c) ==> exists|j: int|
                0 <= j < g@.len() && opt_string_view((#[trigger] g@[j]).category) == c,
{
    let mut g: Vec<SubscriptionCategoryStat> = Vec::new();
    let n = s.len();
    let mut i: usize = 0;
    while i < n
        invariant
            n == s@.len(),
            0 <= i <= n,
            subscription_sums_fit(s@, today),
            g@.len() <= i,
            sub_category_stats_exact(s@.take(i as int), g@),
            forall|c: Option<Seq<char>>|
                #![trigger has_sub_category(s@.take(i as int), c)]
                has_sub_category(s@.take(i as int), c) ==> exists|j: int|
                    0 <= j < g@.len() && opt_string_view((#[trigger] g@[j]).category) == c,
        decreases n - i,
    {
        let t = &s[i];
        let m = normalize_monthly(t);
        proof {
            lemma_sub_take_step(s@, i as int);
        }
        let ghost prev = s@.take(i as int);
        let ghost cur = s@.take(i + 1);
        let ghost tc = opt_string_view(t.category);
        proof {
            assert forall|c: Option<Seq<char>>|
                has_sub_category(cur, c) == (has_sub_category(prev, c) || tc == c) by {
                if has_sub_category(cur, c) {
                    let k = choose|k: int|
                        0 <= k < cur.len() && opt_string_view((#[trigger] cur[k]).category) == c;
                    if k < i {
                        assert(prev[k] == cur[k]);
                    }
                }
                if has_sub_category(prev, c) {
                    let k = choose|k: int|
                        0 <= k < prev.len() && opt_string_view((#[trigger] prev[k]).category) == c;
                    assert(cur[k] == prev[k]);
                }
                if tc == c {
                    assert(cur[i as int] == s@[i as int]);
                }
            }
        }
        let mut found: Option<usize> = None;
        let mut j: usize = 0;
        while j < g.len()
            invariant
                0 <= j <= g@.len(),
                tc == opt_string_view(t.category),
                found is None ==> forall|k: int|
                    0 <= k < j ==> opt_string_view(g@[k].category) != tc,
                found matches Some(f) ==> f < g@.len() && opt_string_view(g@[f as int].category)
                    == tc,
            decreases g@.len() - j,
        {
            if found.is_none() && opt_str_eq(&g[j].category, &t.category) {
                found = Some(j);
            }
            j = j + 1;
        }
        match found {
            Some(f) => {
                let old_total = g[f].monthly_amount;
                let old_count = g[f].count;
                proof {
                    assert(fits_i64(sum_by(cur, sub_category_monthly_f(tc))));
                    lemma_sum_by_bounds(prev, sub_category_count_f(tc));
                }
                let entry = SubscriptionCategoryStat {
                    category: clone_opt_string(&g[f].category),
                    monthly_amount: old_total + m,
                    count: old_count + 1,
                };
                let ghost old_g = g@;
                g.set(f, entry);
                proof {
                    assert forall|a: int, b: int|
                        0 <= a < g@.len() && 0 <= b < g@.len() && a != b implies g@[a].group_key()
                        != g@[b].group_key() by {
                        assert(old_g[a].group_key() != old_g[b].group_key());
                    }
                    assert forall|k: int| 0 <= k < g@.len() implies has_sub_category(
                        cur,
                        opt_string_view((#[trigger] g@[k]).category),
                    ) && g@[k].monthly_amount == sum_by(
                        cur,
                        sub_category_monthly_f(opt_string_view(g@[k].category)),
                    ) && g@[k].count == sum_by(
                        cur,
                        sub_category_count_f(opt_string_view(g@[k].category)),
                    ) by {
                        if k != f {
                            assert(g@[k] == old_g[k]);
                        }
                    }
                    assert forall|c: Option<Seq<char>>|
                        #![trigger has_sub_category(cur, c)]
                        has_sub_category(cur, c) implies exists|k: int|
                            0 <= k < g@.len() && opt_string_view((#[trigger] g@[k]).category)
                                == c by {
                        if has_sub_category(prev, c) {
                            let k = choose|k: int|
                                0 <= k < old_g.len() && opt_string_view(
                                    (#[trigger] old_g[k]).category,
                                ) == c;
                            assert(opt_string_view(g@[k].category) == c);
                        } else {
                            assert(opt_string_view(g@[f as int].category) == c);
                        }
                    }
                }
            },
            None => {
                proof {
                    assert(fits_i64(sum_by(cur, sub_category_monthly_f(tc))));
                    assert(!has_sub_category(prev, tc)) by {
                        if has_sub_category(prev, tc) {
                            let k = choose|k: int|
                                0 <= k < g@.len() && opt_string_view((#[trigger] g@[k]).category)
                                    == tc;
                        }
                    }
                    assert forall|k: int| 0 <= k < prev.len() implies sub_category_monthly_f(tc)(
                        #[trigger] prev[k],
                    ) == 0 by {
                        assert(!(opt_string_view(prev[k].category) == tc));
                    }
                    lemma_sum_by_zero(prev, sub_category_monthly_f(tc));
                    assert forall|k: int| 0 <= k < prev.len() implies sub_category_count_f(tc)(
                        #[trigger] prev[k],
                    ) == 0 by {
                        assert(!(opt_string_view(prev[k].category) == tc));
                    }
                    lemma_sum_by_zero(prev, sub_category_count_f(tc));
                }
                let entry = SubscriptionCategoryStat {
                    category: clone_opt_string(&t.category),
                    monthly_amount: m,
                    count: 1,
                };
                let ghost old_g = g@;
                g.push(entry);
                proof {
                    assert forall|a: int, b: int|
                        0 <= a < g@.len() && 0 <= b < g@.len() && a != b implies g@[a].group_key()
                        != g@[b].group_key() by {
                        if a < old_g.len() && b < old_g.len() {
                            assert(old_g[a].group_key() != old_g[b].group_key());
                        }
                    }
                    assert forall|k: int| 0 <= k < g@.len() implies has_sub_category(
                        cur,
                        opt_string_view((#[trigger] g@[k]).category),
                    ) && g@[k].monthly_amount == sum_by(
                        cur,
                        sub_category_monthly_f(opt_string_view(g@[k].category)),
                    ) && g@[k].count == sum_by(
                        cur,
                        sub_category_count_f(opt_string_view(g@[k].category)),
                    ) by {
                        if k < old_g.len() {
                            assert(g@[k] == old_g[k]);
                        }
                    }
                    assert forall|c: Option<Seq<char>>|
                        #![trigger has_sub_category(cur, c)]
                        has_sub_category(cur, c) implies exists|k: int|
                            0 <= k < g@.len() && opt_string_view((#[trigger] g@[k]).category)
                                == c by {
                        if has_sub_category(prev, c) {
                            let k = choose|k: int|
                                0 <= k < old_g.len() && opt_string_view(
                                    (#[trigger] old_g[k]).category,
                                ) == c;
                            assert(opt_string_view(g@[k].category) == c);
                        } else {
                            assert(opt_string_view(g@[old_g.len() as int].category) == c);
                        }
                    }
                }
            },
        }
        i = i + 1;
    }
    proof {
        assert(s@.take(n as int) =~= s@);
    }
    g
}

/// The statistics answered for the active subscriptions `s` on the day
/// `today`: everything `build_subscription_stats_on` states of its result.
pub open spec fn subscription_stats_on(
    r: SubscriptionStatsResponse,
    s: Seq<Subscription>,
    total_count: i64,
    today: CivilDate,
) -> bool {
    &&& r.monthly_recurring == sum_by(s, monthly_f())
    &&& r.yearly_estimate == sum_by(s, yearly_f())
    &&& r.active_count == s.len()
    &&& r.total_count == total_count
    &&& r.passed_this_month.count == sum_by(s, passed_count_f(today))
    &&& r.passed_this_month.amount == sum_by(s, passed_amount_f(today))
    &&& r.remaining_this_month.count == sum_by(s, remaining_count_f(today))
    &&& r.remaining_this_month.amount == sum_by(s, remaining_amount_f(today))
    &&& r.cycle_split.monthly_count == sum_by(s, cycle_count_f(BillingCycle::Monthly))
    &&& r.cycle_split.yearly_count == sum_by(s, cycle_count_f(BillingCycle::Yearly))
    &&& sub_category_stats_exact(s, r.category_breakdown@)
    &&& sorted_desc(r.category_breakdown@)
    &&& forall|c: Option<Seq<char>>|
        #![trigger has_sub_category(s, c)]
        has_sub_category(s, c) ==> exists|j: int|
            0 <= j < r.category_breakdown@.len() && opt_string_view(
                (#[trigger] r.category_breakdown@[j]).category,
            ) == c
    &&& r.top_expenses@.len() == min_nat(4, s.len() as int)
    &&& sorted_desc(r.top_expenses@)
    &&& r.top_expenses@.to_multiset().subset_of(s.map_values(|x: Subscription| top_entry(x)).to_multiset())
    &&& forall|x: SubscriptionTopExpense|
        s.map_values(|y: Subscription| top_entry(y)).to_multiset().count(x) > r.top_expenses@.to_multiset().count(
            x,
        ) ==> r.top_expenses@.len() == 4 && x.rank() <= r.top_expenses@.last().rank()
    &&& picked_stably(s.map_values(|x: Subscription| top_entry(x)), r.top_expenses@)
}

} // verus!

verus! {

impl TransactionService {
    /// Statistics of the active subscriptions on the day `today`: monthly and
    /// yearly totals, what is due this month (already billed or still to
    /// come), the monthly amount per category from largest to smallest, the
    /// split by billing cycle and the four largest monthly expenses.
    pub fn build_subscription_stats_on(
        active_subscriptions: &[Subscription],
        total_count: i64,
        today: CivilDate,
    ) -> (r: SubscriptionStatsResponse)
        requires
            billing_dates_supported(active_subscriptions@, today),
            subscription_sums_fit(active_subscriptions@, today),
        ensures
            subscription_stats_on(r, active_subscriptions@, total_count, today),
    {
        let ghost s = active_subscriptions@;
        let n = active_subscriptions.len();
        let mut monthly_recurring: i64 = 0;
        let mut yearly_estimate: i64 = 0;
        let mut remaining_count: i64 = 0;
        let mut remaining_amount: i64 = 0;
        let mut passed_count: i64 = 0;
        let mut passed_amount: i64 = 0;
        let mut monthly_count: i64 = 0;
        let mut yearly_count: i64 = 0;
        let mut top: Vec<SubscriptionTopExpense> = Vec::new();
        let mut i: usize = 0;
        while i < n
            invariant
                n == s.len(),
                s == active_subscriptions@,
                0 <= i <= n,
                billing_dates_supported(s, today),
                subscription_sums_fit(s, today),
                monthly_recurring == sum_by(s.take(i as int), monthly_f()),
                yearly_estimate == sum_by(s.take(i as int), yearly_f()),
                remaining_count == sum_by(s.take(i as int), remaining_count_f(today)),
                remaining_amount == sum_by(s.take(i as int), remaining_amount_f(today)),
                passed_count == sum_by(s.take(i as int), passed_count_f(today)),
                passed_amount == sum_by(s.take(i as int), passed_amount_f(today)),
                monthly_count == sum_by(s.take(i as int), cycle_count_f(BillingCycle::Monthly)),
                yearly_count == sum_by(s.take(i as int), cycle_count_f(BillingCycle::Yearly)),
                top@ == s.take(i as int).map_values(|x: Subscription| top_entry(x)),
            decreases n - i,
        {
            let sub = &active_subscriptions[i];
            proof {
                lemma_sub_take_step(s, i as int);
                let cur = s.take(i + 1);
                assert(fits_i64(sum_by(cur, monthly_f())));
                assert(fits_i64(sum_by(cur, yearly_f())));
                assert(fits_i64(sum_by(cur, passed_amount_f(today))));
                assert(fits_i64(sum_by(cur, remaining_amount_f(today))));
                lemma_sum_by_bounds(s.take(i as int), remaining_count_f(today));
                lemma_sum_by_bounds(s.take(i as int), passed_count_f(today));
                lemma_sum_by_bounds(s.take(i as int), cycle_count_f(BillingCycle::Monthly));
                lemma_sum_by_bounds(s.take(i as int), cycle_count_f(BillingCycle::Yearly));
                assert(s[i as int] == *sub);
            }
            let monthly = normalize_monthly(sub);
            monthly_recurring = monthly_recurring + monthly;
            match sub.billing_cycle {
                BillingCycle::Monthly => {
                    yearly_estimate = yearly_estimate + sub.amount * 12;
                    monthly_count = monthly_count + 1;
                },
                BillingCycle::Yearly => {
                    yearly_estimate = yearly_estimate + sub.amount;
                    yearly_count = yearly_count + 1;
                },
            }
            if let Some(billing_date) = current_month_billing_date(sub, today) {
                if date_before(billing_date, today) {
                    passed_count = passed_count + 1;
                    passed_amount = passed_amount + sub.amount;
                } else {
                    remaining_count = remaining_count + 1;
                    remaining_amount = remaining_amount + sub.amount;
                }
            }
            top.push(SubscriptionTopExpense { name: sub.name.clone(), monthly_amount: monthly });
            proof {
                assert(s.take(i + 1).map_values(|x: Subscription| top_entry(x)) =~= s.take(
                    i as int,
                ).map_values(|x: Subscription| top_entry(x)).push(top_entry(s[i as int])));
            }
            i = i + 1;
        }
        proof {
            assert(s.take(n as int) =~= s);
        }
        let groups = group_subscription_categories(active_subscriptions, Ghost(today));
        let ghost g = groups@;
        let group_count = groups.len();
        let category_breakdown = select_top(groups, group_count);
        let top_expenses = select_top(top, 4);
        proof {
            assert forall|j: int| 0 <= j < category_breakdown@.len() implies has_sub_category(
                s,
                opt_string_view((#[trigger] category_breakdown@[j]).category),
            ) && category_breakdown@[j].monthly_amount == sum_by(
                s,
                sub_category_monthly_f(opt_string_view(category_breakdown@[j].category)),
            ) && category_breakdown@[j].count == sum_by(
                s,
                sub_category_count_f(opt_string_view(category_breakdown@[j].category)),
            ) by {
                assert(g.contains(category_breakdown@[j]));
                let k = choose|k: int| 0 <= k < g.len() && g[k] == category_breakdown@[j];
                assert(g[k] == category_breakdown@[j]);
            }
            assert forall|c: Option<Seq<char>>|
                #![trigger has_sub_category(s, c)]
                has_sub_category(s, c) implies exists|j: int|
                    0 <= j < category_breakdown@.len() && opt_string_view(
                        (#[trigger] category_breakdown@[j]).category,
                    ) == c by {
                let k = choose|k: int| 0 <= k < g.len() && opt_string_view((#[trigger] g[k]).category) == c;
                let x = g[k];
                g.to_multiset_ensures();
                category_breakdown@.to_multiset_ensures();
                assert(g.contains(x));
                if category_breakdown@.to_multiset().count(x) > 0 {
                    assert(category_breakdown@.contains(x));
                    let j = choose|j: int| 0 <= j < category_breakdown@.len() && category_breakdown@[j] == x;
                    assert(opt_string_view(category_breakdown@[j].category) == c);
                } else {
                    assert(g.to_multiset().count(x) > category_breakdown@.to_multiset().count(x));
                    assert(category_breakdown@.to_multiset() == g.to_multiset());
                }
            }
        }
        SubscriptionStatsResponse {
            monthly_recurring,
            yearly_estimate,
            active_count: n as i64,
            total_count,
            remaining_this_month: SubscriptionMonthlyStat {
                count: remaining_count,
                amount: remaining_amount,
            },
            passed_this_month: SubscriptionMonthlyStat { count: passed_count, amount: passed_amount },
            category_breakdown,
            cycle_split: SubscriptionCycleSplit { monthly_count, yearly_count },
            top_expenses,
        }
    }
}

} // verus!

verus! {

/// A transaction or subscription as it will be stored: text trimmed, blank
/// optional text dropped.
pub struct NewTransaction {
    pub user_id: u128,
    pub type_: TransactionType,
    pub amount: i64,
    pub category: String,
    pub title: String,
    pub note: Option<String>,
    pub transaction_date: i64,
}

pub struct NewSubscription {
    pub user_id: u128,
    pub name: String,
    pub amount: i64,
    pub billing_cycle: BillingCycle,
    pub billing_day: i32,
    pub billing_month: Option<i32>,
    pub category: Option<String>,
    pub note: Option<String>,
    pub start_date: i64,
    pub end_date: Option<i64>,
}

/// Body of a create or update request for a transaction.
pub struct CreateTransactionRequest {
    pub type_: TransactionType,
    pub amount: i64,
    pub category: String,
    pub title: String,
    pub note: Option<String>,
    pub transaction_date: i64,
}

/// Body of a create or update request for a subscription.
pub struct CreateSubscriptionRequest {
    pub name: String,
    pub amount: i64,
    pub billing_cycle: BillingCycle,
    pub billing_day: i32,
    pub billing_month: Option<i32>,
    pub category: Option<String>,
    pub note: Option<String>,
    pub start_date: i64,
    pub end_date: Option<i64>,
}

/// An edit of a transaction has the fields of a creation.
pub type UpdateTransactionRequest = CreateTransactionRequest;

/// An edit of a subscription has the fields of a creation.
pub type UpdateSubscriptionRequest = CreateSubscriptionRequest;

pub struct TransactionResponse {
    pub id: u128,
    pub user_id: u128,
    pub type_: TransactionType,
    pub amount: i64,
    pub category: String,
    pub title: String,
    pub note: Option<String>,
    pub transaction_date: i64,
    pub created_at: i64,
    pub updated_at: i64,
}

pub struct SubscriptionResponse {
    pub id: u128,
    pub user_id: u128,
    pub name: String,
    pub amount: i64,
    pub billing_cycle: BillingCycle,
    pub billing_day: i32,
    pub billing_month: Option<i32>,
    pub category: Option<String>,
    pub note: Option<String>,
    pub start_date: i64,
    pub end_date: Option<i64>,
    pub is_active: bool,
    pub created_at: i64,
    pub updated_at: i64,
}

/// Subscriptions with the statistics of the active ones.
pub struct SubscriptionListResponse {
    pub items: Vec<SubscriptionResponse>,
    pub stats: SubscriptionStatsResponse,
}

pub struct TransactionRepository;

/// Paginated transactions with the statistics of their month.
pub struct TransactionListResponse {
    pub items: Vec<TransactionResponse>,
    pub total_items: i64,
    pub total_pages: i64,
    pub current_page: i64,
    pub stats: TransactionStatsResponse,
}

/// `billing_month` must be given for yearly billing and absent for monthly.
pub open spec fn spec_resolve_billing_month(cycle: BillingCycle, billing_month: Option<i32>) -> Result<
    Option<i32>,
    Seq<char>,
> {
    match cycle {
        BillingCycle::Yearly => match billing_month {
            Some(m) => Ok(Some(m)),
            None => Err("ต้องระบุ billing_month เมื่อจ่ายแบบรายปี"@),
        },
        BillingCycle::Monthly => match billing_month {
            Some(_) => Err("จ่ายแบบรายเดือนต้องไม่ระบุ billing_month"@),
            None => Ok(None),
        },
    }
}

impl TransactionService {
    /// Checks the billing month against the billing cycle: a yearly
    /// subscription needs one, a monthly one must not have one.
    pub fn resolve_billing_month(billing_cycle: BillingCycle, billing_month: Option<i32>) -> (r: Result<
        Option<i32>,
        AppError,
    >)
        ensures
            match spec_resolve_billing_month(billing_cycle, billing_month) {
                Ok(v) => r == Ok::<Option<i32>, AppError>(v),
                Err(msg) => rejects_bad_request(r, msg),
            },
    {
        match billing_cycle {
            BillingCycle::Yearly => match billing_month {
                Some(m) => Ok(Some(m)),
                None => Err(bad_request("ต้องระบุ billing_month เมื่อจ่ายแบบรายปี")),
            },
            BillingCycle::Monthly => {
                if billing_month.is_some() {
                    return Err(bad_request("จ่ายแบบรายเดือนต้องไม่ระบุ billing_month"));
                }
                Ok(None)
            },
        }
    }

    /// The transaction looked up for a user: missing is `NotFound`, someone
    /// else's is `Forbidden`.
    pub fn find_owned_transaction(found: Option<Transaction>, user_id: u128) -> (r: Result<
        Transaction,
        AppError,
    >)
        ensures
            found is None ==> rejects_not_found(r, "Transaction not found"@),
            found matches Some(t) ==> (t.user_id != user_id ==> rejects_forbidden(
                r,
                "คุณไม่มีสิทธิ์เข้าถึง Transaction นี้"@,
            )) && (t.user_id == user_id ==> r == Ok::<Transaction, AppError>(t)),
    {
        match found {
            None => Err(not_found("Transaction not found")),
            Some(t) => {
                if t.user_id != user_id {
                    return Err(forbidden("คุณไม่มีสิทธิ์เข้าถึง Transaction นี้"));
                }
                Ok(t)
            },
        }
    }

    /// The subscription looked up for a user: missing is `NotFound`, someone
    /// else's is `Forbidden`.
    pub fn find_owned_subscription(found: Option<Subscription>, user_id: u128) -> (r: Result<
        Subscription,
        AppError,
    >)
        ensures
            found is None ==> rejects_not_found(r, "Subscription not found"@),
            found matches Some(t) ==> (t.user_id != user_id ==> rejects_forbidden(
                r,
                "คุณไม่มีสิทธิ์เข้าถึง Subscription นี้"@,
            )) && (t.user_id == user_id ==> r == Ok::<Subscription, AppError>(t)),
    {
        match found {
            None => Err(not_found("Subscription not found")),
            Some(t) => {
                if t.user_id != user_id {
                    return Err(forbidden("คุณไม่มีสิทธิ์เข้าถึง Subscription นี้"));
                }
                Ok(t)
            },
        }
    }

    /// The row to store for a new or edited transaction of `user_id`.
    pub fn new_transaction(payload: &CreateTransactionRequest, user_id: u128) -> (r: NewTransaction)
        ensures
            r.user_id == user_id,
            r.type_ == payload.type_,
            r.amount == payload.amount,
            r.category@ == trimmed(payload.category@),
            r.title@ == trimmed(payload.title@),
            opt_string_view(r.note) == spec_normalize_optional(opt_string_view(payload.note)),
            r.transaction_date == payload.transaction_date,
    {
        NewTransaction {
            user_id,
            type_: payload.type_,
            amount: payload.amount,
            category: trimmed_string(&payload.category),
            title: trimmed_string(&payload.title),
            note: owned_optional_string(&payload.note),
            transaction_date: payload.transaction_date,
        }
    }

    /// The row to store for a new or edited subscription of `user_id`, after
    /// the billing month is checked against the cycle.
    pub fn new_subscription(payload: &CreateSubscriptionRequest, user_id: u128) -> (r: Result<
        NewSubscription,
        AppError,
    >)
        ensures
            match spec_resolve_billing_month(payload.billing_cycle, payload.billing_month) {
                Err(msg) => rejects_bad_request(r, msg),
                Ok(bm) => r matches Ok(n) && n.user_id == user_id && n.name@ == trimmed(
                    payload.name@,
                ) && n.amount == payload.amount && n.billing_cycle == payload.billing_cycle
                    && n.billing_day == payload.billing_day && n.billing_month == bm
                    && opt_string_view(n.category) == spec_normalize_optional(
                    opt_string_view(payload.category),
                ) && opt_string_view(n.note) == spec_normalize_optional(
                    opt_string_view(payload.note),
                ) && n.start_date == payload.start_date && n.end_date == payload.end_date,
            },
    {
        let billing_month = Self::resolve_billing_month(payload.billing_cycle, payload.billing_month)?;
        Ok(
            NewSubscription {
                user_id,
                name: trimmed_string(&payload.name),
                amount: payload.amount,
                billing_cycle: payload.billing_cycle,
                billing_day: payload.billing_day,
                billing_month,
                category: owned_optional_string(&payload.category),
                note: owned_optional_string(&payload.note),
                start_date: payload.start_date,
                end_date: payload.end_date,
            },
        )
    }

    /// Whether this month's billing dates can be built on `today`.
    pub fn billing_dates_buildable(subscriptions: &[Subscription], today: CivilDate) -> (r: bool)
        requires
            valid_date(today),
        ensures
            r == billing_dates_supported(subscriptions@, today),
    {
        if !(today.month == 12 && today.year == 262142) {
            return true;
        }
        let n = subscriptions.len();
        let mut i: usize = 0;
        while i < n
            invariant
                n == subscriptions@.len(),
                0 <= i <= n,
                valid_date(today),
                today.month == 12 && today.year == 262142,
                forall|k: int| 0 <= k < i ==> !due_this_month(#[trigger] subscriptions@[k], today),
            decreases n - i,
        {
            let s = &subscriptions[i];
            let due = match s.billing_cycle {
                BillingCycle::Monthly => true,
                BillingCycle::Yearly => {
                    let m = match s.billing_month {
                        Some(m) => m,
                        None => 1,
                    };
                    m >= 0 && m as u32 == today.month
                },
            };
            if due {
                proof {
                    assert(due_this_month(subscriptions@[i as int], today));
                }
                return false;
            }
            i = i + 1;
        }
        true
    }

    /// Statistics of the active subscriptions on today's UTC date (see
    /// `build_subscription_stats_on`), with the date used; `None` only when
    /// that date is in the last December chrono can represent and a billing
    /// date would fall after it.
    pub fn build_subscription_stats(active_subscriptions: &[Subscription], total_count: i64) -> (r: (
        Option<SubscriptionStatsResponse>,
        CivilDate,
    ))
        requires
            forall|t: CivilDate|
                valid_date(t) ==> #[trigger] subscription_sums_fit(active_subscriptions@, t),
        ensures
            valid_date(r.1),
            r.0 is None <==> !billing_dates_supported(active_subscriptions@, r.1),
            r.0 matches Some(st) ==> subscription_stats_on(st, active_subscriptions@, total_count, r.1),
    {
        let today = utc_today();
        if !Self::billing_dates_buildable(active_subscriptions, today) {
            return (None, today);
        }
        (Some(Self::build_subscription_stats_on(active_subscriptions, total_count, today)), today)
    }

    /// The list answer: one page of transactions with the statistics of the
    /// chosen month.
    pub fn transaction_list_response(
        items: Vec<Transaction>,
        total_items: i64,
        page: i64,
        limit: i64,
        stats: TransactionStatsResponse,
    ) -> (r: TransactionListResponse)
        ensures
            r.items@.len() == items@.len(),
            forall|i: int| 0 <= i < items@.len() ==> answers_transaction(#[trigger] r.items@[i], items@[i]),
            r.total_items == total_items,
            r.total_pages == spec_total_pages(total_items as int, limit as int),
            r.current_page == page,
            r.stats == stats,
    {
        let mut rest = items;
        let ghost all = rest@;
        let mut out: Vec<TransactionResponse> = Vec::new();
        while rest.len() > 0
            invariant
                out@.len() + rest@.len() == all.len(),
                forall|j: int| 0 <= j < rest@.len() ==> rest@[j] == all[out@.len() + j],
                forall|j: int| 0 <= j < out@.len() ==> answers_transaction(#[trigger] out@[j], all[j]),
            decreases rest@.len(),
        {
            let t = rest.remove(0);
            out.push(TransactionRepository::to_transaction_response(t));
        }
        let pagination = PaginatedData::new(out, total_items, page, limit);
        TransactionListResponse {
            items: pagination.items,
            total_items: pagination.total_items,
            total_pages: pagination.total_pages,
            current_page: pagination.current_page,
            stats,
        }
    }

    /// The subscriptions as answered, with the statistics.
    pub fn subscription_list_response(subscriptions: Vec<Subscription>, stats: SubscriptionStatsResponse) -> (r: SubscriptionListResponse)
        ensures
            r.items@.len() == subscriptions@.len(),
            forall|i: int| 0 <= i < subscriptions@.len() ==> answers_subscription(#[trigger] r.items@[i], subscriptions@[i]),
            r.stats == stats,
    {
        let mut rest = subscriptions;
        let ghost all = rest@;
        let mut out: Vec<SubscriptionResponse> = Vec::new();
        while rest.len() > 0
            invariant
                out@.len() + rest@.len() == all.len(),
                forall|j: int| 0 <= j < rest@.len() ==> rest@[j] == all[out@.len() + j],
                forall|j: int| 0 <= j < out@.len() ==> answers_subscription(#[trigger] out@[j], all[j]),
            decreases rest@.len(),
        {
            let t = rest.remove(0);
            out.push(TransactionRepository::to_subscription_response(t));
        }
        SubscriptionListResponse { items: out, stats }
    }

    /// The state a subscription is toggled to (the `is_active` of
    /// `toggled(*subscription)`).
    pub fn toggle_subscription(subscription: &Subscription) -> (r: bool)
        ensures
            r == !subscription.is_active,
            r == toggled(*subscription).is_active,
    {
        !subscription.is_active
    }
}

pub open spec fn answers_transaction(r: TransactionResponse, t: Transaction) -> bool {
    &&& r.id == t.id
    &&& r.user_id == t.user_id
    &&& r.type_ == t.type_
    &&& r.amount == t.amount
    &&& r.category == t.category
    &&& r.title == t.title
    &&& r.note == t.note
    &&& r.transaction_date == t.transaction_date
    &&& r.created_at == t.created_at
    &&& r.updated_at == t.updated_at
}

pub open spec fn answers_subscription(r: SubscriptionResponse, s: Subscription) -> bool {
    &&& r.id == s.id
    &&& r.user_id == s.user_id
    &&& r.name == s.name
    &&& r.amount == s.amount
    &&& r.billing_cycle == s.billing_cycle
    &&& r.billing_day == s.billing_day
    &&& r.billing_month == s.billing_month
    &&& r.category == s.category
    &&& r.note == s.note
    &&& r.start_date == s.start_date
    &&& r.end_date == s.end_date
    &&& r.is_active == s.is_active
    &&& r.created_at == s.created_at
    &&& r.updated_at == s.updated_at
}

impl TransactionRepository {
    pub fn to_transaction_response(t: Transaction) -> (r: TransactionResponse)
        ensures
            answers_transaction(r, t),
    {
        TransactionResponse {
            id: t.id,
            user_id: t.user_id,
            type_: t.type_,
            amount: t.amount,
            category: t.category,
            title: t.title,
            note: t.note,
            transaction_date: t.transaction_date,
            created_at: t.created_at,
            updated_at: t.updated_at,
        }
    }

    pub fn to_subscription_response(s: Subscription) -> (r: SubscriptionResponse)
        ensures
            answers_subscription(r, s),
    {
        SubscriptionResponse {
            id: s.id,
            user_id: s.user_id,
            name: s.name,
            amount: s.amount,
            billing_cycle: s.billing_cycle,
            billing_day: s.billing_day,
            billing_month: s.billing_month,
            category: s.category,
            note: s.note,
            start_date: s.start_date,
            end_date: s.end_date,
            is_active: s.is_active,
            created_at: s.created_at,
            updated_at: s.updated_at,
        }
    }
}

// ===== Request rules =====

impl CreateTransactionRequest {
    /// The broken rules: a positive amount, a category of 1 to 50 characters and a title of 1 to 100 once trimmed, a note of at most 3000.
    pub fn validate(&self) -> (r: Vec<FieldError>)
        ensures
            issues(r@) == issue_if(self.amount < 1, "amount"@, "range"@, Some("Amount must be greater than 0"@)) + issue_if(!(1 <= char_len(trimmed(self.category@)) <= 50), "category"@, "invalid_transaction_category"@, None) + issue_if(!(1 <= char_len(trimmed(self.title@)) <= 100), "title"@, "invalid_transaction_title"@, None) + match self.note { Some(x) => issue_if(char_len(x@) > 3000, "note"@, "invalid_transaction_note"@, None), None => Seq::<Issue>::empty() },
    {
        let mut errors: Vec<FieldError> = Vec::new();
        proof {
            assert(issues(errors@) =~= Seq::<Issue>::empty());
        }
        check_range(&mut errors, "amount", self.amount as i64, Some(1), None, "Amount must be greater than 0");
        check_trimmed_len(&mut errors, "category", self.category.as_str(), 50, "invalid_transaction_category");
        check_trimmed_len(&mut errors, "title", self.title.as_str(), 100, "invalid_transaction_title");
        match &self.note {
            Some(x) => {
                check_max_chars(&mut errors, "note", x.as_str(), 3000, "invalid_transaction_note");
            },
            None => {
                proof {
                    assert(issues(errors@) =~= issues(errors@) + Seq::<Issue>::empty());
                }
            },
        }
        errors
    }
}

impl CreateSubscriptionRequest {
    /// The broken rules: a name of 1 to 100 characters once trimmed, a positive amount, a billing day of 1 to 31, a billing month of 1 to 12, a category of 1 to 50 characters once trimmed, a note of at most 3000.
    pub fn validate(&self) -> (r: Vec<FieldError>)
        ensures
            issues(r@) == issue_if(!(1 <= char_len(trimmed(self.name@)) <= 100), "name"@, "invalid_subscription_name"@, None) + issue_if(self.amount < 1, "amount"@, "range"@, Some("Amount must be greater than 0"@)) + issue_if(self.billing_day < 1 || self.billing_day > 31, "billing_day"@, "range"@, Some("Billing day must be between 1 and 31"@)) + match self.billing_month { Some(x) => issue_if(x < 1 || x > 12, "billing_month"@, "range"@, Some("Billing month must be between 1 and 12"@)), None => Seq::<Issue>::empty() } + match self.category { Some(x) => issue_if(!(1 <= char_len(trimmed(x@)) <= 50), "category"@, "invalid_transaction_category"@, None), None => Seq::<Issue>::empty() } + match self.note { Some(x) => issue_if(char_len(x@) > 3000, "note"@, "invalid_transaction_note"@, None), None => Seq::<Issue>::empty() },
    {
        let mut errors: Vec<FieldError> = Vec::new();
        proof {
            assert(issues(errors@) =~= Seq::<Issue>::empty());
        }
        check_trimmed_len(&mut errors, "name", self.name.as_str(), 100, "invalid_subscription_name");
        check_range(&mut errors, "amount", self.amount as i64, Some(1), None, "Amount must be greater than 0");
        check_range(&mut errors, "billing_day", self.billing_day as i64, Some(1), Some(31), "Billing day must be between 1 and 31");
        match &self.billing_month {
            Some(x) => {
                check_range(&mut errors, "billing_month", *x as i64, Some(1), Some(12), "Billing month must be between 1 and 12");
            },
            None => {
                proof {
                    assert(issues(errors@) =~= issues(errors@) + Seq::<Issue>::empty());
                }
            },
        }
        match &self.category {
            Some(x) => {
                check_trimmed_len(&mut errors, "category", x.as_str(), 50, "invalid_transaction_category");
            },
            None => {
                proof {
                    assert(issues(errors@) =~= issues(errors@) + Seq::<Issue>::empty());
                }
            },
        }
        match &self.note {
            Some(x) => {
                check_max_chars(&mut errors, "note", x.as_str(), 3000, "invalid_transaction_note");
            },
            None => {
                proof {
                    assert(issues(errors@) =~= issues(errors@) + Seq::<Issue>::empty());
                }
            },
        }
        errors
    }
}

/// Subscriptions due this month.
pub open spec fn due_count_f(today: CivilDate) -> spec_fn(Subscription) -> int {
    |x: Subscription|
        if due_this_month(x, today) {
            1int
        } else {
            0
        }
}

/// Every active subscription is billed monthly or yearly, and every one due
/// this month is either already paid or still to pay, never both.
pub proof fn law_subscription_counts_partition(s: Seq<Subscription>, today: CivilDate)
    ensures
        sum_by(s, cycle_count_f(BillingCycle::Monthly)) + sum_by(s, cycle_count_f(BillingCycle::Yearly))
            == s.len(),
        sum_by(s, passed_count_f(today)) + sum_by(s, remaining_count_f(today)) == sum_by(s, due_count_f(today)),
    decreases s.len(),
{
    if s.len() > 0 {
        law_subscription_counts_partition(s.drop_last(), today);
    }
}

} // verus!

verus! {

// ===== Checks that the running totals fit =====

pub open spec fn abs_amount(a: i64) -> int {
    if a < 0 {
        -(a as int)
    } else {
        a as int
    }
}

/// Sum of the absolute amounts of the transactions.
pub open spec fn transaction_abs_total(s: Seq<Transaction>) -> int
    decreases s.len(),
{
    if s.len() == 0 {
        0
    } else {
        transaction_abs_total(s.drop_last()) + abs_amount(s.last().amount)
    }
}

/// Sum of the absolute amounts of the subscriptions.
pub open spec fn subscription_abs_total(s: Seq<Subscription>) -> int
    decreases s.len(),
{
    if s.len() == 0 {
        0
    } else {
        subscription_abs_total(s.drop_last()) + abs_amount(s.last().amount)
    }
}

proof fn lemma_transaction_sums_within(s: Seq<Transaction>, c: Seq<char>)
    ensures
        -transaction_abs_total(s) <= income_sum(s) <= transaction_abs_total(s),
        -transaction_abs_total(s) <= expense_sum(s) <= transaction_abs_total(s),
        -transaction_abs_total(s) <= category_sum(s, c) <= transaction_abs_total(s),
    decreases s.len(),
{
    if s.len() > 0 {
        lemma_transaction_sums_within(s.drop_last(), c);
    }
}

proof fn lemma_transaction_prefix_total(s: Seq<Transaction>, k: int)
    requires
        0 <= k <= s.len(),
    ensures
        0 <= transaction_abs_total(s.take(k)) <= transaction_abs_total(s),
    decreases s.len() - k,
{
    if k < s.len() {
        lemma_transaction_prefix_total(s, k + 1);
        assert(s.take(k + 1).drop_last() =~= s.take(k));
        lemma_transaction_total_nonneg(s.take(k));
    } else {
        assert(s.take(k) =~= s);
        lemma_transaction_total_nonneg(s);
    }
}

proof fn lemma_transaction_total_nonneg(s: Seq<Transaction>)
    ensures
        transaction_abs_total(s) >= 0,
    decreases s.len(),
{
    if s.len() > 0 {
        lemma_transaction_total_nonneg(s.drop_last());
    }
}

/// A bound on each subscription's share: `f` is at most twelve times the
/// absolute amount.
pub open spec fn share_bounded(f: spec_fn(Subscription) -> int) -> bool {
    forall|x: Subscription| -12 * abs_amount(x.amount) <= #[trigger] f(x) <= 12 * abs_amount(x.amount)
}

proof fn lemma_sum_by_within(s: Seq<Subscription>, f: spec_fn(Subscription) -> int)
    requires
        share_bounded(f),
    ensures
        -12 * subscription_abs_total(s) <= sum_by(s, f) <= 12 * subscription_abs_total(s),
    decreases s.len(),
{
    if s.len() > 0 {
        lemma_sum_by_within(s.drop_last(), f);
        assert(-12 * abs_amount(s.last().amount) <= f(s.last()) <= 12 * abs_amount(s.last().amount));
    }
}

proof fn lemma_subscription_prefix_total(s: Seq<Subscription>, k: int)
    requires
        0 <= k <= s.len(),
    ensures
        0 <= subscription_abs_total(s.take(k)) <= subscription_abs_total(s),
    decreases s.len() - k,
{
    if k < s.len() {
        lemma_subscription_prefix_total(s, k + 1);
        assert(s.take(k + 1).drop_last() =~= s.take(k));
        lemma_subscription_total_nonneg(s.take(k));
    } else {
        assert(s.take(k) =~= s);
        lemma_subscription_total_nonneg(s);
    }
}

proof fn lemma_subscription_total_nonneg(s: Seq<Subscription>)
    ensures
        subscription_abs_total(s) >= 0,
    decreases s.len(),
{
    if s.len() > 0 {
        lemma_subscription_total_nonneg(s.drop_last());
    }
}

proof fn lemma_amount_within_total(s: Seq<Subscription>, i: int)
    requires
        0 <= i < s.len(),
    ensures
        abs_amount(s[i].amount) <= subscription_abs_total(s),
    decreases s.len(),
{
    lemma_subscription_total_nonneg(s.drop_last());
    if i < s.len() - 1 {
        lemma_amount_within_total(s.drop_last(), i);
    }
}

proof fn lemma_shares_bounded(today: CivilDate, c: Option<Seq<char>>)
    ensures
        share_bounded(monthly_f()),
        share_bounded(yearly_f()),
        share_bounded(passed_amount_f(today)),
        share_bounded(remaining_amount_f(today)),
        share_bounded(sub_category_monthly_f(c)),
{
    assert forall|x: Subscription| -abs_amount(x.amount) <= #[trigger] monthly_amount(x) <= abs_amount(x.amount) by {
        let a = x.amount as int;
        if a < 0 {
            assert((-a) / 12 <= -a);
        } else {
            assert(a / 12 <= a);
        }
    }
    assert forall|x: Subscription| -12 * abs_amount(x.amount) <= #[trigger] monthly_f()(x) <= 12 * abs_amount(x.amount) by {
        assert(-abs_amount(x.amount) <= monthly_amount(x) <= abs_amount(x.amount));
    }
    assert forall|x: Subscription| -12 * abs_amount(x.amount) <= #[trigger] sub_category_monthly_f(c)(x) <= 12 * abs_amount(x.amount) by {
        assert(-abs_amount(x.amount) <= monthly_amount(x) <= abs_amount(x.amount));
    }
}

impl TransactionService {
    /// Whether the absolute amounts of the transactions add up to at most
    /// `i64::MAX`, which keeps every running total of the statistics within
    /// `i64`.
    pub fn transaction_sums_checked(transactions: &[Transaction]) -> (r: bool)
        ensures
            r == (transactions@.len() <= i64::MAX && transaction_abs_total(transactions@) <= i64::MAX),
            r ==> transaction_sums_fit(transactions@),
    {
        let n = transactions.len();
        if n as u128 > i64::MAX as u128 {
            return false;
        }
        let mut total: i128 = 0;
        let mut i: usize = 0;
        while i < n
            invariant
                n == transactions@.len(),
                0 <= i <= n,
                total == transaction_abs_total(transactions@.take(i as int)),
                0 <= total <= i64::MAX,
            decreases n - i,
        {
            proof {
                assert(transactions@.take(i + 1).drop_last() =~= transactions@.take(i as int));
            }
            let a = transactions[i].amount;
            let m: i128 = if a < 0 {
                -(a as i128)
            } else {
                a as i128
            };
            total = total + m;
            if total > i64::MAX as i128 {
                proof {
                    lemma_transaction_prefix_total(transactions@, i + 1);
                }
                return false;
            }
            i = i + 1;
        }
        proof {
            let s = transactions@;
            assert(s.take(n as int) =~= s);
            assert forall|k: int| 0 <= k <= s.len() implies fits_i64(#[trigger] income_sum(s.take(k))) && fits_i64(
                expense_sum(s.take(k)),
            ) by {
                lemma_transaction_prefix_total(s, k);
                lemma_transaction_sums_within(s.take(k), Seq::empty());
            }
            assert forall|k: int, c: Seq<char>| 0 <= k <= s.len() implies fits_i64(
                #[trigger] category_sum(s.take(k), c),
            ) by {
                lemma_transaction_prefix_total(s, k);
                lemma_transaction_sums_within(s.take(k), c);
            }
        }
        true
    }

    /// Whether twelve times the sum of the absolute amounts of the
    /// subscriptions is at most `i64::MAX`, which keeps every running total
    /// of their statistics within `i64` on any day.
    pub fn subscription_sums_checked(subscriptions: &[Subscription]) -> (r: bool)
        ensures
            r == (subscriptions@.len() <= i64::MAX && 12 * subscription_abs_total(subscriptions@) <= i64::MAX),
            r ==> forall|t: CivilDate| #[trigger] subscription_sums_fit(subscriptions@, t),
    {
        let n = subscriptions.len();
        if n as u128 > i64::MAX as u128 {
            return false;
        }
        let mut total: i128 = 0;
        let mut i: usize = 0;
        while i < n
            invariant
                n == subscriptions@.len(),
                0 <= i <= n,
                total == subscription_abs_total(subscriptions@.take(i as int)),
                0 <= 12 * total <= i64::MAX,
            decreases n - i,
        {
            proof {
                assert(subscriptions@.take(i + 1).drop_last() =~= subscriptions@.take(i as int));
            }
            let a = subscriptions[i].amount;
            let m: i128 = if a < 0 {
                -(a as i128)
            } else {
                a as i128
            };
            total = total + m;
            if 12 * total > i64::MAX as i128 {
                proof {
                    lemma_subscription_prefix_total(subscriptions@, i + 1);
                }
                return false;
            }
            i = i + 1;
        }
        proof {
            let s = subscriptions@;
            assert(s.take(n as int) =~= s);
            assert forall|t: CivilDate| #[trigger] subscription_sums_fit(s, t) by {
                assert forall|j: int|
                    0 <= j < s.len() && (#[trigger] s[j]).billing_cycle == BillingCycle::Monthly implies fits_i64(
                    s[j].amount as int * 12,
                ) by {
                    lemma_amount_within_total(s, j);
                }
                assert forall|k: int| 0 <= k <= s.len() implies {
                    &&& fits_i64(#[trigger] sum_by(s.take(k), monthly_f()))
                    &&& fits_i64(sum_by(s.take(k), yearly_f()))
                    &&& fits_i64(sum_by(s.take(k), passed_amount_f(t)))
                    &&& fits_i64(sum_by(s.take(k), remaining_amount_f(t)))
                } by {
                    lemma_subscription_prefix_total(s, k);
                    lemma_shares_bounded(t, None);
                    lemma_sum_by_within(s.take(k), monthly_f());
                    lemma_sum_by_within(s.take(k), yearly_f());
                    lemma_sum_by_within(s.take(k), passed_amount_f(t));
                    lemma_sum_by_within(s.take(k), remaining_amount_f(t));
                }
                assert forall|k: int, c: Option<Seq<char>>| 0 <= k <= s.len() implies fits_i64(
                    #[trigger] sum_by(s.take(k), sub_category_monthly_f(c)),
                ) by {
                    lemma_subscription_prefix_total(s, k);
                    lemma_shares_bounded(t, c);
                    lemma_sum_by_within(s.take(k), sub_category_monthly_f(c));
                }
            }
        }
        true
    }
}

} // verus!

verus! {

/// A subscription after a toggle: every field kept but `is_active`, which
/// is flipped.
pub open spec fn toggled(s: Subscription) -> Subscription {
    Subscription { is_active: !s.is_active, ..s }
}

/// A toggle flips whether the subscription is active and changes nothing
/// else, and toggling twice gives the subscription back.
pub proof fn law_toggle_twice_restores(s: Subscription)
    ensures
        toggled(s).is_active == !s.is_active,
        toggled(toggled(s)) == s,
{
}

} // verus!

verus! {

// ===== This month's billings, by the day of the month =====

/// The day of this month on which a subscription due this month is billed:
/// its billing day, clamped to the days of the month.
pub open spec fn billing_day_this_month(s: Subscription, today: CivilDate) -> int {
    let last = days_in_month(today.year as int, today.month as int);
    if s.billing_day < 1 {
        1
    } else if s.billing_day > last {
        last
    } else {
        s.billing_day as int
    }
}

/// Number of subscriptions due this month whose billing day lies before
/// today's day of the month (`before`), or on or after it (`!before`).
pub open spec fn due_count_by_day(s: Seq<Subscription>, today: CivilDate, before: bool) -> int
    decreases s.len(),
{
    if s.len() == 0 {
        0
    } else {
        let x = s.last();
        due_count_by_day(s.drop_last(), today, before) + if due_this_month(x, today) && (billing_day_this_month(
            x,
            today,
        ) < today.day) == before {
            1int
        } else {
            0
        }
    }
}

/// Sum of the amounts of those subscriptions.
pub open spec fn due_amount_by_day(s: Seq<Subscription>, today: CivilDate, before: bool) -> int
    decreases s.len(),
{
    if s.len() == 0 {
        0
    } else {
        let x = s.last();
        due_amount_by_day(s.drop_last(), today, before) + if due_this_month(x, today) && (billing_day_this_month(
            x,
            today,
        ) < today.day) == before {
            x.amount as int
        } else {
            0
        }
    }
}

/// Statistics on `today`: a subscription due this month counts as already
/// billed (`passed_this_month`) exactly when its billing day is strictly
/// before today's day of the month; one billed today or later counts as
/// still to come (`remaining_this_month`).  A subscription billed on the
/// very day is therefore remaining, never passed.
pub proof fn law_billed_today_is_remaining(
    s: Seq<Subscription>,
    total_count: i64,
    today: CivilDate,
    r: SubscriptionStatsResponse,
)
    requires
        valid_date(today),
        subscription_stats_on(r, s, total_count, today),
    ensures
        r.passed_this_month.count == due_count_by_day(s, today, true),
        r.passed_this_month.amount == due_amount_by_day(s, today, true),
        r.remaining_this_month.count == due_count_by_day(s, today, false),
        r.remaining_this_month.amount == due_amount_by_day(s, today, false),
{
    lemma_passed_by_day(s, today);
}

proof fn lemma_passed_by_day(s: Seq<Subscription>, today: CivilDate)
    requires
        valid_date(today),
    ensures
        sum_by(s, passed_count_f(today)) == due_count_by_day(s, today, true),
        sum_by(s, passed_amount_f(today)) == due_amount_by_day(s, today, true),
        sum_by(s, remaining_count_f(today)) == due_count_by_day(s, today, false),
        sum_by(s, remaining_amount_f(today)) == due_amount_by_day(s, today, false),
    decreases s.len(),
{
    if s.len() > 0 {
        lemma_passed_by_day(s.drop_last(), today);
        let x = s.last();
        if due_this_month(x, today) {
            let d = spec_billing_date(today.year as int, today.month as int, x.billing_day as int);
            assert(d.year == today.year);
            assert(d.month == today.month);
            assert(d.day as int == billing_day_this_month(x, today));
            assert(date_lt(d, today) <==> billing_day_this_month(x, today) < today.day);
        }
    }
}

} // verus!
