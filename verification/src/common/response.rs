use vstd::prelude::*;

verus! {

/// Empty payload used where an API answer carries no data.
pub struct EmptyData {}

/// Envelope of every API answer: a status word, the HTTP code, a message and
/// optional data.
pub struct ApiResponse<T> {
    pub status: String,
    pub code: u16,
    pub message: String,
    pub data: Option<T>,
}

/// One page of items together with the numbers a client needs to page on.
pub struct PaginatedData<T> {
    pub items: Vec<T>,
    pub total_items: i64,
    pub total_pages: i64,
    pub current_page: i64,
}

/// Smallest integer not below `total / limit`, for a positive `limit`.
pub open spec fn ceil_div(total: int, limit: int) -> int
    recommends
        limit > 0,
{
    -((-total) / limit)
}

/// Clamps a mathematical integer into the range of `i64`.
pub open spec fn saturate_i64(x: int) -> int {
    if x > i64::MAX {
        i64::MAX as int
    } else if x < i64::MIN {
        i64::MIN as int
    } else {
        x
    }
}

/// Number of pages needed to show `total_items` items, `limit` per page:
/// the ceiling of the quotient, saturated to `i64`.  A zero limit gives the
/// saturated infinity of the quotient's sign, and zero for zero items.
pub open spec fn spec_total_pages(total_items: int, limit: int) -> int {
    if limit > 0 {
        saturate_i64(ceil_div(total_items, limit))
    } else if limit < 0 {
        saturate_i64(ceil_div(-total_items, -limit))
    } else if total_items > 0 {
        i64::MAX as int
    } else if total_items < 0 {
        i64::MIN as int
    } else {
        0
    }
}

/// Page and limit after defaults and bounds: the page defaults to 1 and is at
/// least 1; the limit defaults to 10 and lies in `1..=100`.
pub open spec fn spec_normalize_page_limit(page: Option<i64>, limit: Option<i64>) -> (i64, i64) {
    let p = match page {
        Some(p) => p,
        None => 1i64,
    };
    let l = match limit {
        Some(l) => l,
        None => 10i64,
    };
    (if p < 1 { 1i64 } else { p }, if l < 1 { 1i64 } else if l > 100 { 100i64 } else { l })
}

proof fn lemma_ceil_div_nonneg(t: int, l: int)
    requires
        t >= 0,
        l > 0,
    ensures
        (t + l - 1) / l == ceil_div(t, l),
        0 <= ceil_div(t, l) <= t,
{
    let q = t / l;
    let r = t % l;
    assert(t == q * l + r && 0 <= r < l) by (nonlinear_arith)
        requires
            l > 0,
            q == t / l,
            r == t % l,
    ;
    let q2 = (-t) / l;
    let r2 = (-t) % l;
    assert(-t == q2 * l + r2 && 0 <= r2 < l) by (nonlinear_arith)
        requires
            l > 0,
            q2 == (-t) / l,
            r2 == (-t) % l,
    ;
    let q3 = (t + l - 1) / l;
    let r3 = (t + l - 1) % l;
    assert(t + l - 1 == q3 * l + r3 && 0 <= r3 < l) by (nonlinear_arith)
        requires
            l > 0,
            q3 == (t + l - 1) / l,
            r3 == (t + l - 1) % l,
    ;
    assert(q3 == -q2) by (nonlinear_arith)
        requires
            l > 0,
            t == q * l + r,
            0 <= r < l,
            -t == q2 * l + r2,
            0 <= r2 < l,
            t + l - 1 == q3 * l + r3,
            0 <= r3 < l,
    ;
    assert(0 <= q3 <= t) by (nonlinear_arith)
        requires
            l > 0,
            t >= 0,
            t + l - 1 == q3 * l + r3,
            0 <= r3 < l,
    ;
}

/// Ceiling of `t / l` for `l > 0`, computed without overflow.
fn ceil_div_i128(t: i128, l: i128) -> (q: i128)
    requires
        l > 0,
        -0x1_0000_0000_0000_0000i128 <= t <= 0x1_0000_0000_0000_0000i128,
        l <= 0x1_0000_0000_0000_0000i128,
    ensures
        q == ceil_div(t as int, l as int),
{
    if t >= 0 {
        proof {
            lemma_ceil_div_nonneg(t as int, l as int);
        }
        (t + l - 1) / l
    } else {
        let m = -t;
        proof {
            lemma_ceil_div_nonneg(m as int, l as int);
            assert(-m == t);
        }
        let fl = m / l;
        proof {
            let r = (m as int) % (l as int);
            assert(m as int == fl * l + r && 0 <= r < l && 0 <= fl <= m) by (nonlinear_arith)
                requires
                    l > 0,
                    m >= 0,
                    fl == (m as int) / (l as int),
                    r == (m as int) % (l as int),
            ;
            // ceil(t / l) = -floor(-t / l) = -floor(m / l)
            assert(ceil_div(t as int, l as int) == -((m as int) / (l as int)));
        }
        -fl
    }
}

fn saturate(x: i128) -> (r: i64)
    ensures
        r == saturate_i64(x as int),
{
    if x > i64::MAX as i128 {
        i64::MAX
    } else if x < i64::MIN as i128 {
        i64::MIN
    } else {
        x as i64
    }
}

/// Number of pages for `total_items` items at `limit` per page (the ceiling of
/// the quotient).
pub fn total_pages(total_items: i64, limit: i64) -> (pages: i64)
    ensures
        pages == spec_total_pages(total_items as int, limit as int),
{
    if limit > 0 {
        let q = ceil_div_i128(total_items as i128, limit as i128);
        saturate(q)
    } else if limit < 0 {
        let q = ceil_div_i128(-(total_items as i128), -(limit as i128));
        saturate(q)
    } else if total_items > 0 {
        i64::MAX
    } else if total_items < 0 {
        i64::MIN
    } else {
        0
    }
}

/// Applies the paging defaults and bounds (see `spec_normalize_page_limit`).
pub fn normalize_page_limit(page: Option<i64>, limit: Option<i64>) -> (r: (i64, i64))
    ensures
        r == spec_normalize_page_limit(page, limit),
        r.0 >= 1,
        1 <= r.1 <= 100,
{
    let p = match page {
        Some(p) => p,
        None => 1,
    };
    let l = match limit {
        Some(l) => l,
        None => 10,
    };
    let p = if p < 1 {
        1
    } else {
        p
    };
    let l = if l < 1 {
        1
    } else if l > 100 {
        100
    } else {
        l
    };
    (p, l)
}

impl<T> PaginatedData<T> {
    /// Wraps one page of items; the number of pages is derived from the total
    /// and the limit.
    pub fn new(items: Vec<T>, total_items: i64, page: i64, limit: i64) -> (r: Self)
        ensures
            r.items@ == items@,
            r.total_items == total_items,
            r.total_pages == spec_total_pages(total_items as int, limit as int),
            r.current_page == page,
    {
        let total_pages = total_pages(total_items, limit);
        PaginatedData { items, total_items, total_pages, current_page: page }
    }
}

impl<T> ApiResponse<T> {
    /// A successful answer that carries data.
    pub fn success(code: u16, message: &str, data: T) -> (r: Self)
        ensures
            r.status@ == "success"@,
            r.code == code,
            r.message@ == message@,
            r.data == Some(data),
    {
        ApiResponse {
            status: String::from_str("success"),
            code,
            message: String::from_str(message),
            data: Some(data),
        }
    }

    /// A successful answer without data.
    pub fn success_without_data(code: u16, message: &str) -> (r: Self)
        ensures
            r.status@ == "success"@,
            r.code == code,
            r.message@ == message@,
            r.data.is_none(),
    {
        ApiResponse {
            status: String::from_str("success"),
            code,
            message: String::from_str(message),
            data: None,
        }
    }

    /// An answer to a request the client got wrong (4xx).
    pub fn fail(code: u16, message: &str) -> (r: Self)
        ensures
            r.status@ == "fail"@,
            r.code == code,
            r.message@ == message@,
            r.data.is_none(),
    {
        ApiResponse {
            status: String::from_str("fail"),
            code,
            message: String::from_str(message),
            data: None,
        }
    }

    /// An answer to a request the server could not serve (5xx).
    pub fn error(code: u16, message: &str) -> (r: Self)
        ensures
            r.status@ == "error"@,
            r.code == code,
            r.message@ == message@,
            r.data.is_none(),
    {
        ApiResponse {
            status: String::from_str("error"),
            code,
            message: String::from_str(message),
            data: None,
        }
    }
}

/// For a positive limit and a nonnegative number of items, the pages just
/// hold the items: as many pages of `limit` as needed, and one fewer would
/// not do (no page at all for no items).
pub proof fn law_pages_hold_items(total_items: i64, limit: i64)
    requires
        total_items >= 0,
        limit > 0,
    ensures
        spec_total_pages(total_items as int, limit as int) >= 0,
        spec_total_pages(total_items as int, limit as int) * limit >= total_items,
        total_items > 0 ==> (spec_total_pages(total_items as int, limit as int) - 1) * limit < total_items,
        total_items == 0 ==> spec_total_pages(total_items as int, limit as int) == 0,
{
    let t = total_items as int;
    let l = limit as int;
    lemma_ceil_div_nonneg(t, l);
    let p = ceil_div(t, l);
    let q3 = (t + l - 1) / l;
    let r3 = (t + l - 1) % l;
    assert(t + l - 1 == q3 * l + r3 && 0 <= r3 < l) by (nonlinear_arith)
        requires
            l > 0,
            q3 == (t + l - 1) / l,
            r3 == (t + l - 1) % l,
    ;
    assert(p * l >= t && (t > 0 ==> (p - 1) * l < t) && (t == 0 ==> p == 0)) by (nonlinear_arith)
        requires
            p == q3,
            t + l - 1 == q3 * l + r3,
            0 <= r3 < l,
            t >= 0,
            l > 0,
    ;
    assert(p <= i64::MAX);
}

/// Normalized paging is left as it is by normalizing again, and lies in
/// bounds: page at least 1, limit from 1 to 100.
pub proof fn law_normalize_page_limit_settles(page: Option<i64>, limit: Option<i64>)
    ensures
        ({
            let (p, l) = spec_normalize_page_limit(page, limit);
            &&& p >= 1
            &&& 1 <= l <= 100
            &&& spec_normalize_page_limit(Some(p), Some(l)) == (p, l)
        }),
{
}

} // verus!
