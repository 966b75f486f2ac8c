//! Transportation expenses, optionally mirrored as an expense transaction.
use crate::common::errors::{AppError, forbidden, not_found, rejects_forbidden, rejects_not_found};
use crate::common::response::{PaginatedData, spec_total_pages};
use crate::common::text::{
    opt_string_view, opt_view, owned_optional_string, spec_normalize_optional, trimmed, trimmed_string,
};
use crate::modules::transactions::{NewTransaction, TransactionType};
use crate::common::validation::{
    FieldError, Issue, issues, issue_if, char_len, email_valid, check_trimmed_len, check_max_chars,
    check_length, check_range, check_email,
};
use vstd::prelude::*;

verus! {

/// A stored expense (instants are Unix timestamps).
pub struct TransportationExpense {
    pub id: u128,
    pub user_id: u128,
    pub transaction_id: Option<u128>,
    pub category: String,
    pub amount: i64,
    pub title: String,
    pub note: Option<String>,
    pub expense_date: i64,
    pub created_at: i64,
    pub updated_at: i64,
}

pub struct NewTransportationExpense {
    pub user_id: u128,
    pub transaction_id: Option<u128>,
    pub category: String,
    pub amount: i64,
    pub title: String,
    pub note: Option<String>,
    pub expense_date: i64,
}

pub struct TransportationExpenseFilterQuery {
    pub page: Option<i64>,
    pub limit: Option<i64>,
    pub category: Option<String>,
    pub keyword: Option<String>,
    pub month: Option<String>,
    pub year: Option<String>,
}

pub struct CreateTransportationExpenseRequest {
    pub category: String,
    pub amount: i64,
    pub title: String,
    pub note: Option<String>,
    pub expense_date: i64,
    pub sync_to_transaction: bool,
}

pub struct UpdateTransportationExpenseRequest {
    pub category: String,
    pub amount: i64,
    pub title: String,
    pub note: Option<String>,
    pub expense_date: i64,
    pub sync_to_transaction: bool,
}

pub struct TransportationExpenseResponse {
    pub id: u128,
    pub user_id: u128,
    pub transaction_id: Option<u128>,
    pub category: String,
    pub amount: i64,
    pub title: String,
    pub note: Option<String>,
    pub expense_date: i64,
    pub created_at: i64,
    pub updated_at: i64,
}

/// What happens to the transaction mirrored from an expense when the
/// expense is edited.
#[derive(Clone, Copy, PartialEq, Eq, Debug, Structural)]
pub enum TransactionLinkAction {
    /// Rewrite the linked transaction, which stays linked.
    Update(u128),
    /// Create a transaction and link it.
    Create,
    /// Delete the linked transaction; nothing stays linked.
    Delete(u128),
    /// No transaction, before or after.
    Unlinked,
}

pub struct TransportationExpenseService;

pub struct TransportationExpenseRepository;

/// Category of the transactions that mirror transportation expenses.
pub open spec fn transport_category() -> Seq<char> {
    "transport"@
}

impl TransportationExpenseService {
    /// The expense, when it was found (`None`: not found) and belongs to the
    /// user.
    pub fn find_owned_transportation_expense(expense: Option<TransportationExpense>, user_id: u128) -> (r: Result<TransportationExpense, AppError>)
        ensures
            expense is None ==> rejects_not_found(r, "Transportation expense not found"@),
            (expense matches Some(e) && e.user_id != user_id) ==> rejects_forbidden(
                r,
                "คุณไม่มีสิทธิ์เข้าถึงรายการนี้"@,
            ),
            r is Ok <==> (expense matches Some(e) && e.user_id == user_id),
            r is Ok ==> r->Ok_0 == expense->0,
    {
        let e = match expense {
            Some(e) => e,
            None => return Err(not_found("Transportation expense not found")),
        };
        if e.user_id != user_id {
            return Err(forbidden("คุณไม่มีสิทธิ์เข้าถึงรายการนี้"));
        }
        Ok(e)
    }

    /// The expense transaction that mirrors an expense: the trimmed title
    /// and the note as given.
    pub fn create_linked_transaction(user_id: u128, amount: i64, title: &str, note: Option<&str>, expense_date: i64) -> (r: NewTransaction)
        ensures
            r.user_id == user_id,
            r.type_ == TransactionType::Expense,
            r.amount == amount,
            r.category@ == transport_category(),
            r.title@ == title@,
            opt_string_view(r.note) == opt_view(note),
            r.transaction_date == expense_date,
    {
        NewTransaction {
            user_id,
            type_: TransactionType::Expense,
            amount,
            category: String::from_str("transport"),
            title: String::from_str(title),
            note: match note {
                Some(n) => Some(String::from_str(n)),
                None => None,
            },
            transaction_date: expense_date,
        }
    }

    /// What to do with the mirrored transaction, from the link the expense
    /// has and whether the edit asks to mirror it.
    pub fn resolve_transaction_link(current_transaction_id: Option<u128>, sync_to_transaction: bool) -> (r: TransactionLinkAction)
        ensures
            r == match (current_transaction_id, sync_to_transaction) {
                (Some(t), true) => TransactionLinkAction::Update(t),
                (None, true) => TransactionLinkAction::Create,
                (Some(t), false) => TransactionLinkAction::Delete(t),
                (None, false) => TransactionLinkAction::Unlinked,
            },
    {
        match (current_transaction_id, sync_to_transaction) {
            (Some(t), true) => TransactionLinkAction::Update(t),
            (None, true) => TransactionLinkAction::Create,
            (Some(t), false) => TransactionLinkAction::Delete(t),
            (None, false) => TransactionLinkAction::Unlinked,
        }
    }

    /// The expense a creation or an edit stores: trimmed category and
    /// title, blank note left out, linked to `transaction_id`.
    pub fn new_expense(
        user_id: u128,
        transaction_id: Option<u128>,
        category: &String,
        amount: i64,
        title: &String,
        note: &Option<String>,
        expense_date: i64,
    ) -> (r: NewTransportationExpense)
        ensures
            r.user_id == user_id,
            r.transaction_id == transaction_id,
            r.category@ == trimmed(category@),
            r.amount == amount,
            r.title@ == trimmed(title@),
            opt_string_view(r.note) == spec_normalize_optional(opt_string_view(*note)),
            r.expense_date == expense_date,
    {
        NewTransportationExpense {
            user_id,
            transaction_id,
            category: trimmed_string(category),
            amount,
            title: trimmed_string(title),
            note: owned_optional_string(note),
            expense_date,
        }
    }
}

pub open spec fn answers_expense(r: TransportationExpenseResponse, e: TransportationExpense) -> bool {
    &&& r.id == e.id
    &&& r.user_id == e.user_id
    &&& r.transaction_id == e.transaction_id
    &&& r.category == e.category
    &&& r.amount == e.amount
    &&& r.title == e.title
    &&& r.note == e.note
    &&& r.expense_date == e.expense_date
    &&& r.created_at == e.created_at
    &&& r.updated_at == e.updated_at
}

impl TransportationExpenseRepository {
    pub fn to_transportation_expense_response(e: TransportationExpense) -> (r: TransportationExpenseResponse)
        ensures
            answers_expense(r, e),
    {
        TransportationExpenseResponse {
            id: e.id,
            user_id: e.user_id,
            transaction_id: e.transaction_id,
            category: e.category,
            amount: e.amount,
            title: e.title,
            note: e.note,
            expense_date: e.expense_date,
            created_at: e.created_at,
            updated_at: e.updated_at,
        }
    }
}

impl TransportationExpenseService {
    /// A page of expenses, each answered in order.
    pub fn get_all_transportation_expenses(expenses: Vec<TransportationExpense>, total_items: i64, page: i64, limit: i64) -> (r: PaginatedData<TransportationExpenseResponse>)
        ensures
            r.items@.len() == expenses@.len(),
            forall|i: int| 0 <= i < expenses@.len() ==> answers_expense(#[trigger] r.items@[i], expenses@[i]),
            r.total_items == total_items,
            r.total_pages == spec_total_pages(total_items as int, limit as int),
            r.current_page == page,
    {
        let mut rest = expenses;
        let ghost all = rest@;
        let mut out: Vec<TransportationExpenseResponse> = Vec::new();
        while rest.len() > 0
            invariant
                out@.len() + rest@.len() == all.len(),
                forall|j: int| 0 <= j < rest@.len() ==> rest@[j] == all[out@.len() + j],
                forall|j: int| 0 <= j < out@.len() ==> answers_expense(#[trigger] out@[j], all[j]),
            decreases rest@.len(),
        {
            let e = rest.remove(0);
            out.push(TransportationExpenseRepository::to_transportation_expense_response(e));
        }
        PaginatedData::new(out, total_items, page, limit)
    }
}

// ===== Request rules =====

impl CreateTransportationExpenseRequest {
    /// The broken rules: a category of 1 to 50 characters and a title of 1 to 100 once trimmed, a positive amount, a note of at most 3000.
    pub fn validate(&self) -> (r: Vec<FieldError>)
        ensures
            issues(r@) == issue_if(!(1 <= char_len(trimmed(self.category@)) <= 50), "category"@, "invalid_transportation_expense_category"@, None) + issue_if(self.amount < 1, "amount"@, "range"@, Some("จำนวนเงินต้องมากกว่า 0"@)) + issue_if(!(1 <= char_len(trimmed(self.title@)) <= 100), "title"@, "invalid_transportation_expense_title"@, None) + match self.note { Some(x) => issue_if(char_len(x@) > 3000, "note"@, "invalid_transportation_expense_note"@, None), None => Seq::<Issue>::empty() },
    {
        let mut errors: Vec<FieldError> = Vec::new();
        proof {
            assert(issues(errors@) =~= Seq::<Issue>::empty());
        }
        check_trimmed_len(&mut errors, "category", self.category.as_str(), 50, "invalid_transportation_expense_category");
        check_range(&mut errors, "amount", self.amount as i64, Some(1), None, "จำนวนเงินต้องมากกว่า 0");
        check_trimmed_len(&mut errors, "title", self.title.as_str(), 100, "invalid_transportation_expense_title");
        match &self.note {
            Some(x) => {
                check_max_chars(&mut errors, "note", x.as_str(), 3000, "invalid_transportation_expense_note");
            },
            None => {
                proof {
                    assert(issues(errors@) =~= issues(errors@) + Seq::<Issue>::empty());
                }
            },
        }
        errors
    }
}

impl UpdateTransportationExpenseRequest {
    /// The broken rules: a category of 1 to 50 characters and a title of 1 to 100 once trimmed, a positive amount, a note of at most 3000.
    pub fn validate(&self) -> (r: Vec<FieldError>)
        ensures
            issues(r@) == issue_if(!(1 <= char_len(trimmed(self.category@)) <= 50), "category"@, "invalid_transportation_expense_category"@, None) + issue_if(self.amount < 1, "amount"@, "range"@, Some("จำนวนเงินต้องมากกว่า 0"@)) + issue_if(!(1 <= char_len(trimmed(self.title@)) <= 100), "title"@, "invalid_transportation_expense_title"@, None) + match self.note { Some(x) => issue_if(char_len(x@) > 3000, "note"@, "invalid_transportation_expense_note"@, None), None => Seq::<Issue>::empty() },
    {
        let mut errors: Vec<FieldError> = Vec::new();
        proof {
            assert(issues(errors@) =~= Seq::<Issue>::empty());
        }
        check_trimmed_len(&mut errors, "category", self.category.as_str(), 50, "invalid_transportation_expense_category");
        check_range(&mut errors, "amount", self.amount as i64, Some(1), None, "จำนวนเงินต้องมากกว่า 0");
        check_trimmed_len(&mut errors, "title", self.title.as_str(), 100, "invalid_transportation_expense_title");
        match &self.note {
            Some(x) => {
                check_max_chars(&mut errors, "note", x.as_str(), 3000, "invalid_transportation_expense_note");
            },
            None => {
                proof {
                    assert(issues(errors@) =~= issues(errors@) + Seq::<Issue>::empty());
                }
            },
        }
        errors
    }
}

/// Whether an expense is linked to a transaction after the action, and to
/// which one when the action keeps the old link.
pub open spec fn linked_after(action: TransactionLinkAction) -> bool {
    match action {
        TransactionLinkAction::Update(_) | TransactionLinkAction::Create => true,
        TransactionLinkAction::Delete(_) | TransactionLinkAction::Unlinked => false,
    }
}

pub open spec fn spec_resolve_link(current: Option<u128>, sync: bool) -> TransactionLinkAction {
    match (current, sync) {
        (Some(t), true) => TransactionLinkAction::Update(t),
        (None, true) => TransactionLinkAction::Create,
        (Some(t), false) => TransactionLinkAction::Delete(t),
        (None, false) => TransactionLinkAction::Unlinked,
    }
}

/// After an edit the expense is mirrored exactly when the edit asks for
/// it; a transaction that was linked is rewritten or deleted, never left
/// behind.
pub proof fn law_link_follows_sync(current: Option<u128>, sync: bool)
    ensures
        linked_after(spec_resolve_link(current, sync)) == sync,
        current matches Some(t) ==> (spec_resolve_link(current, sync) == TransactionLinkAction::Update(t)
            || spec_resolve_link(current, sync) == TransactionLinkAction::Delete(t)),
{
}

} // verus!
