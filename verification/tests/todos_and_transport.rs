use productivity_api::common::errors::AppError;
use productivity_api::modules::todos::{
    CreateTodoListRequest, ReorderTodoItemsRequest, TodoItem, TodoList, TodoListResponse, TodoRepository,
    TodoService,
};
use productivity_api::modules::transactions::TransactionType;
use productivity_api::modules::transportation_expenses::{
    CreateTransportationExpenseRequest, TransactionLinkAction, TransportationExpense,
    TransportationExpenseService,
};

fn msg(e: &AppError) -> String {
    match e {
        AppError::BadRequest(m)
        | AppError::Unauthorized(m)
        | AppError::Forbidden(m)
        | AppError::NotFound(m)
        | AppError::Conflict(m)
        | AppError::InternalServerError(m) => m.clone(),
    }
}

fn list(id: u128, user: u128) -> TodoList {
    TodoList {
        id,
        user_id: user,
        title: format!("l{}", id),
        description: None,
        color: None,
        position: 0,
        created_at: 0,
        updated_at: 0,
    }
}

fn item(id: u128, list_id: u128, done: bool) -> TodoItem {
    TodoItem {
        id,
        list_id,
        title: "i".to_string(),
        description: None,
        is_completed: done,
        due_date: None,
        position: 0,
        created_at: 0,
        updated_at: 0,
    }
}

#[test]
fn list_ownership() {
    assert_eq!(msg(&TodoService::find_owned_list(None, 1).err().unwrap()), "Todo list not found");
    assert_eq!(
        msg(&TodoService::find_owned_list(Some(list(1, 2)), 1).err().unwrap()),
        "You do not have permission to access this Todo list."
    );
    assert_eq!(TodoService::find_owned_list(Some(list(1, 1)), 1).unwrap().id, 1);
    assert_eq!(msg(&TodoService::find_owned_item(None, None, 1).err().unwrap()), "Todo item not found");
    assert!(matches!(
        TodoService::find_owned_item(Some(item(5, 1, false)), Some(list(1, 3)), 1),
        Err(AppError::Forbidden(_))
    ));
    assert_eq!(TodoService::find_owned_item(Some(item(5, 1, false)), Some(list(1, 1)), 1).unwrap().id, 5);
}

#[test]
fn move_list_to_top_keeps_order_of_others() {
    assert_eq!(TodoService::move_todo_list_to_top(&vec![1, 2, 3, 4], 3), vec![3, 1, 2, 4]);
    assert_eq!(TodoService::move_todo_list_to_top(&vec![1, 2], 1), vec![1, 2]);
    let moved = TodoService::move_todo_list_to_top(&vec![5, 6, 7], 7);
    let mut sorted = moved.clone();
    sorted.sort();
    assert_eq!(sorted, vec![5, 6, 7]);
    assert_eq!(moved[0], 7);
}

#[test]
fn reorder_needs_each_item_once() {
    let existing = vec![1, 2, 3];
    assert_eq!(
        msg(&TodoService::reorder_todo_items(&vec![1, 1, 2], &existing).err().unwrap()),
        "The request contains duplicate item ids."
    );
    assert_eq!(
        msg(&TodoService::reorder_todo_items(&vec![1, 2], &existing).err().unwrap()),
        "The submitted item list does not match all items in this list."
    );
    assert!(TodoService::reorder_todo_items(&vec![1, 2, 4], &existing).is_err());
    assert!(TodoService::reorder_todo_items(&vec![3, 1, 2], &existing).is_ok());
}

#[test]
fn next_position_follows_highest() {
    assert_eq!(TodoRepository::next_position(None), 0);
    assert_eq!(TodoRepository::next_position(Some(4)), 5);
}

#[test]
fn toggling_flips_completion() {
    assert!(TodoService::toggle_todo_item(&item(1, 1, false)));
    assert!(!TodoService::toggle_todo_item(&item(1, 1, true)));
}

#[test]
fn lists_carry_their_items() {
    let lists = vec![list(1, 9), list(2, 9)];
    let items = vec![item(10, 2, false), item(11, 1, true), item(12, 2, false), item(13, 5, false)];
    let r = TodoRepository::find_all_lists_with_items(lists, items);
    assert_eq!(r[0].items.iter().map(|i| i.id).collect::<Vec<_>>(), vec![11]);
    assert_eq!(r[1].items.iter().map(|i| i.id).collect::<Vec<_>>(), vec![10, 12]);
    let answered: Vec<TodoListResponse> = r;
    let edited = TodoService::update_todo_list(list(2, 9), answered);
    assert_eq!(edited.items.len(), 2);
    let lone = TodoService::update_todo_list(list(3, 9), vec![]);
    assert!(lone.items.is_empty());
}

#[test]
fn new_list_trims() {
    let l = TodoService::new_list(&" Groceries ".to_string(), &Some("  ".to_string()), &Some(" red ".to_string()), 4);
    assert_eq!(l.title, "Groceries");
    assert_eq!(l.description, None);
    assert_eq!(l.color.as_deref(), Some("red"));
}

#[test]
fn todo_request_rules() {
    let req = CreateTodoListRequest {
        title: "x".repeat(101),
        description: Some("d".repeat(3001)),
        color: Some("c".repeat(21)),
    };
    let e = req.validate();
    assert_eq!(e.iter().map(|f| f.field.as_str()).collect::<Vec<_>>(), vec!["title", "description", "color"]);
    let ok = CreateTodoListRequest { title: " t ".to_string(), description: None, color: None };
    assert!(ok.validate().is_empty());
    let _ = ReorderTodoItemsRequest { item_ids: vec![1] };
}

#[test]
fn link_follows_sync_flag() {
    assert_eq!(TransportationExpenseService::resolve_transaction_link(Some(4), true), TransactionLinkAction::Update(4));
    assert_eq!(TransportationExpenseService::resolve_transaction_link(None, true), TransactionLinkAction::Create);
    assert_eq!(TransportationExpenseService::resolve_transaction_link(Some(4), false), TransactionLinkAction::Delete(4));
    assert_eq!(TransportationExpenseService::resolve_transaction_link(None, false), TransactionLinkAction::Unlinked);
}

#[test]
fn mirrored_transaction_is_a_transport_expense() {
    let t = TransportationExpenseService::create_linked_transaction(3, 4500, "Taxi", Some(" late "), 99);
    assert_eq!(t.type_, TransactionType::Expense);
    assert_eq!(t.category, "transport");
    assert_eq!(t.title, "Taxi");
    assert_eq!(t.note.as_deref(), Some(" late "));
    assert_eq!((t.amount, t.transaction_date, t.user_id), (4500, 99, 3));
}

#[test]
fn expense_fields_are_trimmed() {
    let e = TransportationExpenseService::new_expense(
        1,
        Some(8),
        &" bus ".to_string(),
        30,
        &" to work ".to_string(),
        &Some(" ".to_string()),
        5,
    );
    assert_eq!((e.category.as_str(), e.title.as_str()), ("bus", "to work"));
    assert_eq!(e.note, None);
    assert_eq!(e.transaction_id, Some(8));
}

fn expense(user: u128) -> TransportationExpense {
    TransportationExpense {
        id: 1,
        user_id: user,
        transaction_id: None,
        category: "bus".to_string(),
        amount: 30,
        title: "t".to_string(),
        note: None,
        expense_date: 0,
        created_at: 0,
        updated_at: 0,
    }
}

#[test]
fn expense_ownership() {
    assert_eq!(
        msg(&TransportationExpenseService::find_owned_transportation_expense(None, 1).err().unwrap()),
        "Transportation expense not found"
    );
    assert_eq!(
        msg(&TransportationExpenseService::find_owned_transportation_expense(Some(expense(2)), 1).err().unwrap()),
        "คุณไม่มีสิทธิ์เข้าถึงรายการนี้"
    );
    assert!(TransportationExpenseService::find_owned_transportation_expense(Some(expense(1)), 1).is_ok());
    let page = TransportationExpenseService::get_all_transportation_expenses(vec![expense(1)], 11, 2, 5);
    assert_eq!((page.total_pages, page.current_page, page.items.len()), (3, 2, 1));
}

#[test]
fn expense_request_rules() {
    let req = CreateTransportationExpenseRequest {
        category: " ".to_string(),
        amount: 0,
        title: "ok".to_string(),
        note: None,
        expense_date: 0,
        sync_to_transaction: false,
    };
    let e = req.validate();
    assert_eq!(e.len(), 2);
    assert_eq!(e[0].code, "invalid_transportation_expense_category");
    assert_eq!(e[1].message.as_deref(), Some("จำนวนเงินต้องมากกว่า 0"));
}
