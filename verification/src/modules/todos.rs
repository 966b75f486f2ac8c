//! Todo lists and their items: ownership checks, what is stored, the order
//! of lists and items, and how they are answered.
use crate::common::errors::{
    AppError, bad_request, forbidden, not_found, rejects_bad_request, rejects_forbidden,
    rejects_not_found,
};
use crate::common::text::{
    clone_opt_string,
    opt_string_view, owned_optional_string, spec_normalize_optional, trimmed, trimmed_string,
};
use crate::common::validation::{
    FieldError, Issue, issues, issue_if, char_len, email_valid, check_trimmed_len, check_max_chars,
    check_length, check_range, check_email,
};
use vstd::prelude::*;

verus! {

broadcast use vstd::seq_lib::group_seq_properties;

/// A stored list (instants are Unix timestamps).
pub struct TodoList {
    pub id: u128,
    pub user_id: u128,
    pub title: String,
    pub description: Option<String>,
    pub color: Option<String>,
    pub position: i32,
    pub created_at: i64,
    pub updated_at: i64,
}

pub struct TodoItem {
    pub id: u128,
    pub list_id: u128,
    pub title: String,
    pub description: Option<String>,
    pub is_completed: bool,
    pub due_date: Option<i64>,
    pub position: i32,
    pub created_at: i64,
    pub updated_at: i64,
}

pub struct NewTodoList {
    pub user_id: u128,
    pub title: String,
    pub description: Option<String>,
    pub color: Option<String>,
}

pub struct NewTodoItem {
    pub list_id: u128,
    pub title: String,
    pub description: Option<String>,
    pub due_date: Option<i64>,
}

pub struct CreateTodoListRequest {
    pub title: String,
    pub description: Option<String>,
    pub color: Option<String>,
}

pub struct UpdateTodoListRequest {
    pub title: String,
    pub description: Option<String>,
    pub color: Option<String>,
}

pub struct CreateTodoItemRequest {
    pub title: String,
    pub description: Option<String>,
    pub due_date: Option<i64>,
}

pub struct ReorderTodoItemsRequest {
    pub item_ids: Vec<u128>,
}

pub struct TodoItemResponse {
    pub id: u128,
    pub list_id: u128,
    pub title: String,
    pub description: Option<String>,
    pub is_completed: bool,
    pub due_date: Option<i64>,
    pub position: i32,
    pub created_at: i64,
    pub updated_at: i64,
}

pub struct TodoListResponse {
    pub id: u128,
    pub user_id: u128,
    pub title: String,
    pub description: Option<String>,
    pub color: Option<String>,
    pub position: i32,
    pub items: Vec<TodoItemResponse>,
    pub created_at: i64,
    pub updated_at: i64,
}

pub struct TodoService;

pub struct TodoRepository;

// ===== Ownership =====

/// The list was found and belongs to `user`.
pub open spec fn owns_list(list: Option<TodoList>, user: u128) -> bool {
    match list {
        Some(l) => l.user_id == user,
        None => false,
    }
}

impl TodoService {
    /// The list, when it was found (`None`: not found) and belongs to the
    /// user.
    pub fn find_owned_list(list: Option<TodoList>, user_id: u128) -> (r: Result<TodoList, AppError>)
        ensures
            list is None ==> rejects_not_found(r, "Todo list not found"@),
            list is Some && !owns_list(list, user_id) ==> rejects_forbidden(
                r,
                "You do not have permission to access this Todo list."@,
            ),
            r is Ok <==> owns_list(list, user_id),
            r is Ok ==> r->Ok_0 == list->0,
    {
        let l = match list {
            Some(l) => l,
            None => return Err(not_found("Todo list not found")),
        };
        if l.user_id != user_id {
            return Err(forbidden("You do not have permission to access this Todo list."));
        }
        Ok(l)
    }

    /// The item, when it was found (`None`: not found) and its list
    /// (`list`, the lookup of the item's list) belongs to the user.
    pub fn find_owned_item(item: Option<TodoItem>, list: Option<TodoList>, user_id: u128) -> (r: Result<TodoItem, AppError>)
        ensures
            item is None ==> rejects_not_found(r, "Todo item not found"@),
            item is Some && list is None ==> rejects_not_found(r, "Todo list not found"@),
            item is Some && list is Some && !owns_list(list, user_id) ==> rejects_forbidden(
                r,
                "You do not have permission to access this Todo list."@,
            ),
            r is Ok <==> (item is Some && owns_list(list, user_id)),
            r is Ok ==> r->Ok_0 == item->0,
    {
        let it = match item {
            Some(i) => i,
            None => return Err(not_found("Todo item not found")),
        };
        match Self::find_owned_list(list, user_id) {
            Ok(_) => Ok(it),
            Err(e) => Err(e),
        }
    }

    /// The list a creation or an edit stores: trimmed title, blank texts
    /// left out.
    pub fn new_list(title: &String, description: &Option<String>, color: &Option<String>, user_id: u128) -> (r: NewTodoList)
        ensures
            r.user_id == user_id,
            r.title@ == trimmed(title@),
            opt_string_view(r.description) == spec_normalize_optional(opt_string_view(*description)),
            opt_string_view(r.color) == spec_normalize_optional(opt_string_view(*color)),
    {
        NewTodoList {
            user_id,
            title: trimmed_string(title),
            description: owned_optional_string(description),
            color: owned_optional_string(color),
        }
    }

    /// The item a creation stores.
    pub fn new_item(payload: &CreateTodoItemRequest, list_id: u128) -> (r: NewTodoItem)
        ensures
            r.list_id == list_id,
            r.title@ == trimmed(payload.title@),
            opt_string_view(r.description) == spec_normalize_optional(opt_string_view(payload.description)),
            r.due_date == payload.due_date,
    {
        NewTodoItem {
            list_id,
            title: trimmed_string(&payload.title),
            description: owned_optional_string(&payload.description),
            due_date: payload.due_date,
        }
    }

    /// The completion an item is toggled to.
    pub fn toggle_todo_item(item: &TodoItem) -> (r: bool)
        ensures
            r == !item.is_completed,
    {
        !item.is_completed
    }
}

// ===== Positions =====

impl TodoRepository {
    /// Position of a new list or item: one past the highest in use, or 0.
    pub fn next_position(current_max: Option<i32>) -> (r: i32)
        requires
            current_max matches Some(m) ==> m < i32::MAX,
        ensures
            r == match current_max {
                Some(m) => m + 1,
                None => 0,
            },
    {
        match current_max {
            Some(m) => m + 1,
            None => 0,
        }
    }
}

/// The order of lists after moving `list_id` to the top: it first, then
/// the others in their order.
pub open spec fn moved_to_top(ids: Seq<u128>, list_id: u128) -> Seq<u128> {
    seq![list_id] + without_id(ids, list_id)
}

/// The ids other than `id`, in order.
pub open spec fn without_id(ids: Seq<u128>, id: u128) -> Seq<u128>
    decreases ids.len(),
{
    if ids.len() == 0 {
        ids
    } else if ids.last() == id {
        without_id(ids.drop_last(), id)
    } else {
        without_id(ids.drop_last(), id).push(ids.last())
    }
}

impl TodoService {
    /// The order of the user's lists (given in their current order) after
    /// moving one to the top; each list's new position is its index.
    pub fn move_todo_list_to_top(ids: &Vec<u128>, list_id: u128) -> (r: Vec<u128>)
        ensures
            r@ == moved_to_top(ids@, list_id),
    {
        let mut out: Vec<u128> = Vec::new();
        out.push(list_id);
        let mut i: usize = 0;
        while i < ids.len()
            invariant
                0 <= i <= ids@.len(),
                out@ == seq![list_id] + without_id(ids@.take(i as int), list_id),
            decreases ids@.len() - i,
        {
            proof {
                let t = ids@.take(i + 1);
                assert(t.drop_last() == ids@.take(i as int));
                assert(t.last() == ids@[i as int]);
            }
            if ids[i] != list_id {
                out.push(ids[i]);
            }
            i = i + 1;
        }
        proof {
            assert(ids@.take(ids@.len() as int) == ids@);
        }
        out
    }
}

/// No id occurs twice.
pub open spec fn no_duplicates(ids: Seq<u128>) -> bool {
    forall|i: int, j: int| 0 <= i < j < ids.len() ==> ids[i] != ids[j]
}

/// The same ids, as sets.
pub open spec fn same_ids(a: Seq<u128>, b: Seq<u128>) -> bool {
    forall|x: u128| a.contains(x) <==> b.contains(x)
}

fn contains_id(ids: &Vec<u128>, x: u128) -> (r: bool)
    ensures
        r == ids@.contains(x),
{
    let mut i: usize = 0;
    while i < ids.len()
        invariant
            0 <= i <= ids@.len(),
            forall|k: int| 0 <= k < i ==> ids@[k] != x,
        decreases ids@.len() - i,
    {
        if ids[i] == x {
            return true;
        }
        i = i + 1;
    }
    false
}

impl TodoService {
    /// A new order of a list's items must name each of its items once:
    /// a repeated id, or a set of ids other than the list's, is refused.
    pub fn reorder_todo_items(item_ids: &Vec<u128>, existing_ids: &Vec<u128>) -> (r: Result<(), AppError>)
        ensures
            !no_duplicates(item_ids@) ==> rejects_bad_request(r, "The request contains duplicate item ids."@),
            no_duplicates(item_ids@) && !same_ids(item_ids@, existing_ids@) ==> rejects_bad_request(
                r,
                "The submitted item list does not match all items in this list."@,
            ),
            r is Ok <==> (no_duplicates(item_ids@) && same_ids(item_ids@, existing_ids@)),
    {
        let n = item_ids.len();
        let mut i: usize = 0;
        while i < n
            invariant
                n == item_ids@.len(),
                0 <= i <= n,
                forall|a: int, b: int| 0 <= a < b < i ==> item_ids@[a] != item_ids@[b],
            decreases n - i,
        {
            let mut j: usize = 0;
            while j < i
                invariant
                    n == item_ids@.len(),
                    0 <= j <= i < n,
                    forall|b: int| 0 <= b < j ==> item_ids@[b] != item_ids@[i as int],
                decreases i - j,
            {
                if item_ids[j] == item_ids[i] {
                    proof {
                        assert(!no_duplicates(item_ids@));
                    }
                    return Err(bad_request("The request contains duplicate item ids."));
                }
                j = j + 1;
            }
            i = i + 1;
        }
        proof {
            assert(no_duplicates(item_ids@));
        }
        let mut k: usize = 0;
        while k < n
            invariant
                n == item_ids@.len(),
                0 <= k <= n,
                no_duplicates(item_ids@),
                forall|a: int| 0 <= a < k ==> existing_ids@.contains(#[trigger] item_ids@[a]),
            decreases n - k,
        {
            if !contains_id(existing_ids, item_ids[k]) {
                proof {
                    assert(item_ids@.contains(item_ids@[k as int]));
                }
                return Err(bad_request("The submitted item list does not match all items in this list."));
            }
            k = k + 1;
        }
        let m = existing_ids.len();
        let mut e: usize = 0;
        while e < m
            invariant
                m == existing_ids@.len(),
                0 <= e <= m,
                no_duplicates(item_ids@),
                forall|a: int| 0 <= a < e ==> item_ids@.contains(#[trigger] existing_ids@[a]),
            decreases m - e,
        {
            if !contains_id(item_ids, existing_ids[e]) {
                proof {
                    assert(existing_ids@.contains(existing_ids@[e as int]));
                }
                return Err(bad_request("The submitted item list does not match all items in this list."));
            }
            e = e + 1;
        }
        proof {
            assert forall|x: u128| item_ids@.contains(x) <==> existing_ids@.contains(x) by {
                if item_ids@.contains(x) {
                    let a = choose|a: int| 0 <= a < item_ids@.len() && item_ids@[a] == x;
                    assert(existing_ids@.contains(item_ids@[a]));
                }
                if existing_ids@.contains(x) {
                    let a = choose|a: int| 0 <= a < existing_ids@.len() && existing_ids@[a] == x;
                    assert(item_ids@.contains(existing_ids@[a]));
                }
            }
        }
        Ok(())
    }
}

// ===== Responses =====

pub open spec fn answers_item(r: TodoItemResponse, i: TodoItem) -> bool {
    &&& r.id == i.id
    &&& r.list_id == i.list_id
    &&& r.title == i.title
    &&& r.description == i.description
    &&& r.is_completed == i.is_completed
    &&& r.due_date == i.due_date
    &&& r.position == i.position
    &&& r.created_at == i.created_at
    &&& r.updated_at == i.updated_at
}

pub open spec fn answers_list_fields(r: TodoListResponse, l: TodoList) -> bool {
    &&& r.id == l.id
    &&& r.user_id == l.user_id
    &&& r.title == l.title
    &&& r.description == l.description
    &&& r.color == l.color
    &&& r.position == l.position
    &&& r.created_at == l.created_at
    &&& r.updated_at == l.updated_at
}

impl TodoRepository {
    pub fn to_item_response(item: TodoItem) -> (r: TodoItemResponse)
        ensures
            answers_item(r, item),
    {
        TodoItemResponse {
            id: item.id,
            list_id: item.list_id,
            title: item.title,
            description: item.description,
            is_completed: item.is_completed,
            due_date: item.due_date,
            position: item.position,
            created_at: item.created_at,
            updated_at: item.updated_at,
        }
    }

    pub fn to_list_response(list: TodoList, items: Vec<TodoItemResponse>) -> (r: TodoListResponse)
        ensures
            answers_list_fields(r, list),
            r.items == items,
    {
        TodoListResponse {
            id: list.id,
            user_id: list.user_id,
            title: list.title,
            description: list.description,
            color: list.color,
            position: list.position,
            items,
            created_at: list.created_at,
            updated_at: list.updated_at,
        }
    }

    /// Answers each item in order.
    pub fn to_item_responses(items: Vec<TodoItem>) -> (r: Vec<TodoItemResponse>)
        ensures
            r@.len() == items@.len(),
            forall|i: int| 0 <= i < r@.len() ==> answers_item(#[trigger] r@[i], items@[i]),
    {
        let mut rest = items;
        let ghost all = rest@;
        let mut out: Vec<TodoItemResponse> = Vec::new();
        while rest.len() > 0
            invariant
                out@.len() + rest@.len() == all.len(),
                forall|j: int| 0 <= j < rest@.len() ==> rest@[j] == all[out@.len() + j],
                forall|j: int| 0 <= j < out@.len() ==> answers_item(#[trigger] out@[j], all[j]),
            decreases rest@.len(),
        {
            let it = rest.remove(0);
            out.push(Self::to_item_response(it));
        }
        out
    }
}

/// The items of a list, in order.
pub open spec fn items_of_list(items: Seq<TodoItem>, list_id: u128) -> Seq<TodoItem>
    decreases items.len(),
{
    if items.len() == 0 {
        items
    } else if items.last().list_id == list_id {
        items_of_list(items.drop_last(), list_id).push(items.last())
    } else {
        items_of_list(items.drop_last(), list_id)
    }
}

/// No earlier list has the same id.
pub open spec fn first_list_with_id(lists: Seq<TodoList>, k: int) -> bool {
    forall|j: int| 0 <= j < k ==> lists[j].id != lists[k].id
}

/// A list as answered with its items.
pub open spec fn answers_list(r: TodoListResponse, lists: Seq<TodoList>, k: int, items: Seq<TodoItem>) -> bool {
    let expected = if first_list_with_id(lists, k) {
        items_of_list(items, lists[k].id)
    } else {
        Seq::<TodoItem>::empty()
    };
    &&& answers_list_fields(r, lists[k])
    &&& r.items@.len() == expected.len()
    &&& forall|i: int| 0 <= i < expected.len() ==> answers_item(#[trigger] r.items@[i], expected[i])
}

fn clone_item(i: &TodoItem) -> (r: TodoItem)
    ensures
        r == *i,
{
    TodoItem {
        id: i.id,
        list_id: i.list_id,
        title: i.title.clone(),
        description: clone_opt_string(&i.description),
        is_completed: i.is_completed,
        due_date: i.due_date,
        position: i.position,
        created_at: i.created_at,
        updated_at: i.updated_at,
    }
}

fn clone_list(l: &TodoList) -> (r: TodoList)
    ensures
        r == *l,
{
    TodoList {
        id: l.id,
        user_id: l.user_id,
        title: l.title.clone(),
        description: clone_opt_string(&l.description),
        color: clone_opt_string(&l.color),
        position: l.position,
        created_at: l.created_at,
        updated_at: l.updated_at,
    }
}

fn item_responses_of_list(items: &Vec<TodoItem>, list_id: u128) -> (r: Vec<TodoItemResponse>)
    ensures
        r@.len() == items_of_list(items@, list_id).len(),
        forall|i: int| 0 <= i < r@.len() ==> answers_item(#[trigger] r@[i], items_of_list(items@, list_id)[i]),
{
    let mut out: Vec<TodoItemResponse> = Vec::new();
    let mut i: usize = 0;
    while i < items.len()
        invariant
            0 <= i <= items@.len(),
            out@.len() == items_of_list(items@.take(i as int), list_id).len(),
            forall|j: int|
                0 <= j < out@.len() ==> answers_item(#[trigger] out@[j], items_of_list(items@.take(i as int), list_id)[j]),
        decreases items@.len() - i,
    {
        proof {
            let t = items@.take(i + 1);
            assert(t.drop_last() == items@.take(i as int));
            assert(t.last() == items@[i as int]);
        }
        if items[i].list_id == list_id {
            out.push(TodoRepository::to_item_response(clone_item(&items[i])));
        }
        i = i + 1;
    }
    proof {
        assert(items@.take(items@.len() as int) == items@);
    }
    out
}

fn is_first_list(lists: &Vec<TodoList>, k: usize) -> (r: bool)
    requires
        k < lists@.len(),
    ensures
        r == first_list_with_id(lists@, k as int),
{
    let mut j: usize = 0;
    while j < k
        invariant
            0 <= j <= k < lists@.len(),
            forall|a: int| 0 <= a < j ==> lists@[a].id != lists@[k as int].id,
        decreases k - j,
    {
        if lists[j].id == lists[k].id {
            return false;
        }
        j = j + 1;
    }
    true
}

impl TodoRepository {
    /// The user's lists in order, each with its items in order (a list
    /// listed twice shows them at its first place only).
    pub fn find_all_lists_with_items(lists: Vec<TodoList>, items: Vec<TodoItem>) -> (r: Vec<TodoListResponse>)
        ensures
            r@.len() == lists@.len(),
            forall|k: int| 0 <= k < lists@.len() ==> answers_list(#[trigger] r@[k], lists@, k, items@),
    {
        let mut out: Vec<TodoListResponse> = Vec::new();
        let n = lists.len();
        let mut k: usize = 0;
        while k < n
            invariant
                n == lists@.len(),
                0 <= k <= n,
                out@.len() == k,
                forall|a: int| 0 <= a < k ==> answers_list(#[trigger] out@[a], lists@, a, items@),
            decreases n - k,
        {
            let first = is_first_list(&lists, k);
            let its = if first {
                item_responses_of_list(&items, lists[k].id)
            } else {
                Vec::new()
            };
            out.push(Self::to_list_response(clone_list(&lists[k]), its));
            proof {
                assert(answers_list(out@[k as int], lists@, k as int, items@));
            }
            k = k + 1;
        }
        out
    }
}

/// The items shown with an edited list: those of the first answered list
/// with its id, or none.
pub open spec fn items_of_first_with_id(lists: Seq<TodoListResponse>, id: u128) -> Seq<TodoItemResponse>
    decreases lists.len(),
{
    if lists.len() == 0 {
        Seq::empty()
    } else if lists[0].id == id {
        lists[0].items@
    } else {
        items_of_first_with_id(lists.drop_first(), id)
    }
}

impl TodoService {
    /// An edited list as answered, with the items that the user's answered
    /// lists show for it.
    pub fn update_todo_list(saved: TodoList, lists: Vec<TodoListResponse>) -> (r: TodoListResponse)
        ensures
            answers_list_fields(r, saved),
            r.items@ == items_of_first_with_id(lists@, saved.id),
    {
        let mut rest = lists;
        let ghost all = rest@;
        while rest.len() > 0
            invariant
                all == lists@,
                items_of_first_with_id(all, saved.id) == items_of_first_with_id(rest@, saved.id),
            decreases rest@.len(),
        {
            let ghost before = rest@;
            let l = rest.remove(0);
            proof {
                assert(before.drop_first() == rest@);
                assert(before[0] == l);
            }
            if l.id == saved.id {
                return TodoRepository::to_list_response(saved, l.items);
            }
        }
        TodoRepository::to_list_response(saved, Vec::new())
    }
}

// ===== Request rules =====

impl CreateTodoListRequest {
    /// The broken rules: a title of 1 to 100 characters once trimmed, a description of at most 3000, a colour of at most 20.
    pub fn validate(&self) -> (r: Vec<FieldError>)
        ensures
            issues(r@) == issue_if(!(1 <= char_len(trimmed(self.title@)) <= 100), "title"@, "invalid_todo_title"@, None) + match self.description { Some(x) => issue_if(char_len(x@) > 3000, "description"@, "invalid_todo_description"@, None), None => Seq::<Issue>::empty() } + match self.color { Some(x) => issue_if(char_len(x@) > 20, "color"@, "length"@, Some("Color must not exceed 20 characters"@)), None => Seq::<Issue>::empty() },
    {
        let mut errors: Vec<FieldError> = Vec::new();
        proof {
            assert(issues(errors@) =~= Seq::<Issue>::empty());
        }
        check_trimmed_len(&mut errors, "title", self.title.as_str(), 100, "invalid_todo_title");
        match &self.description {
            Some(x) => {
                check_max_chars(&mut errors, "description", x.as_str(), 3000, "invalid_todo_description");
            },
            None => {
                proof {
                    assert(issues(errors@) =~= issues(errors@) + Seq::<Issue>::empty());
                }
            },
        }
        match &self.color {
            Some(x) => {
                check_length(&mut errors, "color", x.as_str(), None, Some(20), "Color must not exceed 20 characters");
            },
            None => {
                proof {
                    assert(issues(errors@) =~= issues(errors@) + Seq::<Issue>::empty());
                }
            },
        }
        errors
    }
}

impl UpdateTodoListRequest {
    /// The broken rules: a title of 1 to 100 characters once trimmed, a description of at most 3000, a colour of at most 20.
    pub fn validate(&self) -> (r: Vec<FieldError>)
        ensures
            issues(r@) == issue_if(!(1 <= char_len(trimmed(self.title@)) <= 100), "title"@, "invalid_todo_title"@, None) + match self.description { Some(x) => issue_if(char_len(x@) > 3000, "description"@, "invalid_todo_description"@, None), None => Seq::<Issue>::empty() } + match self.color { Some(x) => issue_if(char_len(x@) > 20, "color"@, "length"@, Some("Color must not exceed 20 characters"@)), None => Seq::<Issue>::empty() },
    {
        let mut errors: Vec<FieldError> = Vec::new();
        proof {
            assert(issues(errors@) =~= Seq::<Issue>::empty());
        }
        check_trimmed_len(&mut errors, "title", self.title.as_str(), 100, "invalid_todo_title");
        match &self.description {
            Some(x) => {
                check_max_chars(&mut errors, "description", x.as_str(), 3000, "invalid_todo_description");
            },
            None => {
                proof {
                    assert(issues(errors@) =~= issues(errors@) + Seq::<Issue>::empty());
                }
            },
        }
        match &self.color {
            Some(x) => {
                check_length(&mut errors, "color", x.as_str(), None, Some(20), "Color must not exceed 20 characters");
            },
            None => {
                proof {
                    assert(issues(errors@) =~= issues(errors@) + Seq::<Issue>::empty());
                }
            },
        }
        errors
    }
}

impl CreateTodoItemRequest {
    /// The broken rules: a title of 1 to 100 characters once trimmed, a description of at most 3000.
    pub fn validate(&self) -> (r: Vec<FieldError>)
        ensures
            issues(r@) == issue_if(!(1 <= char_len(trimmed(self.title@)) <= 100), "title"@, "invalid_todo_title"@, None) + match self.description { Some(x) => issue_if(char_len(x@) > 3000, "description"@, "invalid_todo_description"@, None), None => Seq::<Issue>::empty() },
    {
        let mut errors: Vec<FieldError> = Vec::new();
        proof {
            assert(issues(errors@) =~= Seq::<Issue>::empty());
        }
        check_trimmed_len(&mut errors, "title", self.title.as_str(), 100, "invalid_todo_title");
        match &self.description {
            Some(x) => {
                check_max_chars(&mut errors, "description", x.as_str(), 3000, "invalid_todo_description");
            },
            None => {
                proof {
                    assert(issues(errors@) =~= issues(errors@) + Seq::<Issue>::empty());
                }
            },
        }
        errors
    }
}

proof fn lemma_without_id(ids: Seq<u128>, id: u128)
    ensures
        forall|x: u128| without_id(ids, id).contains(x) <==> (ids.contains(x) && x != id),
        no_duplicates(ids) ==> no_duplicates(without_id(ids, id)),
        no_duplicates(ids) && ids.contains(id) ==> without_id(ids, id).len() + 1 == ids.len(),
        !ids.contains(id) ==> without_id(ids, id).len() == ids.len(),
    decreases ids.len(),
{
    if ids.len() > 0 {
        let rest = ids.drop_last();
        lemma_without_id(rest, id);
        assert(ids =~= rest.push(ids.last()));
        assert forall|x: u128| without_id(ids, id).contains(x) <==> (ids.contains(x) && x != id) by {
            if ids.contains(x) && x != id {
                let k = choose|k: int| 0 <= k < ids.len() && ids[k] == x;
                if k < rest.len() {
                    assert(rest[k] == x);
                }
            }
            if without_id(ids, id).contains(x) {
                if ids.last() != id {
                    let w = without_id(rest, id);
                    let k = choose|k: int| 0 <= k < w.len() + 1 && w.push(ids.last())[k] == x;
                    if k < w.len() {
                        assert(w[k] == x);
                    }
                }
            }
        }
        if no_duplicates(ids) {
            assert(no_duplicates(rest));
            assert(!rest.contains(ids.last())) by {
                if rest.contains(ids.last()) {
                    let k = choose|k: int| 0 <= k < rest.len() && rest[k] == ids.last();
                    assert(ids[k] == ids[ids.len() - 1]);
                }
            }
            if ids.last() != id {
                let w = without_id(rest, id);
                assert(!w.contains(ids.last()));
                assert forall|i: int, j: int| 0 <= i < j < w.push(ids.last()).len() implies w.push(ids.last())[i]
                    != w.push(ids.last())[j] by {
                    if j == w.len() {
                        assert(w.contains(w[i]));
                    }
                }
            }
            if ids.contains(id) && ids.last() != id {
                let k = choose|k: int| 0 <= k < ids.len() && ids[k] == id;
                assert(rest[k] == id);
            }
        }
        if !ids.contains(id) {
            assert forall|k: int| 0 <= k < rest.len() implies rest[k] != id by {
                assert(ids[k] == rest[k]);
            }
            assert(ids[ids.len() - 1] != id);
        }
    }
}

/// Moving a list to the top keeps the same lists, without repeats, and
/// puts that list first.
pub proof fn law_move_to_top_keeps_lists(ids: Seq<u128>, list_id: u128)
    requires
        no_duplicates(ids),
        ids.contains(list_id),
    ensures
        moved_to_top(ids, list_id).len() == ids.len(),
        moved_to_top(ids, list_id)[0] == list_id,
        forall|x: u128| moved_to_top(ids, list_id).contains(x) <==> ids.contains(x),
        no_duplicates(moved_to_top(ids, list_id)),
{
    lemma_without_id(ids, list_id);
    let w = without_id(ids, list_id);
    let r = moved_to_top(ids, list_id);
    assert(r =~= seq![list_id] + w);
    assert forall|x: u128| r.contains(x) <==> ids.contains(x) by {
        if r.contains(x) {
            let k = choose|k: int| 0 <= k < r.len() && r[k] == x;
            if k > 0 {
                assert(w[k - 1] == x);
                assert(w.contains(x));
            }
        }
        if ids.contains(x) && x != list_id {
            let k = choose|k: int| 0 <= k < w.len() && w[k] == x;
            assert(r[k + 1] == x);
        }
        if x == list_id {
            assert(r[0] == x);
        }
    }
    assert forall|i: int, j: int| 0 <= i < j < r.len() implies r[i] != r[j] by {
        if i == 0 {
            assert(r[j] == w[j - 1]);
            assert(w.contains(w[j - 1]));
        } else {
            assert(r[i] == w[i - 1] && r[j] == w[j - 1]);
        }
    }
}

} // verus!
