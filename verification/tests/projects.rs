use productivity_api::common::errors::{AppError, DbError};
use productivity_api::modules::projects::{
    build_note_tree, get_task_assignees, to_task_response, Board, BoardColumn, CreateNoteRequest,
    CreateSprintRequest,
    CreateProjectRequest, CreateTaskRequest, NoteType, Project, ProjectNote, ProjectService,
    ProjectStatus, Sprint, Task, TaskPriority, TaskType, UpdateNoteRequest, UpdateSprintRequest,
    UpdateTaskRequest,
};

fn msg(e: &AppError) -> String {
    match e {
        AppError::BadRequest(m)
        | AppError::Unauthorized(m)
        | AppError::Forbidden(m)
        | AppError::NotFound(m)
        | AppError::Conflict(m)
        | AppError::InternalServerError(m) => m.clone(),
    }
}

fn project(owner: u128) -> Project {
    Project {
        id: 100,
        title: "P".to_string(),
        description: "d".to_string(),
        owner_id: owner,
        status: ProjectStatus::Active,
        start_date: 0,
        finish_date: None,
        created_at: 0,
        updated_at: 0,
    }
}

#[test]
fn member_and_owner_checks() {
    assert_eq!(msg(&ProjectService::ensure_member(None, Ok(true)).err().unwrap()), "ไม่พบโปรเจกต์นี้");
    assert_eq!(
        msg(&ProjectService::ensure_member(Some(project(1)), Err(DbError::Other)).err().unwrap()),
        "Query Error"
    );
    assert!(matches!(ProjectService::ensure_member(Some(project(1)), Ok(false)), Err(AppError::Forbidden(_))));
    assert!(ProjectService::ensure_member(Some(project(1)), Ok(true)).is_ok());
    assert!(matches!(ProjectService::ensure_owner(Some(project(1)), 2), Err(AppError::Forbidden(_))));
    assert_eq!(ProjectService::ensure_owner(Some(project(1)), 1).unwrap().id, 100);
    assert!(matches!(ProjectService::ensure_owner(None, 1), Err(AppError::NotFound(_))));
}

#[test]
fn owner_cannot_be_removed() {
    assert!(matches!(ProjectService::remove_member(&project(5), 5), Err(AppError::BadRequest(_))));
    assert!(ProjectService::remove_member(&project(5), 6).is_ok());
    assert_eq!(msg(&ProjectService::member_removed(0).err().unwrap()), "ไม่พบสมาชิกในโปรเจกต์นี้");
    assert!(ProjectService::member_removed(1).is_ok());
}

#[test]
fn adding_members() {
    assert!(matches!(ProjectService::member_to_add(Ok(None)), Err(AppError::NotFound(_))));
    assert!(matches!(ProjectService::member_to_add(Ok(Some((4, true)))), Err(AppError::NotFound(_))));
    assert!(matches!(ProjectService::member_to_add(Ok(Some((4, false)))), Ok(4)));
    assert!(matches!(ProjectService::member_to_add(Err(DbError::Other)), Err(AppError::InternalServerError(_))));
    assert!(matches!(ProjectService::check_not_member(Ok(true)), Err(AppError::BadRequest(_))));
    assert!(ProjectService::check_not_member(Ok(false)).is_ok());
    let rows = vec![
        (1, Some("a@x".to_string()), None, None, 10),
        (2, Some("b@x".to_string()), Some("B".to_string()), None, 20),
        (2, Some("dup@x".to_string()), None, None, 30),
    ];
    let m = ProjectService::find_added_member(rows, 2).unwrap();
    assert_eq!(m.email.as_deref(), Some("b@x"));
    assert_eq!(m.joined_at, 20);
    assert_eq!(
        msg(&ProjectService::find_added_member(vec![], 2).err().unwrap()),
        "ไม่พบสมาชิกที่เพิ่มใหม่"
    );
}

#[test]
fn new_project_defaults() {
    let req = CreateProjectRequest {
        title: "  Site ".to_string(),
        description: " x ".to_string(),
        status: None,
        start_date: 5,
        finish_date: None,
    };
    let p = ProjectService::new_project(&req, 3);
    assert_eq!(p.title, "Site");
    assert_eq!(p.description, "x");
    assert_eq!(p.status, ProjectStatus::Planning);
    assert_eq!(p.owner_id, 3);
    let cols = ProjectService::default_columns(8);
    let names: Vec<&str> = cols.iter().map(|c| c.name.as_str()).collect();
    assert_eq!(names, vec!["Todo", "In progress", "Ready to test", "Done"]);
    assert_eq!(cols.iter().map(|c| c.order_index).collect::<Vec<_>>(), vec![1, 2, 3, 4]);
    let s = ProjectService::first_sprint(100, 77);
    assert_eq!(s.name, "Sprint 1");
    assert!(s.is_active);
    assert_eq!(s.start_date, 77);
}

fn note(id: u128, parent: Option<u128>, t: NoteType, project_id: u128) -> ProjectNote {
    ProjectNote {
        id,
        project_id,
        parent_id: parent,
        type_: t,
        title: format!("n{}", id),
        content: Some("c".to_string()),
        created_by: 1,
        updated_by: 1,
        created_at: 0,
        updated_at: 0,
    }
}

#[test]
fn notes_go_under_folders_of_the_project() {
    let mut req = CreateNoteRequest {
        parent_id: Some(1),
        type_: NoteType::File,
        title: " T ".to_string(),
        content: Some("  ".to_string()),
    };
    assert_eq!(
        msg(&ProjectService::create_note(&req, 100, 1, None).err().unwrap()),
        "ไม่พบโฟลเดอร์ปลายทาง"
    );
    assert_eq!(
        msg(&ProjectService::create_note(&req, 100, 1, Some(note(1, None, NoteType::Folder, 200))).err().unwrap()),
        "โฟลเดอร์ปลายทางไม่ได้อยู่ในโปรเจกต์นี้"
    );
    assert_eq!(
        msg(&ProjectService::create_note(&req, 100, 1, Some(note(1, None, NoteType::File, 100))).err().unwrap()),
        "สามารถสร้างโน้ตไว้ภายใต้ folder เท่านั้น"
    );
    let n = ProjectService::create_note(&req, 100, 1, Some(note(1, None, NoteType::Folder, 100))).unwrap();
    assert_eq!(n.title, "T");
    assert_eq!(n.content, None);
    req.type_ = NoteType::Folder;
    req.content = Some("text".to_string());
    req.parent_id = None;
    let f = ProjectService::create_note(&req, 100, 1, None).unwrap();
    assert_eq!(f.content, None);
    let upd = UpdateNoteRequest { title: "X".to_string(), content: Some(" body ".to_string()) };
    let (t, c) = ProjectService::update_note(&upd, &note(2, None, NoteType::File, 100));
    assert_eq!((t.as_str(), c.as_deref()), ("X", Some("body")));
    assert!(matches!(ProjectService::note_in_project(Some(note(2, None, NoteType::File, 9)), 100), Err(AppError::NotFound(_))));
}

#[test]
fn note_tree_nests_folders() {
    let notes = vec![
        note(1, None, NoteType::Folder, 100),
        note(2, Some(1), NoteType::File, 100),
        note(3, None, NoteType::File, 100),
        note(4, Some(1), NoteType::Folder, 100),
        note(5, Some(4), NoteType::File, 100),
        note(6, Some(42), NoteType::File, 100),
    ];
    let tree = build_note_tree(notes);
    assert_eq!(tree.iter().map(|n| n.id).collect::<Vec<_>>(), vec![1, 3]);
    assert_eq!(tree[0].children.iter().map(|n| n.id).collect::<Vec<_>>(), vec![2, 4]);
    assert_eq!(tree[0].children[1].children[0].id, 5);
    assert!(tree[1].children.is_empty());
}

#[test]
fn note_tree_places_each_note_once() {
    // a note listed as its own parent's parent (a cycle) is not placed
    let notes = vec![note(1, Some(2), NoteType::Folder, 100), note(2, Some(1), NoteType::Folder, 100)];
    assert!(build_note_tree(notes).is_empty());
}

#[test]
fn sprint_activation_is_exclusive() {
    let req = UpdateSprintRequest {
        name: Some(" S2 ".to_string()),
        goal: Some(Some(" g ".to_string())),
        start_date: None,
        end_date: None,
        is_active: Some(true),
    };
    assert!(matches!(ProjectService::update_sprint(&req, 5, Some(6)), Err(AppError::BadRequest(_))));
    let c = ProjectService::update_sprint(&req, 5, Some(5)).ok().unwrap();
    assert_eq!(c.name.as_deref(), Some("S2"));
    assert_eq!(c.goal, Some(Some("g".to_string())));
    assert!(ProjectService::update_sprint(&req, 5, None).is_ok());
}

fn task_req(column: Option<u128>, sprint: Option<u128>) -> CreateTaskRequest {
    CreateTaskRequest {
        project_id: 100,
        sprint_id: sprint,
        column_id: column,
        title: " Fix ".to_string(),
        description: " it ".to_string(),
        type_: TaskType::Bug,
        priority: TaskPriority::High,
        story_points: Some(3),
        assignee_id: None,
        tag: Some("  ".to_string()),
    }
}

#[test]
fn task_goes_to_first_column_by_default() {
    let t = ProjectService::create_task(&task_req(None, None), 100, 9, Some(50), false, Some(61), false).ok().unwrap();
    assert_eq!(t.column_id, 61);
    assert_eq!(t.board_id, 50);
    assert_eq!(t.title, "Fix");
    assert_eq!(t.tag, None);
    assert_eq!(t.reporter_id, 9);
    let e = ProjectService::create_task(&task_req(Some(70), None), 100, 9, Some(50), false, Some(61), true);
    assert!(matches!(e, Err(AppError::BadRequest(_))));
    let e = ProjectService::create_task(&task_req(None, None), 100, 9, None, true, Some(61), true);
    assert_eq!(msg(&e.err().unwrap()), "ไม่พบบอร์ดของโปรเจกต์นี้");
    let e = ProjectService::create_task(&task_req(None, None), 100, 9, Some(50), true, None, true);
    assert_eq!(msg(&e.err().unwrap()), "ไม่พบคอลัมน์ในบอร์ดนี้");
    let e = ProjectService::create_task(&task_req(Some(70), Some(3)), 100, 9, Some(50), true, None, false);
    assert_eq!(msg(&e.err().unwrap()), "sprint_id ไม่ได้อยู่ในโปรเจกต์นี้");
}

#[test]
fn task_edit_checks() {
    let req = UpdateTaskRequest {
        title: Some(" A ".to_string()),
        description: None,
        column_id: Some(3),
        type_: None,
        priority: None,
        story_points: Some(None),
        sprint_id: Some(None),
        assignee_id: None,
        tag: Some(Some(" t ".to_string())),
    };
    assert!(matches!(ProjectService::update_task(&req, false, false), Err(AppError::BadRequest(_))));
    let c = ProjectService::update_task(&req, true, false).ok().unwrap();
    assert_eq!(c.title.as_deref(), Some("A"));
    assert_eq!(c.tag, Some(Some("t".to_string())));
    assert_eq!(c.sprint_id, Some(None));
}

fn task(id: u128, column: u128, assignee: Option<u128>) -> Task {
    Task {
        id,
        project_id: 100,
        board_id: 50,
        sprint_id: Some(1),
        column_id: column,
        title: "t".to_string(),
        description: "d".to_string(),
        type_: TaskType::Task,
        priority: TaskPriority::Low,
        story_points: None,
        assignee_id: assignee,
        reporter_id: 1,
        tag: None,
        created_at: 0,
        updated_at: 0,
    }
}

fn column(id: u128, board: u128, order: i32) -> BoardColumn {
    BoardColumn { id, board_id: board, name: format!("c{}", id), order_index: order }
}

#[test]
fn kanban_groups_tasks_by_column() {
    let board = Board { id: 50, project_id: 100, name: "B".to_string() };
    let columns = vec![column(1, 50, 1), column(2, 50, 2), column(1, 50, 3)];
    let tasks = vec![task(10, 2, None), task(11, 1, Some(7)), task(12, 2, None), task(13, 99, None)];
    let members = vec![
        (7, None, Some("Old".to_string()), None, 0),
        (7, None, Some("New".to_string()), None, 0),
    ];
    let assignees = get_task_assignees(members);
    let sprint = Sprint {
        id: 1,
        project_id: 100,
        name: "S".to_string(),
        goal: None,
        start_date: 0,
        end_date: None,
        is_active: true,
    };
    let k = ProjectService::get_kanban(board, columns, Some(sprint), tasks, assignees);
    assert_eq!(k.board_id, 50);
    assert_eq!(k.columns.len(), 3);
    assert_eq!(k.columns[0].tasks.iter().map(|t| t.id).collect::<Vec<_>>(), vec![11]);
    assert_eq!(k.columns[1].tasks.iter().map(|t| t.id).collect::<Vec<_>>(), vec![10, 12]);
    assert!(k.columns[2].tasks.is_empty());
    let a = k.columns[0].tasks[0].assignee.as_ref().unwrap();
    assert_eq!(a.first_name.as_deref(), Some("New"));
    assert!(k.active_sprint.unwrap().is_active);
}

#[test]
fn boards_group_columns() {
    let boards = vec![
        Board { id: 1, project_id: 100, name: "a".to_string() },
        Board { id: 2, project_id: 100, name: "b".to_string() },
    ];
    let columns = vec![column(10, 2, 1), column(11, 1, 1), column(12, 2, 2)];
    let r = ProjectService::get_boards(boards, columns);
    assert_eq!(r[0].columns.iter().map(|c| c.id).collect::<Vec<_>>(), vec![11]);
    assert_eq!(r[1].columns.iter().map(|c| c.id).collect::<Vec<_>>(), vec![10, 12]);
}

#[test]
fn project_list_uses_member_counts() {
    let mut other = project(1);
    other.id = 200;
    let r = ProjectService::list_projects(vec![project(1), other], vec![(100, 3), (100, 4)]);
    assert_eq!(r[0].member_count, 4);
    assert_eq!(r[1].member_count, 0);
}

#[test]
fn task_response_without_assignee() {
    let r = to_task_response(task(1, 2, Some(9)), &vec![]);
    assert!(r.assignee.is_none());
    assert_eq!(r.assignee_id, Some(9));
}

#[test]
fn project_request_rules() {
    let mut req = CreateProjectRequest {
        title: "   ".to_string(),
        description: String::new(),
        status: None,
        start_date: 0,
        finish_date: None,
    };
    let e = req.validate();
    assert_eq!(e.len(), 2);
    assert_eq!(e[0].code, "invalid_title");
    assert_eq!(e[1].message.as_deref(), Some("description must not be empty"));
    req.title = "ok".to_string();
    req.description = "x".to_string();
    assert!(req.validate().is_empty());
}

#[test]
fn new_sprint_is_active_only_without_another() {
    let req = CreateSprintRequest { name: "  Sprint 2 ".to_string(), goal: None, start_date: 0, end_date: None };
    let first = ProjectService::new_sprint(&req, 7, false);
    assert!(first.is_active);
    assert_eq!(first.name, "Sprint 2");
    let second = ProjectService::new_sprint(&req, 7, true);
    assert!(!second.is_active);
}

#[test]
fn kanban_shows_only_the_active_sprint() {
    let board = Board { id: 50, project_id: 100, name: "B".to_string() };
    let mut other = task(14, 1, None);
    other.sprint_id = Some(2);
    let mut backlog = task(15, 1, None);
    backlog.sprint_id = None;
    let tasks = vec![task(10, 1, None), other, backlog];
    let sprint = Sprint {
        id: 1,
        project_id: 100,
        name: "S".to_string(),
        goal: None,
        start_date: 0,
        end_date: None,
        is_active: true,
    };
    let k = ProjectService::get_kanban(board, vec![column(1, 50, 1)], Some(sprint), tasks, Vec::new());
    assert_eq!(k.columns[0].tasks.iter().map(|t| t.id).collect::<Vec<_>>(), vec![10]);

    let board = Board { id: 50, project_id: 100, name: "B".to_string() };
    let k = ProjectService::get_kanban(board, vec![column(1, 50, 1)], None, vec![task(10, 1, None)], Vec::new());
    assert!(k.active_sprint.is_none());
    assert!(k.columns[0].tasks.is_empty());
}
